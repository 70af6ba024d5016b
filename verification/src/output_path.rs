//! Where the result of a conversion is written.
//!
//! The output always lands in the directory of the input.  A name supplied
//! by the caller is reduced to its last path segment before it is used, so
//! that it can neither climb out of that directory nor descend from it.

use vstd::prelude::*;
use vstd::string::*;
use crate::text::{chars_of, lemma_trimmed_is_part, str_eq, trim, trimmed};
use crate::types::opt_view;

verus! {

/// Both separators count, whatever the platform.
pub open spec fn is_separator(c: char) -> bool {
    c == '/' || c == '\\'
}

pub open spec fn no_separator(s: Seq<char>) -> bool {
    forall|i: int| 0 <= i < s.len() ==> !is_separator(#[trigger] s[i])
}

/// Where the last segment of a path starts: behind its last separator, or
/// at zero if it has none.
pub open spec fn last_segment_start(s: Seq<char>) -> int
    decreases s.len(),
{
    if s.len() == 0 {
        0
    } else if is_separator(s.last()) {
        s.len() as int
    } else {
        last_segment_start(s.drop_last())
    }
}

/// The part of a path behind its last separator.
pub open spec fn last_segment(s: Seq<char>) -> Seq<char> {
    s.skip(last_segment_start(s))
}

/// The part of a path up to and including its last separator.
pub open spec fn directory_prefix(s: Seq<char>) -> Seq<char> {
    s.take(last_segment_start(s))
}

pub proof fn lemma_last_segment(s: Seq<char>)
    ensures
        0 <= last_segment_start(s) <= s.len(),
        no_separator(last_segment(s)),
        last_segment_start(s) > 0 ==> is_separator(s[last_segment_start(s) - 1]),
        directory_prefix(s) + last_segment(s) == s,
    decreases s.len(),
{
    if s.len() > 0 && !is_separator(s.last()) {
        let t = s.drop_last();
        lemma_last_segment(t);
        let k = last_segment_start(t);
        assert forall|i: int| 0 <= i < last_segment(s).len() implies !is_separator(
            #[trigger] last_segment(s)[i],
        ) by {
            if k + i < t.len() {
                assert(last_segment(t)[i] == s[k + i]);
            }
        }
    }
    assert(directory_prefix(s) + last_segment(s) =~= s);
}

/// The name that a caller-supplied name is reduced to: its last segment,
/// trimmed; nothing if that is empty, `.` or `..`.
pub open spec fn sanitized_name(raw: Seq<char>) -> Option<Seq<char>> {
    let segment = trimmed(last_segment(trimmed(raw)));
    if segment.len() == 0 || segment == "."@ || segment == ".."@ {
        None
    } else {
        Some(segment)
    }
}

/// The position of the last `.` in `s`, or -1.
pub open spec fn last_dot(s: Seq<char>) -> int
    decreases s.len(),
{
    if s.len() == 0 {
        -1
    } else if s.last() == '.' {
        s.len() - 1
    } else {
        last_dot(s.drop_last())
    }
}

/// A file name without its extension.  A name that only starts with a dot
/// has no extension.
pub open spec fn file_stem(name: Seq<char>) -> Seq<char> {
    if last_dot(name) <= 0 {
        name
    } else {
        name.take(last_dot(name))
    }
}

/// A file name with its extension replaced by `extension`; with an empty
/// one, the extension is removed.
pub open spec fn with_extension(name: Seq<char>, extension: Seq<char>) -> Seq<char> {
    if extension.len() == 0 {
        file_stem(name)
    } else {
        file_stem(name) + "."@ + extension
    }
}

/// The file that a conversion writes: in the directory of `file_path`,
/// named after the sanitized `output_name` with the container as its
/// extension, or after the input with `_converted` and the container added.
pub open spec fn output_path(
    file_path: Seq<char>,
    container: Seq<char>,
    output_name: Option<Seq<char>>,
) -> Seq<char> {
    let custom = match output_name {
        Some(raw) => sanitized_name(raw),
        None => None,
    };
    match custom {
        Some(name) => directory_prefix(file_path) + with_extension(name, container),
        None => file_path + "_converted."@ + container,
    }
}

/// Whatever name is supplied, the output is one path segment placed in the
/// directory of the input.
pub proof fn lemma_output_stays_in_directory(
    file_path: Seq<char>,
    container: Seq<char>,
    output_name: Option<Seq<char>>,
)
    requires
        no_separator(container),
    ensures
        ({
            let out = output_path(file_path, container, output_name);
            &&& directory_prefix(out) == directory_prefix(file_path)
            &&& no_separator(last_segment(out))
        }),
{
    reveal_strlit("_converted.");
    reveal_strlit(".");
    let out = output_path(file_path, container, output_name);
    let dir = directory_prefix(file_path);
    lemma_last_segment(file_path);
    lemma_last_segment(out);
    let custom = match output_name {
        Some(raw) => sanitized_name(raw),
        None => None,
    };
    let tail = match custom {
        Some(name) => with_extension(name, container),
        None => last_segment(file_path) + "_converted."@ + container,
    };
    assert(out =~= dir + tail);
    assert(no_separator(tail)) by {
        match custom {
            Some(name) => {
                let raw = output_name.unwrap();
                lemma_last_segment(trimmed(raw));
                lemma_trimmed_no_separator(last_segment(trimmed(raw)));
                assert(no_separator(name));
                lemma_last_dot_range(name);
                assert forall|i: int| 0 <= i < file_stem(name).len() implies !is_separator(
                    #[trigger] file_stem(name)[i],
                ) by {
                    assert(file_stem(name)[i] == name[i]);
                }
                assert(no_separator("."@));
                lemma_no_separator_concat(file_stem(name), "."@);
                lemma_no_separator_concat(file_stem(name) + "."@, container);
            },
            None => {
                assert(no_separator("_converted."@));
                lemma_no_separator_concat(last_segment(file_path), "_converted."@);
                lemma_no_separator_concat(last_segment(file_path) + "_converted."@, container);
            },
        }
    }
    lemma_segment_start_of_concat(dir, tail);
    if dir.len() > 0 {
        assert(is_separator(dir.last()));
    }
    assert(out.take(dir.len() as int) =~= dir);
}

proof fn lemma_last_dot_range(s: Seq<char>)
    ensures
        -1 <= last_dot(s) < s.len(),
    decreases s.len(),
{
    if s.len() > 0 && s.last() != '.' {
        lemma_last_dot_range(s.drop_last());
    }
}

proof fn lemma_no_separator_concat(a: Seq<char>, b: Seq<char>)
    requires
        no_separator(a),
        no_separator(b),
    ensures
        no_separator(a + b),
{
    assert forall|i: int| 0 <= i < (a + b).len() implies !is_separator(#[trigger] (a + b)[i]) by {
        if i < a.len() {
            assert((a + b)[i] == a[i]);
        } else {
            assert((a + b)[i] == b[i - a.len()]);
        }
    }
}

/// Trimming a text without separators leaves none.
proof fn lemma_trimmed_no_separator(s: Seq<char>)
    requires
        no_separator(s),
    ensures
        no_separator(trimmed(s)),
{
    lemma_trimmed_is_part(s);
}

/// Behind a directory prefix, a tail without separators is the last segment.
proof fn lemma_segment_start_of_concat(dir: Seq<char>, tail: Seq<char>)
    requires
        no_separator(tail),
        dir.len() > 0 ==> is_separator(dir.last()),
    ensures
        last_segment_start(dir + tail) == dir.len(),
    decreases tail.len(),
{
    let s = dir + tail;
    if tail.len() == 0 {
        assert(s =~= dir);
    } else {
        assert(s.last() == tail.last());
        assert(s.drop_last() =~= dir + tail.drop_last());
        lemma_segment_start_of_concat(dir, tail.drop_last());
    }
}

/// Finds where the last segment of `v` starts.
fn find_last_segment(v: &Vec<char>) -> (r: usize)
    ensures
        r == last_segment_start(v@),
        r <= v.len(),
{
    let mut k: usize = v.len();
    assert(v@.take(k as int) =~= v@);
    while k > 0 && !(v[k - 1] == '/' || v[k - 1] == '\\')
        invariant
            k <= v.len(),
            last_segment_start(v@) == last_segment_start(v@.take(k as int)),
        decreases k,
    {
        assert(v@.take(k as int).drop_last() =~= v@.take(k - 1));
        k -= 1;
    }
    k
}

/// Reduces a caller-supplied name to a single path segment.
pub fn sanitize_output_name(raw: &str) -> (r: Option<String>)
    ensures
        opt_view(r) == sanitized_name(raw@),
{
    let t = trim(raw);
    let v = chars_of(t);
    let start = find_last_segment(&v);
    let segment = trim(t.substring_char(start, v.len()));
    assert(t@.subrange(start as int, v.len() as int) =~= last_segment(t@));
    if segment.is_empty() || str_eq(segment, ".") || str_eq(segment, "..") {
        None
    } else {
        Some(String::from_str(segment))
    }
}

fn find_last_dot(v: &Vec<char>) -> (r: Option<usize>)
    ensures
        match r {
            Some(i) => last_dot(v@) == i && i < v.len(),
            None => last_dot(v@) == -1,
        },
{
    let mut k: usize = v.len();
    assert(v@.take(k as int) =~= v@);
    while k > 0
        invariant
            k <= v.len(),
            last_dot(v@) == last_dot(v@.take(k as int)),
        decreases k,
    {
        if v[k - 1] == '.' {
            return Some(k - 1);
        }
        assert(v@.take(k as int).drop_last() =~= v@.take(k - 1));
        k -= 1;
    }
    None
}

fn push_with_extension(out: &mut String, name: &str, extension: &str)
    ensures
        final(out)@ == old(out)@ + with_extension(name@, extension@),
{
    let v = chars_of(name);
    match find_last_dot(&v) {
        Some(i) => {
            if i > 0 {
                out.append(name.substring_char(0, i));
                assert(name@.subrange(0, i as int) =~= file_stem(name@));
            } else {
                out.append(name);
            }
        },
        None => {
            out.append(name);
        },
    }
    if !extension.is_empty() {
        out.append(".");
        out.append(extension);
    }
    assert(out@ =~= old(out)@ + with_extension(name@, extension@));
}

/// Derives the path of the output file.
pub fn build_output_path(file_path: &str, container: &str, output_name: Option<String>) -> (r:
    String)
    ensures
        r@ == output_path(file_path@, container@, opt_view(output_name)),
{
    let custom = match &output_name {
        Some(raw) => sanitize_output_name(raw.as_str()),
        None => None,
    };
    match custom {
        Some(name) => {
            let v = chars_of(file_path);
            let start = find_last_segment(&v);
            let mut out = String::from_str(file_path.substring_char(0, start));
            assert(file_path@.subrange(0, start as int) =~= directory_prefix(file_path@));
            push_with_extension(&mut out, name.as_str(), container);
            out
        },
        None => {
            let mut out = String::from_str(file_path);
            out.append("_converted.");
            out.append(container);
            out
        },
    }
}

} // verus!
