//! Character-level string utilities shared by the parsers and synthesizers.
//!
//! Strings are modelled by their `Seq<char>` view; every function states its
//! result over that view.

use vstd::prelude::*;
use vstd::string::*;
use vstd::utf8::*;

verus! {

/// The characters of `s`, in order.
pub fn chars_of(s: &str) -> (v: Vec<char>)
    ensures
        v@ == s@,
{
    let mut v: Vec<char> = Vec::new();
    for c in it: s.chars()
        invariant
            it.seq() == s@,
            v@ == s@.take(it.index() as int),
    {
        v.push(c);
        assert(s@.take(it.index() + 1) =~= s@.take(it.index() as int).push(c));
    }
    assert(s@.take(s@.len() as int) =~= s@);
    v
}

/// Whether two string slices hold the same characters.
pub fn str_eq(a: &str, b: &str) -> (r: bool)
    ensures
        r == (a@ == b@),
{
    let x = a.as_bytes();
    let y = b.as_bytes();
    proof {
        encode_utf8_decode_utf8(a@);
        encode_utf8_decode_utf8(b@);
    }
    if x.len() != y.len() {
        return false;
    }
    let mut i: usize = 0;
    while i < x.len()
        invariant
            x.len() == y.len(),
            i <= x.len(),
            x@ == a.spec_bytes(),
            y@ == b.spec_bytes(),
            forall|j: int| 0 <= j < i ==> x@[j] == y@[j],
        decreases x.len() - i,
    {
        if x[i] != y[i] {
            return false;
        }
        i += 1;
    }
    assert(x@ =~= y@);
    true
}

/// Unicode `White_Space`, the set that trimming removes.
pub open spec fn is_whitespace(c: char) -> bool {
    let n = c as u32;
    ||| 0x09 <= n <= 0x0D
    ||| n == 0x20
    ||| n == 0x85
    ||| n == 0xA0
    ||| n == 0x1680
    ||| 0x2000 <= n <= 0x200A
    ||| n == 0x2028
    ||| n == 0x2029
    ||| n == 0x202F
    ||| n == 0x205F
    ||| n == 0x3000
}

pub fn char_is_whitespace(c: char) -> (r: bool)
    ensures
        r == is_whitespace(c),
{
    let n: u32 = c as u32;
    (0x09 <= n && n <= 0x0D) || n == 0x20 || n == 0x85 || n == 0xA0 || n == 0x1680 || (0x2000 <= n
        && n <= 0x200A) || n == 0x2028 || n == 0x2029 || n == 0x202F || n == 0x205F || n == 0x3000
}

/// `s` without its leading whitespace.
pub open spec fn trim_start(s: Seq<char>) -> Seq<char>
    decreases s.len(),
{
    if s.len() > 0 && is_whitespace(s.first()) {
        trim_start(s.drop_first())
    } else {
        s
    }
}

/// `s` without its trailing whitespace.
pub open spec fn trim_end(s: Seq<char>) -> Seq<char>
    decreases s.len(),
{
    if s.len() > 0 && is_whitespace(s.last()) {
        trim_end(s.drop_last())
    } else {
        s
    }
}

/// `s` without leading and trailing whitespace.
pub open spec fn trimmed(s: Seq<char>) -> Seq<char> {
    trim_end(trim_start(s))
}

/// What trimming leaves is a contiguous part of the text.
pub proof fn lemma_trimmed_is_part(s: Seq<char>)
    ensures
        exists|a: int, b: int| 0 <= a <= b <= s.len() && trimmed(s) == s.subrange(a, b),
{
    lemma_trim_start_is_suffix(s);
    let t = trim_start(s);
    lemma_trim_end_is_prefix(t);
    let a = s.len() - t.len();
    let b = a + trimmed(s).len();
    assert(trimmed(s) =~= s.subrange(a, b));
}

proof fn lemma_trim_start_is_suffix(s: Seq<char>)
    ensures
        trim_start(s).len() <= s.len(),
        trim_start(s) == s.skip(s.len() - trim_start(s).len()),
    decreases s.len(),
{
    if s.len() > 0 && is_whitespace(s.first()) {
        let t = s.drop_first();
        lemma_trim_start_is_suffix(t);
        assert(t.skip(t.len() - trim_start(t).len()) =~= s.skip(s.len() - trim_start(t).len()));
    } else {
        assert(s.skip(0) =~= s);
    }
}

proof fn lemma_trim_end_is_prefix(s: Seq<char>)
    ensures
        trim_end(s).len() <= s.len(),
        trim_end(s) == s.take(trim_end(s).len() as int),
    decreases s.len(),
{
    if s.len() > 0 && is_whitespace(s.last()) {
        let t = s.drop_last();
        lemma_trim_end_is_prefix(t);
        assert(t.take(trim_end(t).len() as int) =~= s.take(trim_end(t).len() as int));
    } else {
        assert(s.take(s.len() as int) =~= s);
    }
}

/// The slice of `s` between its first and last non-whitespace characters.
pub fn trim<'a>(s: &'a str) -> (r: &'a str)
    ensures
        r@ == trimmed(s@),
{
    let v = chars_of(s);
    let n = v.len();
    let mut start: usize = 0;
    assert(v@.skip(0) =~= v@);
    while start < n && char_is_whitespace(v[start])
        invariant
            n == v.len(),
            start <= n,
            trim_start(v@) == trim_start(v@.skip(start as int)),
        decreases n - start,
    {
        assert(v@.skip(start as int).drop_first() =~= v@.skip(start + 1));
        start += 1;
    }
    assert(trim_start(v@) == v@.skip(start as int));
    let mut end: usize = n;
    while end > start && char_is_whitespace(v[end - 1])
        invariant
            n == v.len(),
            start <= end <= n,
            trim_end(v@.skip(start as int)) == trim_end(v@.subrange(start as int, end as int)),
        decreases end - start,
    {
        assert(v@.subrange(start as int, end as int).drop_last() =~= v@.subrange(
            start as int,
            end - 1,
        ));
        end -= 1;
    }
    proof {
        assert(v@.skip(start as int) =~= v@.subrange(start as int, n as int));
    }
    s.substring_char(start, end)
}

/// ASCII decimal digits.
pub open spec fn is_digit(c: char) -> bool {
    '0' <= c <= '9'
}

/// The number an ASCII digit stands for.
pub open spec fn digit_value(c: char) -> nat {
    (c as u32 - '0' as u32) as nat
}

/// The ASCII digit for `d`, `0 <= d <= 9`.
pub open spec fn digit_char(d: nat) -> char {
    if d == 0 {
        '0'
    } else if d == 1 {
        '1'
    } else if d == 2 {
        '2'
    } else if d == 3 {
        '3'
    } else if d == 4 {
        '4'
    } else if d == 5 {
        '5'
    } else if d == 6 {
        '6'
    } else if d == 7 {
        '7'
    } else if d == 8 {
        '8'
    } else {
        '9'
    }
}

/// Decimal notation of `n`, without sign or leading zeros.
pub open spec fn decimal(n: nat) -> Seq<char>
    decreases n,
{
    if n < 10 {
        seq![digit_char(n)]
    } else {
        decimal(n / 10).push(digit_char(n % 10))
    }
}

/// Decimal notation of `i`, with `-` in front of a negative number.
pub open spec fn signed_decimal(i: int) -> Seq<char> {
    if i < 0 {
        seq!['-'] + decimal((-i) as nat)
    } else {
        decimal(i as nat)
    }
}

/// The number that a run of digits denotes.
pub open spec fn digits_value(s: Seq<char>) -> nat
    decreases s.len(),
{
    if s.len() == 0 {
        0
    } else {
        digits_value(s.drop_last()) * 10 + digit_value(s.last())
    }
}

pub open spec fn all_digits(s: Seq<char>) -> bool {
    forall|i: int| 0 <= i < s.len() ==> is_digit(#[trigger] s[i])
}

/// A non-empty run of digits whose value is at most `max`.
pub open spec fn bounded_digits(s: Seq<char>, max: nat) -> Option<nat> {
    if s.len() > 0 && all_digits(s) && digits_value(s) <= max {
        Some(digits_value(s))
    } else {
        None
    }
}

/// Unsigned decimal: an optional `+`, then digits, at most `max`.
pub open spec fn parse_unsigned(s: Seq<char>, max: nat) -> Option<nat> {
    if s.len() > 0 && s[0] == '+' {
        bounded_digits(s.drop_first(), max)
    } else {
        bounded_digits(s, max)
    }
}

/// Signed decimal: an optional `+` or `-`, then digits, within `min..=max`.
pub open spec fn parse_signed(s: Seq<char>, min: int, max: int) -> Option<int> {
    if s.len() > 0 && s[0] == '-' {
        match bounded_digits(s.drop_first(), (-min) as nat) {
            Some(v) => Some(-(v as int)),
            None => None,
        }
    } else if max < 0 {
        None
    } else {
        match parse_unsigned(s, max as nat) {
            Some(v) => Some(v as int),
            None => None,
        }
    }
}

/// Digits read in textual order never shrink the value read so far.
pub proof fn lemma_digits_value_prefix(s: Seq<char>, k: int)
    requires
        0 <= k <= s.len(),
    ensures
        digits_value(s.take(k)) <= digits_value(s),
    decreases s.len(),
{
    if k < s.len() {
        lemma_digits_value_prefix(s.drop_last(), k);
        assert(s.drop_last().take(k) =~= s.take(k));
    } else {
        assert(s.take(k) =~= s);
    }
}

pub fn char_is_digit(c: char) -> (r: bool)
    ensures
        r == is_digit(c),
{
    '0' <= c && c <= '9'
}

/// Largest bound that `read_digits` accepts.
pub const MAX_READ: u64 = 1_000_000_000_000_000_000;

/// Reads `v[from..to]` as a run of digits bounded by `max`.
pub fn read_digits(v: &Vec<char>, from: usize, to: usize, max: u64) -> (r: Option<u64>)
    requires
        from <= to <= v.len(),
        max <= MAX_READ,
    ensures
        r matches Some(n) ==> bounded_digits(v@.subrange(from as int, to as int), max as nat)
            == Some(n as nat),
        r is None ==> bounded_digits(v@.subrange(from as int, to as int), max as nat) is None,
{
    let ghost s = v@.subrange(from as int, to as int);
    if from == to {
        return None;
    }
    let mut acc: u64 = 0;
    let mut i: usize = from;
    assert(s.take(0) =~= Seq::<char>::empty());
    while i < to
        invariant
            from <= i <= to <= v.len(),
            max <= MAX_READ,
            s == v@.subrange(from as int, to as int),
            all_digits(s.take(i - from)),
            acc == digits_value(s.take(i - from)),
            acc <= max,
        decreases to - i,
    {
        let c = v[i];
        assert(c == s[i - from]);
        if !char_is_digit(c) {
            return None;
        }
        let d: u64 = (c as u32 - '0' as u32) as u64;
        let next: u64 = acc * 10 + d;
        proof {
            let t = s.take(i - from + 1);
            assert(t.drop_last() =~= s.take(i - from));
            assert(t.last() == c);
            assert(next == digits_value(t));
            assert forall|j: int| 0 <= j < t.len() implies is_digit(#[trigger] t[j]) by {
                if j < i - from {
                    assert(s.take(i - from)[j] == t[j]);
                }
            }
            lemma_digits_value_prefix(s, i - from + 1);
        }
        if next > max {
            return None;
        }
        acc = next;
        i += 1;
    }
    assert(s.take(to - from) =~= s);
    Some(acc)
}

/// Reads an unsigned decimal number as `u32`: an optional `+`, then digits.
pub fn parse_u32(s: &str) -> (r: Option<u32>)
    ensures
        r matches Some(n) ==> parse_unsigned(s@, u32::MAX as nat) == Some(n as nat),
        r is None ==> parse_unsigned(s@, u32::MAX as nat) is None,
{
    let v = chars_of(s);
    let from: usize = if v.len() > 0 && v[0] == '+' {
        1
    } else {
        0
    };
    proof {
        assert(v@.subrange(0, v.len() as int) =~= v@);
        assert(v@.subrange(1, v.len() as int) =~= v@.drop_first());
    }
    match read_digits(&v, from, v.len(), 0xffff_ffff) {
        Some(n) => Some(n as u32),
        None => None,
    }
}

/// Reads a signed decimal number as `i32`: an optional sign, then digits.
pub fn parse_i32(s: &str) -> (r: Option<i32>)
    ensures
        r matches Some(n) ==> parse_signed(s@, i32::MIN as int, i32::MAX as int) == Some(n as int),
        r is None ==> parse_signed(s@, i32::MIN as int, i32::MAX as int) is None,
{
    let v = chars_of(s);
    proof {
        assert(v@.subrange(0, v.len() as int) =~= v@);
        assert(v@.subrange(1, v.len() as int) =~= v@.drop_first());
    }
    if v.len() > 0 && v[0] == '-' {
        match read_digits(&v, 1, v.len(), 0x8000_0000) {
            Some(n) => Some((0 - (n as i64)) as i32),
            None => None,
        }
    } else {
        let from: usize = if v.len() > 0 && v[0] == '+' {
            1
        } else {
            0
        };
        match read_digits(&v, from, v.len(), 0x7fff_ffff) {
            Some(n) => Some(n as i32),
            None => None,
        }
    }
}

fn digit_str(d: u64) -> (r: &'static str)
    requires
        d < 10,
    ensures
        r@ == seq![digit_char(d as nat)],
{
    proof {
        reveal_strlit("0");
        reveal_strlit("1");
        reveal_strlit("2");
        reveal_strlit("3");
        reveal_strlit("4");
        reveal_strlit("5");
        reveal_strlit("6");
        reveal_strlit("7");
        reveal_strlit("8");
        reveal_strlit("9");
    }
    let r = if d == 0 {
        "0"
    } else if d == 1 {
        "1"
    } else if d == 2 {
        "2"
    } else if d == 3 {
        "3"
    } else if d == 4 {
        "4"
    } else if d == 5 {
        "5"
    } else if d == 6 {
        "6"
    } else if d == 7 {
        "7"
    } else if d == 8 {
        "8"
    } else {
        "9"
    };
    assert(r@ =~= seq![digit_char(d as nat)]);
    r
}

/// Appends the decimal notation of `n` to `out`.
pub fn push_decimal(out: &mut String, n: u64)
    ensures
        final(out)@ == old(out)@ + decimal(n as nat),
    decreases n,
{
    if n >= 10 {
        push_decimal(out, n / 10);
    }
    out.append(digit_str(n % 10));
    proof {
        if n >= 10 {
            assert(old(out)@ + decimal((n / 10) as nat) + seq![digit_char((n % 10) as nat)]
                =~= old(out)@ + decimal(n as nat));
        }
    }
}

/// Appends the decimal notation of `i`, with `-` in front of a negative number.
pub fn push_signed_decimal(out: &mut String, i: i64)
    ensures
        final(out)@ == old(out)@ + signed_decimal(i as int),
{
    if i < 0 {
        proof {
            reveal_strlit("-");
        }
        out.append("-");
        let m: u64 = if i == i64::MIN {
            0x8000_0000_0000_0000
        } else {
            (0 - i) as u64
        };
        push_decimal(out, m);
        assert(old(out)@ + "-"@ + decimal(m as nat) =~= old(out)@ + signed_decimal(i as int));
    } else {
        push_decimal(out, i as u64);
    }
}

pub fn u64_to_string(n: u64) -> (r: String)
    ensures
        r@ == decimal(n as nat),
{
    let mut out = String::new();
    push_decimal(&mut out, n);
    assert(Seq::<char>::empty() + decimal(n as nat) =~= decimal(n as nat));
    out
}

/// The parts of `parts`, with `sep` between neighbours.
pub open spec fn join(parts: Seq<Seq<char>>, sep: Seq<char>) -> Seq<char>
    decreases parts.len(),
{
    if parts.len() == 0 {
        Seq::empty()
    } else if parts.len() == 1 {
        parts[0]
    } else {
        join(parts.drop_last(), sep) + sep + parts.last()
    }
}

/// The views of a list of strings.
pub open spec fn views(v: Seq<String>) -> Seq<Seq<char>> {
    Seq::new(v.len(), |i: int| v[i]@)
}

pub fn join_strings(parts: &Vec<String>, sep: &str) -> (r: String)
    ensures
        r@ == join(views(parts@), sep@),
{
    let mut out = String::new();
    let mut i: usize = 0;
    while i < parts.len()
        invariant
            i <= parts.len(),
            out@ == join(views(parts@).take(i as int), sep@),
        decreases parts.len() - i,
    {
        if i > 0 {
            out.append(sep);
        }
        out.append(parts[i].as_str());
        proof {
            let p = views(parts@).take(i + 1);
            assert(p.drop_last() =~= views(parts@).take(i as int));
            assert(p.last() == parts@[i as int]@);
            if i == 0 {
                assert(Seq::<char>::empty() + parts@[0]@ =~= parts@[0]@);
            }
        }
        i += 1;
    }
    assert(views(parts@).take(parts.len() as int) =~= views(parts@));
    out
}

/// The first position at or after `from` where `c` stands in `s`, or the
/// length of `s` if there is none.
pub open spec fn first_at(s: Seq<char>, from: int, c: char) -> int
    decreases s.len() - from,
{
    if from < 0 || from >= s.len() {
        s.len() as int
    } else if s[from] == c {
        from
    } else {
        first_at(s, from + 1, c)
    }
}

/// Finds the first `c` in `v` at or after `from`.
pub fn find_char(v: &Vec<char>, from: usize, c: char) -> (r: usize)
    requires
        from <= v.len(),
    ensures
        r == first_at(v@, from as int, c),
        from <= r <= v.len(),
{
    let mut k: usize = from;
    while k < v.len() && v[k] != c
        invariant
            from <= k <= v.len(),
            first_at(v@, from as int, c) == first_at(v@, k as int, c),
        decreases v.len() - k,
    {
        k += 1;
    }
    k
}

/// Whether some character of `s` is not `0`.
pub open spec fn has_nonzero(s: Seq<char>) -> bool {
    exists|i: int| 0 <= i < s.len() && #[trigger] s[i] != '0'
}

/// A letter in either case.
pub open spec fn letter(c: char, lower: char, upper: char) -> bool {
    c == lower || c == upper
}

/// `inf` or `infinity`, in any mix of cases.
pub open spec fn is_infinity_word(s: Seq<char>) -> bool {
    ||| s.len() == 3 && letter(s[0], 'i', 'I') && letter(s[1], 'n', 'N') && letter(s[2], 'f', 'F')
    ||| s.len() == 8 && letter(s[0], 'i', 'I') && letter(s[1], 'n', 'N') && letter(s[2], 'f', 'F')
        && letter(s[3], 'i', 'I') && letter(s[4], 'n', 'N') && letter(s[5], 'i', 'I') && letter(
        s[6],
        't',
        'T',
    ) && letter(s[7], 'y', 'Y')
}

/// `nan`, in any mix of cases.
pub open spec fn is_nan_word(s: Seq<char>) -> bool {
    s.len() == 3 && letter(s[0], 'n', 'N') && letter(s[1], 'a', 'A') && letter(s[2], 'n', 'N')
}

/// The first position at or after `from` of an exponent mark, `e` or `E`,
/// or the length of `s` if there is none.
pub open spec fn first_exponent(s: Seq<char>, from: int) -> int
    decreases s.len() - from,
{
    if from < 0 || from >= s.len() {
        s.len() as int
    } else if letter(s[from], 'e', 'E') {
        from
    } else {
        first_exponent(s, from + 1)
    }
}

/// What may follow an exponent mark: an optional sign, then digits.
pub open spec fn is_exponent(s: Seq<char>) -> bool {
    if s.len() > 0 && (s[0] == '+' || s[0] == '-') {
        s.len() > 1 && all_digits(s.drop_first())
    } else {
        s.len() > 0 && all_digits(s)
    }
}

/// Whether a number written as text is positive; `None` for a text that is
/// no number.  A number is an optional sign followed by `inf`, `infinity`,
/// `nan`, or by digits with at most one `.` among them and at least one
/// digit, and optionally an exponent.  Letters count in either case.  An
/// infinity is positive unless it has a minus sign; `nan` is not positive;
/// any other number is positive when it has no minus sign and a digit before
/// the exponent is not zero.
pub open spec fn number_positive(s: Seq<char>) -> Option<bool> {
    let signed = s.len() > 0 && (s[0] == '+' || s[0] == '-');
    let negative = s.len() > 0 && s[0] == '-';
    let from = if signed {
        1int
    } else {
        0int
    };
    let mark = first_exponent(s, from);
    let dot = first_at(s, from, '.');
    let whole = if dot < mark {
        s.subrange(from, dot)
    } else {
        s.subrange(from, mark)
    };
    let frac = if dot < mark {
        s.subrange(dot + 1, mark)
    } else {
        Seq::empty()
    };
    if is_infinity_word(s.skip(from)) {
        Some(!negative)
    } else if is_nan_word(s.skip(from)) {
        Some(false)
    } else if all_digits(whole) && all_digits(frac) && whole.len() + frac.len() > 0 && (mark
        >= s.len() || is_exponent(s.skip(mark + 1))) {
        Some(!negative && (has_nonzero(whole) || has_nonzero(frac)))
    } else {
        None
    }
}

/// Scans `v[from..to]`: `None` unless it holds digits only, else whether one
/// of them is not zero.
fn scan_digits(v: &Vec<char>, from: usize, to: usize) -> (r: Option<bool>)
    requires
        from <= to <= v.len(),
    ensures
        r matches Some(nz) ==> {
            let s = v@.subrange(from as int, to as int);
            all_digits(s) && nz == has_nonzero(s)
        },
        r is None ==> !all_digits(v@.subrange(from as int, to as int)),
{
    let ghost s = v@.subrange(from as int, to as int);
    let mut nz = false;
    let mut k: usize = from;
    while k < to
        invariant
            from <= k <= to <= v.len(),
            s == v@.subrange(from as int, to as int),
            forall|i: int| 0 <= i < k - from ==> is_digit(#[trigger] s[i]),
            nz == (exists|i: int| 0 <= i < k - from && #[trigger] s[i] != '0'),
        decreases to - k,
    {
        let c = v[k];
        assert(s[k - from] == c);
        if !char_is_digit(c) {
            return None;
        }
        if c != '0' {
            nz = true;
        }
        k += 1;
    }
    Some(nz)
}

fn is_letter(c: char, lower: char, upper: char) -> (r: bool)
    ensures
        r == letter(c, lower, upper),
{
    c == lower || c == upper
}

fn reads_infinity(v: &Vec<char>, from: usize) -> (r: bool)
    requires
        from <= v.len(),
    ensures
        r == is_infinity_word(v@.skip(from as int)),
{
    let n = v.len() - from;
    let ghost s = v@.skip(from as int);
    if n != 3 && n != 8 {
        return false;
    }
    proof {
        assert(s[0] == v@[from + 0] && s[1] == v@[from + 1] && s[2] == v@[from + 2]);
        if n == 8 {
            assert(s[3] == v@[from + 3] && s[4] == v@[from + 4] && s[5] == v@[from + 5] && s[6]
                == v@[from + 6] && s[7] == v@[from + 7]);
        }
    }
    let inf = is_letter(v[from], 'i', 'I') && is_letter(v[from + 1], 'n', 'N') && is_letter(
        v[from + 2],
        'f',
        'F',
    );
    if n == 3 {
        inf
    } else {
        inf && is_letter(v[from + 3], 'i', 'I') && is_letter(v[from + 4], 'n', 'N') && is_letter(
            v[from + 5],
            'i',
            'I',
        ) && is_letter(v[from + 6], 't', 'T') && is_letter(v[from + 7], 'y', 'Y')
    }
}

fn reads_nan(v: &Vec<char>, from: usize) -> (r: bool)
    requires
        from <= v.len(),
    ensures
        r == is_nan_word(v@.skip(from as int)),
{
    let ghost s = v@.skip(from as int);
    if v.len() - from != 3 {
        return false;
    }
    proof {
        assert(s[0] == v@[from + 0] && s[1] == v@[from + 1] && s[2] == v@[from + 2]);
    }
    is_letter(v[from], 'n', 'N') && is_letter(v[from + 1], 'a', 'A') && is_letter(
        v[from + 2],
        'n',
        'N',
    )
}

fn find_exponent(v: &Vec<char>, from: usize) -> (r: usize)
    requires
        from <= v.len(),
    ensures
        r == first_exponent(v@, from as int),
        from <= r <= v.len(),
{
    let mut k: usize = from;
    while k < v.len() && !is_letter(v[k], 'e', 'E')
        invariant
            from <= k <= v.len(),
            first_exponent(v@, from as int) == first_exponent(v@, k as int),
        decreases v.len() - k,
    {
        k += 1;
    }
    k
}

fn reads_exponent(v: &Vec<char>, from: usize) -> (r: bool)
    requires
        from <= v.len(),
    ensures
        r == is_exponent(v@.skip(from as int)),
{
    let n = v.len();
    let ghost s = v@.skip(from as int);
    if from >= n {
        return false;
    }
    assert(s[0] == v@[from as int]);
    let start: usize = if v[from] == '+' || v[from] == '-' {
        from + 1
    } else {
        from
    };
    proof {
        assert(v@.subrange(from as int, n as int) =~= s);
        assert(v@.subrange(from + 1, n as int) =~= s.drop_first());
    }
    if start >= n {
        return false;
    }
    scan_digits(v, start, n).is_some()
}

/// Reads whether a number written as text is positive.
pub fn read_number_positive(text: &str) -> (r: Option<bool>)
    ensures
        r == number_positive(text@),
{
    let v = chars_of(text);
    let n = v.len();
    let negative = n > 0 && v[0] == '-';
    let from: usize = if n > 0 && (v[0] == '+' || v[0] == '-') {
        1
    } else {
        0
    };
    if reads_infinity(&v, from) {
        return Some(!negative);
    }
    if reads_nan(&v, from) {
        return Some(false);
    }
    let mark = find_exponent(&v, from);
    let dot = find_char(&v, from, '.');
    let whole_end = if dot < mark {
        dot
    } else {
        mark
    };
    let whole = match scan_digits(&v, from, whole_end) {
        Some(nz) => nz,
        None => { return None; },
    };
    let mut frac = false;
    let mut digits: usize = whole_end - from;
    if dot < mark {
        frac =
        match scan_digits(&v, dot + 1, mark) {
            Some(nz) => nz,
            None => { return None; },
        };
        if digits == 0 {
            digits = mark - (dot + 1);
        }
    } else {
        assert(!has_nonzero(Seq::<char>::empty()));
    }
    if digits == 0 {
        return None;
    }
    if mark < n && !reads_exponent(&v, mark + 1) {
        return None;
    }
    Some(!negative && (whole || frac))
}

/// Appends one argument.
pub fn push_arg(args: &mut Vec<String>, s: &str)
    ensures
        views(final(args)@) == views(old(args)@).push(s@),
{
    args.push(String::from_str(s));
    assert(views(args@) =~= views(old(args)@).push(s@));
}

/// Appends one argument that is already owned.
pub fn push_owned(args: &mut Vec<String>, s: String)
    ensures
        views(final(args)@) == views(old(args)@).push(s@),
{
    args.push(s);
    assert(views(args@) =~= views(old(args)@).push(s@));
}

/// Appends a flag and its value.
pub fn push_pair(args: &mut Vec<String>, flag: &str, value: &str)
    ensures
        views(final(args)@) == views(old(args)@) + seq![flag@, value@],
{
    args.push(String::from_str(flag));
    args.push(String::from_str(value));
    assert(views(args@) =~= views(old(args)@) + seq![flag@, value@]);
}

/// Appends all of `more`.
pub fn extend_args(args: &mut Vec<String>, more: Vec<String>)
    ensures
        views(final(args)@) == views(old(args)@) + views(more@),
{
    let ghost added = more@;
    let mut more = more;
    args.append(&mut more);
    assert(views(args@) =~= views(old(args)@) + views(added));
}

} // verus!
