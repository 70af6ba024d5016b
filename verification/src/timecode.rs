//! Timecodes: `hours:minutes:seconds`, the seconds optionally with a
//! fraction, read into whole milliseconds.

use vstd::prelude::*;
use vstd::string::*;
use crate::text::{
    all_digits, bounded_digits, char_is_digit, chars_of, decimal, digit_value, find_char,
    first_at, is_digit, push_decimal, read_digits,
};

verus! {

/// Largest value of the hours, minutes or whole seconds field.
pub const MAX_FIELD: u64 = 999_999_999;

/// The digit of `frac` at position `k`, or zero past its end.
pub open spec fn digit_at(frac: Seq<char>, k: int) -> nat {
    if 0 <= k < frac.len() {
        digit_value(frac[k])
    } else {
        0
    }
}

/// The milliseconds that a fraction of a second denotes; digits after the
/// third are dropped.
pub open spec fn fraction_millis(frac: Seq<char>) -> nat {
    digit_at(frac, 0) * 100 + digit_at(frac, 1) * 10 + digit_at(frac, 2)
}

/// The seconds field: digits, optionally followed by `.` and more digits.
pub open spec fn seconds_millis(s: Seq<char>) -> Option<nat> {
    let dot = first_at(s, 0, '.');
    if dot >= s.len() {
        match bounded_digits(s, MAX_FIELD as nat) {
            Some(v) => Some(v * 1000),
            None => None,
        }
    } else {
        let frac = s.skip(dot + 1);
        match bounded_digits(s.take(dot), MAX_FIELD as nat) {
            Some(v) => if frac.len() > 0 && all_digits(frac) {
                Some(v * 1000 + fraction_millis(frac))
            } else {
                None
            },
            None => None,
        }
    }
}

/// The milliseconds that a timecode denotes, if it is one: three fields
/// separated by `:`, hours and minutes digits only and at most `MAX_FIELD`,
/// seconds as `seconds_millis` reads them.
pub open spec fn timecode_millis(s: Seq<char>) -> Option<nat> {
    let a = first_at(s, 0, ':');
    let b = first_at(s, a + 1, ':');
    if a < s.len() && b < s.len() {
        match (
            bounded_digits(s.subrange(0, a), MAX_FIELD as nat),
            bounded_digits(s.subrange(a + 1, b), MAX_FIELD as nat),
            seconds_millis(s.skip(b + 1)),
        ) {
            (Some(h), Some(m), Some(ms)) => Some(h * 3_600_000 + m * 60_000 + ms),
            _ => None,
        }
    } else {
        None
    }
}

/// Reads `v[from..]` as the fraction of a second.
fn read_fraction(v: &Vec<char>, from: usize) -> (r: Option<u64>)
    requires
        from <= v.len(),
    ensures
        r matches Some(ms) ==> v@.skip(from as int).len() > 0 && all_digits(v@.skip(from as int))
            && ms == fraction_millis(v@.skip(from as int)),
        r is None ==> !(v@.skip(from as int).len() > 0 && all_digits(v@.skip(from as int))),
{
    let n = v.len();
    let ghost frac = v@.skip(from as int);
    if from >= n {
        return None;
    }
    let mut k: usize = from;
    while k < n
        invariant
            from <= k <= n == v.len(),
            frac == v@.skip(from as int),
            forall|i: int| from <= i < k ==> is_digit(#[trigger] v@[i]),
        decreases n - k,
    {
        if !char_is_digit(v[k]) {
            assert(frac[k - from] == v@[k as int]);
            return None;
        }
        k += 1;
    }
    assert forall|i: int| 0 <= i < frac.len() implies is_digit(#[trigger] frac[i]) by {
        assert(frac[i] == v@[from + i]);
    }
    let d0: u64 = (v[from] as u32 - '0' as u32) as u64;
    let d1: u64 = if n - from > 1 {
        (v[from + 1] as u32 - '0' as u32) as u64
    } else {
        0
    };
    let d2: u64 = if n - from > 2 {
        (v[from + 2] as u32 - '0' as u32) as u64
    } else {
        0
    };
    proof {
        assert(frac[0] == v@[from as int]);
        if n - from > 1 {
            assert(frac[1] == v@[from + 1]);
        }
        if n - from > 2 {
            assert(frac[2] == v@[from + 2]);
        }
    }
    Some(d0 * 100 + d1 * 10 + d2)
}

/// Reads a timecode into milliseconds.
pub fn parse_time(text: &str) -> (r: Option<u64>)
    ensures
        r matches Some(ms) ==> timecode_millis(text@) == Some(ms as nat),
        r is None ==> timecode_millis(text@) is None,
{
    let v = chars_of(text);
    let n = v.len();
    let a = find_char(&v, 0, ':');
    if a >= n {
        return None;
    }
    let b = find_char(&v, a + 1, ':');
    if b >= n {
        return None;
    }
    let hours = match read_digits(&v, 0, a, MAX_FIELD) {
        Some(h) => h,
        None => { return None; },
    };
    let minutes = match read_digits(&v, a + 1, b, MAX_FIELD) {
        Some(m) => m,
        None => { return None; },
    };
    let ghost t = v@.skip(b + 1);
    let dot = find_char(&v, b + 1, '.');
    proof {
        lemma_first_at_skip(v@, b + 1, b + 1, '.');
        assert(v@.subrange(b + 1, n as int) =~= t);
        assert(v@.subrange(b + 1, dot as int) =~= t.take(dot - (b + 1)));
    }
    let seconds = match read_digits(&v, b + 1, dot, MAX_FIELD) {
        Some(s) => s,
        None => { return None; },
    };
    let mut millis: u64 = 0;
    if dot < n {
        assert(t.skip(dot - b) =~= v@.skip(dot + 1));
        millis =
        match read_fraction(&v, dot + 1) {
            Some(f) => f,
            None => { return None; },
        };
    }
    Some(hours * 3_600_000 + minutes * 60_000 + seconds * 1000 + millis)
}

/// Searching a suffix finds the same position, counted from the suffix.
pub proof fn lemma_first_at_skip(s: Seq<char>, base: int, from: int, c: char)
    requires
        0 <= base <= from <= s.len(),
    ensures
        first_at(s.skip(base), from - base, c) == first_at(s, from, c) - base,
    decreases s.len() - from,
{
    if from < s.len() && s[from] != c {
        lemma_first_at_skip(s, base, from + 1, c);
    }
}

/// Three digits for a number below one thousand.
pub open spec fn three_digits(n: nat) -> Seq<char> {
    decimal(n / 100) + decimal(n / 10 % 10) + decimal(n % 10)
}

/// Seconds with three decimals, from milliseconds.
pub open spec fn seconds_text(millis: nat) -> Seq<char> {
    decimal(millis / 1000) + seq!['.'] + three_digits(millis % 1000)
}

/// Renders `millis` as seconds with exactly three decimals.
pub fn format_seconds(millis: u64) -> (r: String)
    ensures
        r@ == seconds_text(millis as nat),
{
    let mut out = String::new();
    push_decimal(&mut out, millis / 1000);
    proof {
        reveal_strlit(".");
    }
    out.append(".");
    let f = millis % 1000;
    push_decimal(&mut out, f / 100);
    push_decimal(&mut out, f / 10 % 10);
    push_decimal(&mut out, f % 10);
    assert(out@ =~= seconds_text(millis as nat));
    out
}

} // verus!
