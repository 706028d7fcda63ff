//! Character- and digit-level helpers shared by the protocol encoders and the
//! display formatting: decimal rendering of integers and ASCII case folding.
use vstd::prelude::*;

verus! {

/// The decimal digit character for a value below ten.
pub open spec fn digit_char(d: int) -> char
    recommends
        0 <= d < 10,
{
    if d == 0 {
        '0'
    } else if d == 1 {
        '1'
    } else if d == 2 {
        '2'
    } else if d == 3 {
        '3'
    } else if d == 4 {
        '4'
    } else if d == 5 {
        '5'
    } else if d == 6 {
        '6'
    } else if d == 7 {
        '7'
    } else if d == 8 {
        '8'
    } else {
        '9'
    }
}

/// The decimal rendering of a natural number, most significant digit first.
pub open spec fn spec_dec(n: nat) -> Seq<char>
    decreases n,
{
    if n < 10 {
        seq![digit_char(n as int)]
    } else {
        spec_dec(n / 10) + seq![digit_char((n % 10) as int)]
    }
}

fn digit_str(d: u64) -> (r: &'static str)
    requires
        d < 10,
    ensures
        r@ == seq![digit_char(d as int)],
{
    proof {
        reveal_strlit("0");
        reveal_strlit("1");
        reveal_strlit("2");
        reveal_strlit("3");
        reveal_strlit("4");
        reveal_strlit("5");
        reveal_strlit("6");
        reveal_strlit("7");
        reveal_strlit("8");
        reveal_strlit("9");
    }
    let r = if d == 0 {
        "0"
    } else if d == 1 {
        "1"
    } else if d == 2 {
        "2"
    } else if d == 3 {
        "3"
    } else if d == 4 {
        "4"
    } else if d == 5 {
        "5"
    } else if d == 6 {
        "6"
    } else if d == 7 {
        "7"
    } else if d == 8 {
        "8"
    } else {
        "9"
    };
    proof {
        assert(r@ =~= seq![digit_char(d as int)]);
    }
    r
}

/// Renders `n` in decimal, most significant digit first, no sign and no
/// leading zeros (a lone `0` for zero).
pub fn u64_to_dec(n: u64) -> (r: String)
    ensures
        r@ == spec_dec(n as nat),
    decreases n,
{
    if n < 10 {
        let mut s = String::new();
        s.append(digit_str(n));
        proof {
            assert(s@ =~= spec_dec(n as nat));
        }
        s
    } else {
        let mut s = u64_to_dec(n / 10);
        s.append(digit_str(n % 10));
        proof {
            assert(s@ =~= spec_dec(n as nat));
        }
        s
    }
}

/// ASCII-only case folding of one character: upper-case letters map to their
/// lower-case pair, everything else is unchanged.
pub open spec fn fold_char(c: char) -> char {
    if 'A' <= c && c <= 'Z' {
        ((c as int) + 32) as char
    } else {
        c
    }
}

/// Character equality up to ASCII case.
pub open spec fn char_eq_ic(a: char, b: char) -> bool {
    fold_char(a) == fold_char(b)
}

fn exec_fold_char(c: char) -> (r: char)
    ensures
        r == fold_char(c),
{
    if 'A' <= c && c <= 'Z' {
        (((c as u32) + 32) as u8) as char
    } else {
        c
    }
}

/// `s` ends with `suffix`, comparing characters up to ASCII case.
pub open spec fn spec_ends_with_ic(s: Seq<char>, suffix: Seq<char>) -> bool {
    s.len() >= suffix.len() && (forall|i: int|
        0 <= i < suffix.len() ==> char_eq_ic(
            s[s.len() - suffix.len() + i],
            suffix[i],
        ))
}

/// Compares the tail of `s` against `suffix`, ignoring ASCII case.
pub fn ends_with_ic(s: &str, suffix: &str) -> (r: bool)
    ensures
        r == spec_ends_with_ic(s@, suffix@),
{
    let n = s.unicode_len();
    let m = suffix.unicode_len();
    if n < m {
        return false;
    }
    let mut i: usize = 0;
    while i < m
        invariant
            0 <= i <= m,
            m <= n,
            n == s@.len(),
            m == suffix@.len(),
            forall|j: int| 0 <= j < i ==> char_eq_ic(s@[n - m + j], suffix@[j]),
        decreases m - i,
    {
        let a = s.get_char(n - m + i);
        let b = suffix.get_char(i);
        if exec_fold_char(a) != exec_fold_char(b) {
            return false;
        }
        i += 1;
    }
    true
}

/// `pat` occurs in `s` starting at position `at`, up to ASCII case.
pub open spec fn spec_matches_at_ic(s: Seq<char>, pat: Seq<char>, at: int) -> bool {
    0 <= at && at + pat.len() <= s.len() && (forall|i: int|
        0 <= i < pat.len() ==> char_eq_ic(s[at + i], pat[i]))
}

/// `pat` occurs somewhere in `s`, up to ASCII case.
pub open spec fn spec_contains_ic(s: Seq<char>, pat: Seq<char>) -> bool {
    exists|at: int| spec_matches_at_ic(s, pat, at)
}

fn matches_at_ic(s: &str, pat: &str, at: usize) -> (r: bool)
    requires
        at + pat@.len() <= s@.len(),
    ensures
        r == spec_matches_at_ic(s@, pat@, at as int),
{
    let n = s.unicode_len();
    let m = pat.unicode_len();
    let mut i: usize = 0;
    while i < m
        invariant
            0 <= i <= m,
            m == pat@.len(),
            n == s@.len(),
            at + m <= n,
            forall|j: int| 0 <= j < i ==> char_eq_ic(s@[at + j], pat@[j]),
        decreases m - i,
    {
        let a = s.get_char(at + i);
        let b = pat.get_char(i);
        if exec_fold_char(a) != exec_fold_char(b) {
            return false;
        }
        i += 1;
    }
    true
}

/// Naive substring search, ignoring ASCII case; stands in for a
/// case-insensitive literal match.
pub fn contains_ic(s: &str, pat: &str) -> (r: bool)
    ensures
        r == spec_contains_ic(s@, pat@),
{
    let n = s.unicode_len();
    let m = pat.unicode_len();
    if m > n {
        assert(forall|at: int| !spec_matches_at_ic(s@, pat@, at));
        return false;
    }
    let mut at: usize = 0;
    while at <= n - m
        invariant
            0 <= at <= n - m + 1,
            m <= n,
            n == s@.len(),
            m == pat@.len(),
            forall|k: int| 0 <= k < at ==> !spec_matches_at_ic(s@, pat@, k),
        decreases n - m + 1 - at,
    {
        if matches_at_ic(s, pat, at) {
            return true;
        }
        at += 1;
    }
    assert(forall|k: int| spec_matches_at_ic(s@, pat@, k) ==> 0 <= k <= n - m);
    false
}

} // verus!
