//! Text helpers: comparison, substring search and decimal numerals.
use vstd::prelude::*;
use vstd::string::*;

verus! {

/// `needle` occurs in `hay` as a run of consecutive characters.
pub open spec fn is_substring(needle: Seq<char>, hay: Seq<char>) -> bool {
    exists|at: int|
        0 <= at && at + needle.len() <= hay.len() && #[trigger] hay.subrange(
            at,
            at + needle.len(),
        ) == needle
}

/// `str::contains` with a string pattern: true exactly when the pattern
/// occurs somewhere in `hay` as a run of consecutive characters. The empty
/// pattern occurs in every string.
#[verifier::external_body]
pub(crate) fn contains_text(hay: &str, needle: &str) -> (found: bool)
    ensures
        found == is_substring(needle@, hay@),
{
    hay.contains(needle)
}

/// The characters of `text`, or `fallback` where there is no text or it is
/// empty.
pub open spec fn text_or(text: Option<String>, fallback: Seq<char>) -> Seq<char> {
    match text {
        Some(t) => if t@.len() == 0 {
            fallback
        } else {
            t@
        },
        None => fallback,
    }
}

/// `needle` is how `hay` begins.
pub open spec fn is_prefix(needle: Seq<char>, hay: Seq<char>) -> bool {
    needle.len() <= hay.len() && hay.subrange(0, needle.len() as int) == needle
}

/// Tells whether `hay` begins with `needle`.
pub fn starts_with_text(hay: &str, needle: &str) -> (found: bool)
    ensures
        found == is_prefix(needle@, hay@),
{
    let m = needle.unicode_len();
    let n = hay.unicode_len();
    if m > n {
        false
    } else {
        text_eq(hay.substring_char(0, m), needle)
    }
}

/// Tells whether two string slices hold the same characters.
pub fn text_eq(a: &str, b: &str) -> (same: bool)
    ensures
        same == (a@ == b@),
{
    let left = a.to_owned();
    let right = b.to_owned();
    left == right
}

/// The character that writes the digit `d`.
pub open spec fn digit_char(d: nat) -> char {
    if d == 0 {
        '0'
    } else if d == 1 {
        '1'
    } else if d == 2 {
        '2'
    } else if d == 3 {
        '3'
    } else if d == 4 {
        '4'
    } else if d == 5 {
        '5'
    } else if d == 6 {
        '6'
    } else if d == 7 {
        '7'
    } else if d == 8 {
        '8'
    } else {
        '9'
    }
}

/// The decimal numeral of `n`, without sign or leading zeros.
pub open spec fn decimal(n: nat) -> Seq<char>
    decreases n,
{
    if n < 10 {
        seq![digit_char(n)]
    } else {
        decimal(n / 10).push(digit_char(n % 10))
    }
}

fn digit_text(d: u64) -> (text: &'static str)
    requires
        d < 10,
    ensures
        text@ == seq![digit_char(d as nat)],
{
    proof {
        reveal_strlit("0");
        reveal_strlit("1");
        reveal_strlit("2");
        reveal_strlit("3");
        reveal_strlit("4");
        reveal_strlit("5");
        reveal_strlit("6");
        reveal_strlit("7");
        reveal_strlit("8");
        reveal_strlit("9");
    }
    let text = if d == 0 {
        "0"
    } else if d == 1 {
        "1"
    } else if d == 2 {
        "2"
    } else if d == 3 {
        "3"
    } else if d == 4 {
        "4"
    } else if d == 5 {
        "5"
    } else if d == 6 {
        "6"
    } else if d == 7 {
        "7"
    } else if d == 8 {
        "8"
    } else {
        "9"
    };
    assert(text@ =~= seq![digit_char(d as nat)]);
    text
}

/// Writes `n` as a decimal numeral.
pub fn to_decimal(n: u64) -> (text: String)
    ensures
        text@ == decimal(n as nat),
{
    let mut rest: u64 = n;
    let mut tail: String = String::new();
    loop
        invariant_except_break
            decimal(n as nat) == decimal(rest as nat) + tail@,
        ensures
            tail@ == decimal(n as nat),
        decreases rest,
    {
        let d: u64 = rest % 10;
        let next: u64 = rest / 10;
        let ghost before = tail@;
        tail = digit_text(d).to_owned().concat(tail.as_str());
        assert(tail@ == seq![digit_char(d as nat)] + before);
        if next == 0 {
            assert(decimal(rest as nat) == seq![digit_char(d as nat)]);
            break ;
        }
        assert(decimal(rest as nat) == decimal(next as nat).push(digit_char(d as nat)));
        assert(decimal(next as nat).push(digit_char(d as nat)) + before =~= decimal(next as nat) + (
        seq![digit_char(d as nat)] + before));
        rest = next;
    }
    tail
}

} // verus!
