//! Fixed-width `HH:MM:SS.mmm` timestamps, used as the time part of a row's
//! sort key.

use vstd::prelude::*;
use vstd::arithmetic::div_mod::{
    lemma_div_denominator,
    lemma_div_is_ordered,
    lemma_fundamental_div_mod,
};
use crate::time_range::MAX_TIME_MS;

verus! {

/// The decimal digit character for `d`, for `0 <= d < 10`.
pub open spec fn digit_char(d: int) -> char
    recommends
        0 <= d < 10,
{
    if d == 0 {
        '0'
    } else if d == 1 {
        '1'
    } else if d == 2 {
        '2'
    } else if d == 3 {
        '3'
    } else if d == 4 {
        '4'
    } else if d == 5 {
        '5'
    } else if d == 6 {
        '6'
    } else if d == 7 {
        '7'
    } else if d == 8 {
        '8'
    } else {
        '9'
    }
}

/// `v` written with exactly two decimal digits, for `0 <= v < 100`.
pub open spec fn two_digits(v: int) -> Seq<char>
    recommends
        0 <= v < 100,
{
    seq![digit_char(v / 10), digit_char(v % 10)]
}

/// `v` written with exactly three decimal digits, for `0 <= v < 1000`.
pub open spec fn three_digits(v: int) -> Seq<char>
    recommends
        0 <= v < 1000,
{
    seq![digit_char(v / 100), digit_char(v / 10 % 10), digit_char(v % 10)]
}

/// The instant `ms` (milliseconds) written as `HH:MM:SS.mmm`, zero padded.
/// For instants below [`MAX_TIME_MS`] the result always has 12 characters.
pub open spec fn timestamp_chars(ms: int) -> Seq<char>
    recommends
        0 <= ms < MAX_TIME_MS,
{
    let total_secs = ms / 1000;
    let total_mins = total_secs / 60;
    two_digits(total_mins / 60) + seq![':'] + two_digits(total_mins % 60) + seq![':']
        + two_digits(total_secs % 60) + seq!['.'] + three_digits(ms % 1000)
}

/// The single-character string for the decimal digit `d`.
fn digit_str(d: u64) -> (r: &'static str)
    requires
        d < 10,
    ensures
        r@ == seq![digit_char(d as int)],
{
    let r: &'static str = match d {
        0 => "0",
        1 => "1",
        2 => "2",
        3 => "3",
        4 => "4",
        5 => "5",
        6 => "6",
        7 => "7",
        8 => "8",
        _ => "9",
    };
    proof {
        reveal_strlit("0");
        reveal_strlit("1");
        reveal_strlit("2");
        reveal_strlit("3");
        reveal_strlit("4");
        reveal_strlit("5");
        reveal_strlit("6");
        reveal_strlit("7");
        reveal_strlit("8");
        reveal_strlit("9");
        assert(r@ =~= seq![digit_char(d as int)]);
    }
    r
}

/// Appends `v` to `out` as exactly two decimal digits.
fn append_two_digits(out: &mut String, v: u64)
    requires
        v < 100,
    ensures
        final(out)@ == old(out)@ + two_digits(v as int),
{
    out.append(digit_str(v / 10));
    out.append(digit_str(v % 10));
    proof {
        assert(final(out)@ =~= old(out)@ + two_digits(v as int));
    }
}

/// Appends `v` to `out` as exactly three decimal digits.
fn append_three_digits(out: &mut String, v: u64)
    requires
        v < 1000,
    ensures
        final(out)@ == old(out)@ + three_digits(v as int),
{
    out.append(digit_str(v / 100));
    out.append(digit_str(v / 10 % 10));
    out.append(digit_str(v % 10));
    proof {
        assert(final(out)@ =~= old(out)@ + three_digits(v as int));
    }
}

/// Lexicographic order on character sequences, comparing characters by
/// their code points — the order in which encoded rows sort as text.
pub open spec fn lex_le(a: Seq<char>, b: Seq<char>) -> bool
    decreases a.len(),
{
    if a.len() == 0 {
        true
    } else if b.len() == 0 {
        false
    } else if a[0] == b[0] {
        lex_le(a.drop_first(), b.drop_first())
    } else {
        (a[0] as u32) < (b[0] as u32)
    }
}

pub proof fn lemma_lex_le_refl(a: Seq<char>)
    ensures
        lex_le(a, a),
    decreases a.len(),
{
    if a.len() > 0 {
        lemma_lex_le_refl(a.drop_first());
    }
}

/// Equal-length sequences that agree before `k` and step up at `k` are
/// lexicographically ordered.
pub proof fn lemma_lex_le_from_diff(a: Seq<char>, b: Seq<char>, k: int)
    requires
        a.len() == b.len(),
        0 <= k < a.len(),
        forall|j: int| 0 <= j < k ==> a[j] == b[j],
        (a[k] as u32) < (b[k] as u32),
    ensures
        lex_le(a, b),
    decreases k,
{
    if k == 0 {
        assert(a[0] != b[0]);
    } else {
        assert(a[0] == b[0]);
        lemma_lex_le_from_diff(a.drop_first(), b.drop_first(), k - 1);
    }
}

/// A common prefix neither makes nor breaks the order of what follows.
pub proof fn lemma_lex_le_prepend(p: Seq<char>, a: Seq<char>, b: Seq<char>)
    requires
        lex_le(a, b),
    ensures
        lex_le(p + a, p + b),
    decreases p.len(),
{
    if p.len() == 0 {
        assert(p + a =~= a);
        assert(p + b =~= b);
    } else {
        assert((p + a)[0] == p[0]);
        assert((p + b)[0] == p[0]);
        assert((p + a).drop_first() =~= p.drop_first() + a);
        assert((p + b).drop_first() =~= p.drop_first() + b);
        lemma_lex_le_prepend(p.drop_first(), a, b);
    }
}

/// The timestamp written out, one character per index.
spec fn timestamp_flat(ms: int) -> Seq<char> {
    let total_secs = ms / 1000;
    let total_mins = total_secs / 60;
    let hours = total_mins / 60;
    let mins = total_mins % 60;
    let secs = total_secs % 60;
    let frac = ms % 1000;
    seq![
        digit_char(hours / 10),
        digit_char(hours % 10),
        ':',
        digit_char(mins / 10),
        digit_char(mins % 10),
        ':',
        digit_char(secs / 10),
        digit_char(secs % 10),
        '.',
        digit_char(frac / 100),
        digit_char(frac / 10 % 10),
        digit_char(frac % 10),
    ]
}

proof fn lemma_timestamp_flat(ms: int)
    ensures
        timestamp_chars(ms) == timestamp_flat(ms),
{
    assert(timestamp_chars(ms) =~= timestamp_flat(ms));
}

/// Larger digits have larger code points.
proof fn lemma_digit_char_ord(x: int, y: int)
    requires
        0 <= x < 10,
        0 <= y < 10,
        x < y,
    ensures
        (digit_char(x) as u32) < (digit_char(y) as u32),
{
}

/// Timestamps order like the instants they format: for instants below
/// [`MAX_TIME_MS`] the fixed-width, zero-padded form is monotone under the
/// lexicographic order.
pub proof fn lemma_timestamp_le(t1: int, t2: int)
    requires
        0 <= t1 <= t2 < MAX_TIME_MS,
    ensures
        lex_le(timestamp_chars(t1), timestamp_chars(t2)),
{
    lemma_timestamp_flat(t1);
    lemma_timestamp_flat(t2);
    let a = timestamp_flat(t1);
    let b = timestamp_flat(t2);
    if t1 == t2 {
        lemma_lex_le_refl(a);
    } else {
        let q1 = t1 / 1000;
        let f1 = t1 % 1000;
        let q2 = t2 / 1000;
        let f2 = t2 % 1000;
        let tm1 = q1 / 60;
        let s1 = q1 % 60;
        let tm2 = q2 / 60;
        let s2 = q2 % 60;
        let h1 = tm1 / 60;
        let m1 = tm1 % 60;
        let h2 = tm2 / 60;
        let m2 = tm2 % 60;
        lemma_fundamental_div_mod(t1, 1000);
        lemma_fundamental_div_mod(t2, 1000);
        lemma_fundamental_div_mod(q1, 60);
        lemma_fundamental_div_mod(q2, 60);
        lemma_fundamental_div_mod(tm1, 60);
        lemma_fundamental_div_mod(tm2, 60);
        lemma_div_is_ordered(t1, t2, 1000);
        lemma_div_is_ordered(q1, q2, 60);
        lemma_div_is_ordered(tm1, tm2, 60);
        assert(0 <= f1 < 1000 && 0 <= f2 < 1000);
        assert(0 <= s1 < 60 && 0 <= s2 < 60);
        assert(0 <= m1 < 60 && 0 <= m2 < 60);
        assert(0 <= h1 && h2 < 100);
        if h1 != h2 {
            assert(h1 < h2);
            lemma_fundamental_div_mod(h1, 10);
            lemma_fundamental_div_mod(h2, 10);
            lemma_div_is_ordered(h1, h2, 10);
            if h1 / 10 != h2 / 10 {
                lemma_digit_char_ord(h1 / 10, h2 / 10);
                lemma_lex_le_from_diff(a, b, 0);
            } else {
                lemma_digit_char_ord(h1 % 10, h2 % 10);
                lemma_lex_le_from_diff(a, b, 1);
            }
        } else if m1 != m2 {
            assert(m1 < m2);
            lemma_fundamental_div_mod(m1, 10);
            lemma_fundamental_div_mod(m2, 10);
            lemma_div_is_ordered(m1, m2, 10);
            if m1 / 10 != m2 / 10 {
                lemma_digit_char_ord(m1 / 10, m2 / 10);
                lemma_lex_le_from_diff(a, b, 3);
            } else {
                lemma_digit_char_ord(m1 % 10, m2 % 10);
                lemma_lex_le_from_diff(a, b, 4);
            }
        } else if s1 != s2 {
            assert(s1 < s2);
            lemma_fundamental_div_mod(s1, 10);
            lemma_fundamental_div_mod(s2, 10);
            lemma_div_is_ordered(s1, s2, 10);
            if s1 / 10 != s2 / 10 {
                lemma_digit_char_ord(s1 / 10, s2 / 10);
                lemma_lex_le_from_diff(a, b, 6);
            } else {
                lemma_digit_char_ord(s1 % 10, s2 % 10);
                lemma_lex_le_from_diff(a, b, 7);
            }
        } else {
            assert(f1 < f2);
            let g1 = f1 / 10;
            let g2 = f2 / 10;
            lemma_fundamental_div_mod(f1, 10);
            lemma_fundamental_div_mod(f2, 10);
            lemma_fundamental_div_mod(g1, 10);
            lemma_fundamental_div_mod(g2, 10);
            lemma_div_is_ordered(f1, f2, 10);
            lemma_div_is_ordered(g1, g2, 10);
            lemma_div_denominator(f1, 10, 10);
            lemma_div_denominator(f2, 10, 10);
            assert(g1 / 10 == f1 / 100);
            assert(g2 / 10 == f2 / 100);
            if f1 / 100 != f2 / 100 {
                lemma_digit_char_ord(f1 / 100, f2 / 100);
                lemma_lex_le_from_diff(a, b, 9);
            } else if g1 % 10 != g2 % 10 {
                lemma_digit_char_ord(g1 % 10, g2 % 10);
                lemma_lex_le_from_diff(a, b, 10);
            } else {
                assert(f1 % 10 < f2 % 10);
                lemma_digit_char_ord(f1 % 10, f2 % 10);
                lemma_lex_le_from_diff(a, b, 11);
            }
        }
    }
}

/// Formats the instant `ms` (milliseconds) as a zero-padded, fixed-width
/// `HH:MM:SS.mmm` string.
pub fn format_timestamp(ms: u64) -> (r: String)
    requires
        ms < MAX_TIME_MS,
    ensures
        r@ == timestamp_chars(ms as int),
        r@.len() == 12,
{
    let total_secs = ms / 1000;
    let total_mins = total_secs / 60;
    let hours = total_mins / 60;
    assert(hours < 100);
    let mut r = String::new();
    append_two_digits(&mut r, hours);
    r.append(":");
    append_two_digits(&mut r, total_mins % 60);
    r.append(":");
    append_two_digits(&mut r, total_secs % 60);
    r.append(".");
    append_three_digits(&mut r, ms % 1000);
    proof {
        reveal_strlit(":");
        reveal_strlit(".");
        assert(":"@ =~= seq![':']);
        assert("."@ =~= seq!['.']);
        assert(r@ =~= timestamp_chars(ms as int));
    }
    r
}

} // verus!
