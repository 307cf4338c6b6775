//! Deriving an episode prefix for the sort key from a source filename stem.
//!
//! The stem is scanned for a trailing group that starts with a digit and
//! continues to the end of the stem with at least one more digit, dash,
//! underscore or dot (the leftmost such start wins). Dashes and underscores
//! in the group are normalized to dots and a single space is appended, so
//! the result can stand directly in front of a timestamp. A stem without
//! such a trailing group yields the empty string.

use vstd::prelude::*;
use vstd::string::*;

verus! {

pub open spec fn is_digit_char(c: char) -> bool {
    c == '0' || c == '1' || c == '2' || c == '3' || c == '4' || c == '5' || c == '6' || c == '7'
        || c == '8' || c == '9'
}

/// Characters that may continue a trailing episode group.
pub open spec fn is_group_char(c: char) -> bool {
    is_digit_char(c) || c == '-' || c == '_' || c == '.'
}

/// A trailing episode group starts at `i`: the character there is a digit,
/// at least one character follows, and everything from `i` to the end of
/// the stem is a digit, dash, underscore or dot.
pub open spec fn group_starts_at(s: Seq<char>, i: int) -> bool {
    &&& 0 <= i
    &&& i + 1 < s.len()
    &&& is_digit_char(s[i])
    &&& forall|j: int| i < j < s.len() ==> is_group_char(#[trigger] s[j])
}

pub open spec fn has_episode_group(s: Seq<char>) -> bool {
    exists|i: int| group_starts_at(s, i)
}

/// Dashes and underscores become dots; all other characters stay.
pub open spec fn normalize_char(c: char) -> char {
    if c == '-' || c == '_' {
        '.'
    } else {
        c
    }
}

pub open spec fn normalized_group(s: Seq<char>) -> Seq<char> {
    s.map_values(|c: char| normalize_char(c))
}

fn is_group_char_x(c: char) -> (b: bool)
    ensures
        b == is_group_char(c),
{
    match c {
        '0' | '1' | '2' | '3' | '4' | '5' | '6' | '7' | '8' | '9' | '-' | '_' | '.' => true,
        _ => false,
    }
}

fn is_digit_char_x(c: char) -> (b: bool)
    ensures
        b == is_digit_char(c),
{
    match c {
        '0' | '1' | '2' | '3' | '4' | '5' | '6' | '7' | '8' | '9' => true,
        _ => false,
    }
}

/// The one-character string for a normalized episode-group character.
fn normalized_char_str(c: char) -> (r: &'static str)
    requires
        is_group_char(c),
    ensures
        r@ == seq![normalize_char(c)],
{
    let r: &'static str = match c {
        '-' | '_' | '.' => ".",
        '0' => "0",
        '1' => "1",
        '2' => "2",
        '3' => "3",
        '4' => "4",
        '5' => "5",
        '6' => "6",
        '7' => "7",
        '8' => "8",
        _ => "9",
    };
    proof {
        reveal_strlit(".");
        reveal_strlit("0");
        reveal_strlit("1");
        reveal_strlit("2");
        reveal_strlit("3");
        reveal_strlit("4");
        reveal_strlit("5");
        reveal_strlit("6");
        reveal_strlit("7");
        reveal_strlit("8");
        reveal_strlit("9");
        assert(r@ =~= seq![normalize_char(c)]);
    }
    r
}

/// Guesses an episode/volume prefix for the sort key from a filename stem.
///
/// When the stem ends in an episode group, the result is that group — from
/// its leftmost possible start — with dashes and underscores normalized to
/// dots and one trailing space appended; otherwise it is the empty string.
pub fn episode_prefix(file_stem: &str) -> (r: String)
    ensures
        !has_episode_group(file_stem@) ==> r@ == Seq::<char>::empty(),
        has_episode_group(file_stem@) ==> exists|i: int|
            {
                &&& #[trigger] group_starts_at(file_stem@, i)
                &&& forall|k: int| 0 <= k < i ==> !group_starts_at(file_stem@, k)
                &&& r@ == normalized_group(
                    file_stem@.subrange(i, file_stem@.len() as int),
                ).push(' ')
            },
{
    let ghost s = file_stem@;
    let n = file_stem.unicode_len();

    // Find the start of the maximal trailing run of group characters.
    let mut b = n;
    while b > 0 && is_group_char_x(file_stem.get_char(b - 1))
        invariant
            b <= n,
            n == s.len(),
            s == file_stem@,
            forall|j: int| b <= j < n ==> is_group_char(#[trigger] s[j]),
        decreases b,
    {
        b = b - 1;
    }

    // Find the first digit inside that run.
    let mut i = b;
    while i < n && !is_digit_char_x(file_stem.get_char(i))
        invariant
            b <= i <= n,
            n == s.len(),
            s == file_stem@,
            forall|j: int| b <= j < i ==> !is_digit_char(#[trigger] s[j]),
        decreases n - i,
    {
        i = i + 1;
    }

    proof {
        // No group can start strictly before the trailing run.
        assert forall|k: int| 0 <= k < b implies !group_starts_at(s, k) by {
            assert(b > 0);
            assert(!is_group_char(s[b - 1]));
            if k < b - 1 {
                assert(!is_group_char(s[b - 1]));
            } else {
                assert(!is_digit_char(s[k]));
            }
        }
        // And none can start inside the run before the first digit.
        assert forall|k: int| b <= k < i implies !group_starts_at(s, k) by {
            assert(!is_digit_char(s[k]));
        }
    }

    if i < n && i + 1 < n {
        let mut out = String::new();
        let mut j = i;
        while j < n
            invariant
                b <= i <= j <= n,
                n == s.len(),
                s == file_stem@,
                is_digit_char(s[i as int]),
                forall|p: int| b <= p < n ==> is_group_char(#[trigger] s[p]),
                out@ == normalized_group(s.subrange(i as int, j as int)),
            decreases n - j,
        {
            let c = file_stem.get_char(j);
            out.append(normalized_char_str(c));
            proof {
                assert(s.subrange(i as int, j + 1) =~= s.subrange(i as int, j as int).push(
                    s[j as int],
                ));
                assert(normalized_group(s.subrange(i as int, j + 1)) =~= normalized_group(
                    s.subrange(i as int, j as int),
                ).push(normalize_char(s[j as int])));
            }
            j = j + 1;
        }
        out.append(" ");
        proof {
            reveal_strlit(" ");
            assert(" "@ =~= seq![' ']);
            assert(out@ =~= normalized_group(s.subrange(i as int, s.len() as int)).push(' '));
            assert(group_starts_at(s, i as int));
        }
        out
    } else {
        proof {
            assert forall|k: int| !group_starts_at(s, k) by {
                if 0 <= k < b {
                } else if b <= k < i {
                } else if i <= k < n {
                    // Either there is no digit in the run, or the first one
                    // sits on the last character, where no group may start.
                    assert(k + 1 >= n);
                }
            }
            assert(!has_episode_group(s));
        }
        String::new()
    }
}

} // verus!
