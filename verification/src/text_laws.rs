//! What holds of every text.

use vstd::prelude::*;

use crate::text::{
    decimal, dotted_prefix, is_white_space_char, last_dot, last_dot_is_last, signed_decimal, trim,
    trim_end, trim_start, underscored,
};

verus! {

/// Trimming takes off white space at both ends, all of it, and nothing else.
pub proof fn trimming_takes_off_white_space(s: Seq<char>) -> (bounds: (int, int))
    ensures
        0 <= bounds.0 <= bounds.1 <= s.len(),
        trim(s) == s.subrange(bounds.0, bounds.1),
        forall|i: int| 0 <= i < bounds.0 ==> is_white_space_char(#[trigger] s[i]),
        forall|i: int| bounds.1 <= i < s.len() ==> is_white_space_char(#[trigger] s[i]),
        trim(s).len() > 0 ==> !is_white_space_char(trim(s)[0]) && !is_white_space_char(
            trim(s)[trim(s).len() - 1],
        ),
        trim(s).len() == 0 ==> forall|i: int|
            0 <= i < s.len() ==> is_white_space_char(#[trigger] s[i]),
{
    let a = lemma_trim_start(s);
    let t = trim_start(s);
    let b = lemma_trim_end(t);
    assert(trim(s) == t.take(b));
    assert(t.take(b) =~= s.subrange(a, a + b));
    assert forall|i: int| a + b <= i < s.len() implies is_white_space_char(#[trigger] s[i]) by {
        assert(t[i - a] == s[i]);
    }
    if b > 0 {
        assert(trim(s)[0] == t[0]);
    } else {
        assert forall|i: int| 0 <= i < s.len() implies is_white_space_char(#[trigger] s[i]) by {
            if i >= a {
                assert(t[i - a] == s[i]);
            }
        }
    }
    (a, a + b)
}

proof fn lemma_trim_start(s: Seq<char>) -> (a: int)
    ensures
        0 <= a <= s.len(),
        trim_start(s) == s.skip(a),
        forall|i: int| 0 <= i < a ==> is_white_space_char(#[trigger] s[i]),
        a < s.len() ==> !is_white_space_char(s[a]),
    decreases s.len(),
{
    if s.len() > 0 && is_white_space_char(s.first()) {
        let rest = s.drop_first();
        let a = lemma_trim_start(rest);
        assert(rest.skip(a) =~= s.skip(a + 1));
        assert forall|i: int| 0 <= i < a + 1 implies is_white_space_char(#[trigger] s[i]) by {
            if i > 0 {
                assert(rest[i - 1] == s[i]);
            }
        }
        a + 1
    } else {
        assert(s.skip(0) =~= s);
        0
    }
}

proof fn lemma_trim_end(s: Seq<char>) -> (b: int)
    ensures
        0 <= b <= s.len(),
        trim_end(s) == s.take(b),
        forall|i: int| b <= i < s.len() ==> is_white_space_char(#[trigger] s[i]),
        b > 0 ==> !is_white_space_char(s[b - 1]),
    decreases s.len(),
{
    if s.len() > 0 && is_white_space_char(s.last()) {
        let rest = s.drop_last();
        let b = lemma_trim_end(rest);
        assert(rest.take(b) =~= s.take(b));
        assert forall|i: int| b <= i < s.len() implies is_white_space_char(#[trigger] s[i]) by {
            if i < s.len() - 1 {
                assert(rest[i] == s[i]);
            }
        }
        b
    } else {
        assert(s.take(s.len() as int) =~= s);
        s.len() as int
    }
}

/// The number that decimal digits write.
pub open spec fn written_number(digits: Seq<char>) -> int
    decreases digits.len(),
{
    if digits.len() == 0 {
        0
    } else {
        10 * written_number(digits.drop_last()) + (digits.last() as int - '0' as int)
    }
}

/// A number in decimal is made of digits, does not begin with a zero unless it
/// is zero, and the digits write that number.
pub proof fn decimals_write_their_number(n: nat)
    ensures
        decimal(n).len() > 0,
        forall|i: int| 0 <= i < decimal(n).len() ==> '0' <= #[trigger] decimal(n)[i] <= '9',
        decimal(n)[0] == '0' ==> n == 0 && decimal(n).len() == 1,
        written_number(decimal(n)) == n,
    decreases n,
{
    reveal_with_fuel(written_number, 3);
    if n >= 10 {
        decimals_write_their_number(n / 10);
        let head = decimal(n / 10);
        assert(decimal(n).drop_last() =~= head);
        assert(decimal(n)[0] == head[0]);
        assert forall|i: int| 0 <= i < decimal(n).len() implies '0' <= #[trigger] decimal(n)[i]
            <= '9' by {
            if i < head.len() {
                assert(decimal(n)[i] == head[i]);
            }
        }
    } else {
        assert(decimal(n).drop_last() =~= Seq::<char>::empty());
    }
}

/// A signed number in decimal is that of its magnitude, behind a minus sign
/// exactly when it is negative.
pub proof fn signs_stand_before_the_magnitude(n: int)
    ensures
        n >= 0 ==> signed_decimal(n) == decimal(n as nat),
        n < 0 ==> signed_decimal(n).len() > 1 && signed_decimal(n)[0] == '-'
            && signed_decimal(n).skip(1) == decimal((-n) as nat),
{
    if n < 0 {
        decimals_write_their_number((-n) as nat);
        assert(signed_decimal(n).skip(1) =~= decimal((-n) as nat));
    }
}

/// Only hyphens are replaced, each by an underscore, and nothing is added or
/// lost.
pub proof fn only_hyphens_are_replaced(s: Seq<char>)
    ensures
        underscored(s).len() == s.len(),
        forall|i: int|
            0 <= i < s.len() ==> #[trigger] underscored(s)[i] == if s[i] == '-' {
                '_'
            } else {
                s[i]
            },
{
}

/// What stands before the last full stop is found exactly where there is one,
/// and all of it.
pub proof fn dotted_prefixes_reach_to_the_last_full_stop(s: Seq<char>, k: int)
    ensures
        0 <= k < s.len() && s[k] == '.' && (forall|m: int| k < m < s.len() ==> s[m] != '.')
            ==> dotted_prefix(s) == Some(s.take(k)),
        (forall|m: int| 0 <= m < s.len() ==> s[m] != '.') ==> dotted_prefix(s) is None,
{
    last_dot_is_last(s);
    if 0 <= k < s.len() && s[k] == '.' && (forall|m: int| k < m < s.len() ==> s[m] != '.') {
        assert(last_dot(s) == k);
    }
}

} // verus!
