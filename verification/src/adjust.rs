//! Decoding of the boundary protocol's adjustment token: a single string of
//! the form `<operation>_<1-based index>` (`floor_3`, `ceil_1`). The decoder
//! names the operation as a tagged value and validates and rebases the index
//! to the engine's 0-based addressing.

use vstd::arithmetic::div_mod::{lemma_fundamental_div_mod, lemma_mod_bound};
use vstd::prelude::*;
use vstd::string::StrSliceExecFns;

use crate::errors::EngineError;
use crate::rebalance::Op;

verus! {

/// A decoded adjustment request: which operation, on which 0-based slot.
#[derive(Clone, Copy, Debug, PartialEq, Eq, Structural)]
pub struct Adjustment {
    pub op: Op,
    pub index: usize,
}

/// The character is a decimal digit.
pub open spec fn is_digit(c: char) -> bool {
    48 <= c as int <= 57
}

/// The numeric value of a digit character (unspecified off the digits).
pub open spec fn digit_val(c: char) -> int {
    c as int - 48
}

/// Every character of the sequence is a decimal digit.
pub open spec fn all_digits(s: Seq<char>) -> bool {
    forall|i: int| 0 <= i < s.len() ==> is_digit(#[trigger] s[i])
}

/// The number written in decimal by the sequence (0 for the empty one).
pub open spec fn dec_val(s: Seq<char>) -> int
    decreases s.len(),
{
    if s.len() == 0 {
        0
    } else {
        dec_val(s.drop_last()) * 10 + digit_val(s.last())
    }
}

/// The token opens with the floor operation's name and its separator.
pub open spec fn floor_token(t: Seq<char>) -> bool {
    t.len() >= 6 && t.subrange(0, 6) == "floor_"@
}

/// The token opens with the ceil operation's name and its separator.
pub open spec fn ceil_token(t: Seq<char>) -> bool {
    t.len() >= 5 && t.subrange(0, 5) == "ceil_"@
}

/// What follows the operation's name and separator in the token.
pub open spec fn spec_digits(t: Seq<char>) -> Seq<char> {
    if floor_token(t) {
        t.skip(6)
    } else {
        t.skip(5)
    }
}

/// The digit part denotes a usable 1-based index: all digits, at least 1,
/// and small enough for the machine's indices.
pub open spec fn valid_index(s: Seq<char>) -> bool {
    all_digits(s) && 1 <= dec_val(s) <= usize::MAX
}

proof fn lemma_floor_token_chars(t: Seq<char>)
    requires
        floor_token(t),
    ensures
        t.len() >= 6,
        t[0] == 'f',
        t[1] == 'l',
        t[2] == 'o',
        t[3] == 'o',
        t[4] == 'r',
        t[5] == '_',
{
    reveal_strlit("floor_");
    assert(t.subrange(0, 6)[0] == t[0]);
    assert(t.subrange(0, 6)[1] == t[1]);
    assert(t.subrange(0, 6)[2] == t[2]);
    assert(t.subrange(0, 6)[3] == t[3]);
    assert(t.subrange(0, 6)[4] == t[4]);
    assert(t.subrange(0, 6)[5] == t[5]);
}

proof fn lemma_ceil_token_chars(t: Seq<char>)
    requires
        ceil_token(t),
    ensures
        t.len() >= 5,
        t[0] == 'c',
        t[1] == 'e',
        t[2] == 'i',
        t[3] == 'l',
        t[4] == '_',
{
    reveal_strlit("ceil_");
    assert(t.subrange(0, 5)[0] == t[0]);
    assert(t.subrange(0, 5)[1] == t[1]);
    assert(t.subrange(0, 5)[2] == t[2]);
    assert(t.subrange(0, 5)[3] == t[3]);
    assert(t.subrange(0, 5)[4] == t[4]);
}

proof fn lemma_dec_val_nonneg(s: Seq<char>)
    requires
        all_digits(s),
    ensures
        dec_val(s) >= 0,
    decreases s.len(),
{
    if s.len() > 0 {
        assert(all_digits(s.drop_last())) by {
            assert(forall|i: int|
                0 <= i < s.len() - 1 ==> #[trigger] s.drop_last()[i] == s[i]);
        }
        lemma_dec_val_nonneg(s.drop_last());
    }
}

proof fn lemma_dec_val_take_step(s: Seq<char>, j: int)
    requires
        0 <= j < s.len(),
    ensures
        dec_val(s.take(j + 1)) == dec_val(s.take(j)) * 10 + digit_val(s[j]),
{
    assert(s.take(j + 1).drop_last() =~= s.take(j));
    assert(s.take(j + 1).last() == s[j]);
}

proof fn lemma_dec_val_monotone(s: Seq<char>, j: int)
    requires
        all_digits(s),
        0 <= j <= s.len(),
    ensures
        dec_val(s.take(j)) <= dec_val(s),
    decreases s.len() - j,
{
    if j == s.len() {
        assert(s.take(j) =~= s);
    } else {
        lemma_dec_val_take_step(s, j);
        assert(all_digits(s.take(j))) by {
            assert(forall|i: int| 0 <= i < j ==> #[trigger] s.take(j)[i] == s[i]);
        }
        lemma_dec_val_nonneg(s.take(j));
        lemma_dec_val_monotone(s, j + 1);
    }
}

/// Splits an adjustment token into its operation and 0-based slot index.
/// A token that does not open with a known operation's name is the caller's
/// protocol error (`UnknownOperation`); one whose tail is not a positive
/// decimal index the machine can address is `InvalidIndex`.
pub fn parse_adjustment(token: &str) -> (r: Result<Adjustment, EngineError>)
    ensures
        r is Ok <==> (floor_token(token@) || ceil_token(token@)) && valid_index(
            spec_digits(token@),
        ),
        r matches Ok(a) ==> a.op == (if floor_token(token@) {
            Op::Floor
        } else {
            Op::Ceil
        }),
        r matches Ok(a) ==> a.index + 1 == dec_val(spec_digits(token@)),
        r matches Err(e) ==> e == (if floor_token(token@) || ceil_token(token@) {
            EngineError::InvalidIndex
        } else {
            EngineError::UnknownOperation
        }),
{
    let ghost t = token@;
    let len = token.unicode_len();
    let is_floor = len >= 6 && token.get_char(0) == 'f' && token.get_char(1) == 'l'
        && token.get_char(2) == 'o' && token.get_char(3) == 'o' && token.get_char(4) == 'r'
        && token.get_char(5) == '_';
    proof {
        if is_floor {
            reveal_strlit("floor_");
            assert(t.subrange(0, 6)[0] == t[0]);
            assert(t.subrange(0, 6)[1] == t[1]);
            assert(t.subrange(0, 6)[2] == t[2]);
            assert(t.subrange(0, 6)[3] == t[3]);
            assert(t.subrange(0, 6)[4] == t[4]);
            assert(t.subrange(0, 6)[5] == t[5]);
            assert(t.subrange(0, 6) =~= "floor_"@);
        } else {
            if floor_token(t) {
                lemma_floor_token_chars(t);
            }
        }
        assert(is_floor == floor_token(t));
    }
    let is_ceil = !is_floor && len >= 5 && token.get_char(0) == 'c' && token.get_char(1) == 'e'
        && token.get_char(2) == 'i' && token.get_char(3) == 'l' && token.get_char(4) == '_';
    proof {
        if is_ceil {
            reveal_strlit("ceil_");
            assert(t.subrange(0, 5)[0] == t[0]);
            assert(t.subrange(0, 5)[1] == t[1]);
            assert(t.subrange(0, 5)[2] == t[2]);
            assert(t.subrange(0, 5)[3] == t[3]);
            assert(t.subrange(0, 5)[4] == t[4]);
            assert(t.subrange(0, 5) =~= "ceil_"@);
        } else {
            if !is_floor && ceil_token(t) {
                lemma_ceil_token_chars(t);
            }
        }
        assert(is_floor || (is_ceil == ceil_token(t)));
    }
    if !is_floor && !is_ceil {
        return Err(EngineError::UnknownOperation);
    }
    let op = if is_floor {
        Op::Floor
    } else {
        Op::Ceil
    };
    let p: usize = if is_floor {
        6
    } else {
        5
    };
    let ghost s = spec_digits(t);
    proof {
        assert(s =~= t.skip(p as int));
    }
    let mut acc: usize = 0;
    let mut i: usize = p;
    while i < len
        invariant
            p <= i <= len,
            len == t.len(),
            t == token@,
            p == 5 || p == 6,
            floor_token(t) || ceil_token(t),
            is_floor == floor_token(t),
            op == (if floor_token(t) {
                Op::Floor
            } else {
                Op::Ceil
            }),
            p == (if floor_token(t) {
                6int
            } else {
                5int
            }),
            s == spec_digits(t),
            s.len() == len - p,
            forall|k: int| 0 <= k < s.len() ==> s[k] == t[p + k],
            all_digits(s.take(i - p)),
            acc == dec_val(s.take(i - p)),
        decreases len - i,
    {
        let c = token.get_char(i);
        let cv = c as u32;
        let ghost k = i - p;
        if cv < 48 || cv > 57 {
            proof {
                assert(!is_digit(s[k]));
                assert(!all_digits(s));
            }
            return Err(EngineError::InvalidIndex);
        }
        let d = (cv - 48) as usize;
        proof {
            assert(d == digit_val(s[k]));
            lemma_dec_val_take_step(s, k);
            lemma_fundamental_div_mod((usize::MAX - d) as int, 10);
            lemma_mod_bound((usize::MAX - d) as int, 10);
        }
        if acc > (usize::MAX - d) / 10 {
            proof {
                assert(dec_val(s.take(k + 1)) > usize::MAX);
                if all_digits(s) {
                    lemma_dec_val_monotone(s, k + 1);
                }
                assert(!valid_index(s));
            }
            return Err(EngineError::InvalidIndex);
        }
        acc = acc * 10 + d;
        proof {
            assert(s.take(k + 1).take(k) =~= s.take(k));
            assert(all_digits(s.take(k + 1))) by {
                assert(forall|j: int| 0 <= j < k + 1 ==> #[trigger] s.take(k + 1)[j] == s[j]);
                assert(forall|j: int| 0 <= j < k ==> #[trigger] s.take(k)[j] == s[j]);
            }
        }
        i = i + 1;
    }
    proof {
        assert(s.take(len - p) =~= s);
    }
    if acc == 0 {
        return Err(EngineError::InvalidIndex);
    }
    Ok(Adjustment { op, index: acc - 1 })
}

} // verus!
