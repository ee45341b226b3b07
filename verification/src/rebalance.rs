//! The rebalancer: a pure transition on a weight set. One targeted slot
//! absorbs the deficit below 100 (`Ceil`) or sheds the surplus above 100
//! (`Floor`, clamped at zero); every other slot is untouched. Eligibility
//! flags are derived from the current total on every read and are advisory
//! only: `rebalance` never consults them.

use vstd::prelude::*;

use crate::errors::EngineError;

verus! {

/// The two rebalancing operations a caller can request for one slot.
#[derive(Clone, Copy, Debug, PartialEq, Eq, Structural)]
pub enum Op {
    /// Shed the surplus above 100 from the targeted slot, clamped at zero.
    Floor,
    /// Absorb the deficit below 100 into the targeted slot, unclamped.
    Ceil,
}

/// The sum of a weight sequence, as a mathematical integer.
pub open spec fn total_of(s: Seq<i32>) -> int
    decreases s.len(),
{
    if s.len() == 0 {
        0
    } else {
        total_of(s.drop_last()) + s.last()
    }
}

/// The value the targeted slot takes under `Floor`: it gives up exactly the
/// surplus over 100, saturating at zero.
pub open spec fn floored(w: int, total: int) -> int {
    if w - (total - 100) < 0 {
        0
    } else {
        w - (total - 100)
    }
}

/// The value the targeted slot takes under `Ceil`: it absorbs exactly the
/// deficit below 100. No clamp: a total already above 100 pushes the slot
/// down, possibly below zero.
pub open spec fn ceiled(w: int, total: int) -> int {
    w + (100 - total)
}

/// The value the targeted slot takes under `op`.
pub open spec fn adjusted(w: int, total: int, op: Op) -> int {
    match op {
        Op::Floor => floored(w, total),
        Op::Ceil => ceiled(w, total),
    }
}

/// How a weight set `after` relates to `before` when one `rebalance` call
/// targeted `index` with `op`: the targeted slot took the adjusted value and
/// every other slot is unchanged.
pub open spec fn rebalance_rel(before: Seq<i32>, after: Seq<i32>, index: int, op: Op) -> bool {
    &&& 0 <= index < before.len()
    &&& after.len() == before.len()
    &&& after[index] == adjusted(before[index] as int, total_of(before), op)
    &&& forall|j: int| 0 <= j < before.len() && j != index ==> after[j] == before[j]
}

/// A slot may shed surplus only while the total exceeds 100 and the slot
/// itself holds a positive amount.
pub open spec fn spec_can_floor(w: int, total: int) -> bool {
    total > 100 && w > 0
}

/// A slot may absorb deficit whenever the total is short of 100, regardless
/// of its own value.
pub open spec fn spec_can_ceil(total: int) -> bool {
    total < 100
}

/// The advisory eligibility flags of one slot, derived from the weight set.
#[derive(Clone, Copy, Debug, PartialEq, Eq, Structural)]
pub struct SlotFlags {
    pub can_floor: bool,
    pub can_ceil: bool,
}

pub(crate) proof fn lemma_total_bound(s: Seq<i32>)
    ensures
        -(s.len() * 0x8000_0000) <= total_of(s) <= s.len() * 0x8000_0000,
    decreases s.len(),
{
    if s.len() > 0 {
        lemma_total_bound(s.drop_last());
    }
}

pub(crate) proof fn lemma_total_take_step(s: Seq<i32>, i: int)
    requires
        0 <= i < s.len(),
    ensures
        total_of(s.take(i + 1)) == total_of(s.take(i)) + s[i],
{
    assert(s.take(i + 1).drop_last() =~= s.take(i));
    assert(s.take(i + 1).last() == s[i]);
}

/// The totals of two weight sets that agree everywhere but at `index` differ
/// by exactly the change at `index`.
proof fn lemma_total_single_change(before: Seq<i32>, after: Seq<i32>, index: int)
    requires
        0 <= index < before.len(),
        after.len() == before.len(),
        forall|j: int| 0 <= j < before.len() && j != index ==> after[j] == before[j],
    ensures
        total_of(after) == total_of(before) - before[index] + after[index],
    decreases before.len(),
{
    if index == before.len() - 1 {
        assert(after.drop_last() =~= before.drop_last());
    } else {
        lemma_total_single_change(before.drop_last(), after.drop_last(), index);
    }
}

/// The sum of the weights. The weight set's length is bounded so that no
/// partial sum can leave `i64`.
pub fn total(weights: &Vec<i32>) -> (t: i64)
    requires
        weights@.len() <= 0xffff_ffff,
    ensures
        t == total_of(weights@),
{
    let n = weights.len();
    let mut t: i64 = 0;
    let mut i: usize = 0;
    while i < n
        invariant
            i <= n,
            n == weights@.len() <= 0xffff_ffff,
            t == total_of(weights@.take(i as int)),
        decreases n - i,
    {
        proof {
            lemma_total_take_step(weights@, i as int);
            lemma_total_bound(weights@.take(i as int));
        }
        t = t + weights[i] as i64;
        i = i + 1;
    }
    proof {
        assert(weights@.take(n as int) =~= weights@);
    }
    t
}

/// One rebalancing step: the slot at `index` takes the adjusted value, all
/// other slots are kept. An out-of-range index is a caller error, reported
/// as `InvalidIndex`; the operation itself is never gated on the flags.
pub fn rebalance(weights: &Vec<i32>, index: usize, op: Op) -> (r: Result<Vec<i32>, EngineError>)
    requires
        weights@.len() <= 0xffff_ffff,
        index < weights@.len() ==> i32::MIN <= adjusted(
            weights@[index as int] as int,
            total_of(weights@),
            op,
        ) <= i32::MAX,
    ensures
        r is Ok <==> index < weights@.len(),
        r is Err ==> r->Err_0 == EngineError::InvalidIndex,
        r is Ok ==> rebalance_rel(weights@, r->Ok_0@, index as int, op),
{
    let n = weights.len();
    if index >= n {
        return Err(EngineError::InvalidIndex);
    }
    let t = total(weights);
    let w = weights[index];
    let wide: i128 = match op {
        Op::Floor => {
            let v: i128 = w as i128 - (t as i128 - 100);
            if v < 0 {
                0
            } else {
                v
            }
        },
        Op::Ceil => w as i128 + (100 - t as i128),
    };
    let new_value: i32 = wide as i32;
    let mut out: Vec<i32> = Vec::new();
    let mut j: usize = 0;
    while j < n
        invariant
            j <= n,
            n == weights@.len(),
            index < n,
            out@.len() == j,
            out@[index as int] == new_value || j <= index,
            forall|k: int| 0 <= k < j && k != index ==> out@[k] == weights@[k],
            new_value == adjusted(weights@[index as int] as int, total_of(weights@), op),
        decreases n - j,
    {
        if j == index {
            out.push(new_value);
        } else {
            out.push(weights[j]);
        }
        j = j + 1;
    }
    Ok(out)
}

/// The advisory flags of every slot, each derived from the current total and
/// the slot's own value.
pub fn flags(weights: &Vec<i32>) -> (r: Vec<SlotFlags>)
    requires
        weights@.len() <= 0xffff_ffff,
    ensures
        r@.len() == weights@.len(),
        forall|i: int|
            0 <= i < r@.len() ==> r@[i] == (SlotFlags {
                can_floor: spec_can_floor(weights@[i] as int, total_of(weights@)),
                can_ceil: spec_can_ceil(total_of(weights@)),
            }),
{
    let n = weights.len();
    let t = total(weights);
    let mut r: Vec<SlotFlags> = Vec::new();
    let mut i: usize = 0;
    while i < n
        invariant
            i <= n,
            n == weights@.len(),
            t == total_of(weights@),
            r@.len() == i,
            forall|k: int|
                0 <= k < i ==> r@[k] == (SlotFlags {
                    can_floor: spec_can_floor(weights@[k] as int, total_of(weights@)),
                    can_ceil: spec_can_ceil(total_of(weights@)),
                }),
        decreases n - i,
    {
        r.push(SlotFlags { can_floor: t > 100 && weights[i] > 0, can_ceil: t < 100 });
        i = i + 1;
    }
    r
}

/// The default even split: every one of the `n` slots gets `100 / n`
/// (truncating division; 20 for the reference count of five).
pub fn default_weights(n: usize) -> (r: Vec<i32>)
    requires
        1 <= n,
    ensures
        r@.len() == n,
        forall|i: int| 0 <= i < n ==> r@[i] == 100int / n as int,
{
    let share: i32 = (100 / n) as i32;
    let mut r: Vec<i32> = Vec::new();
    let mut i: usize = 0;
    while i < n
        invariant
            i <= n,
            share == 100int / n as int,
            r@.len() == i,
            forall|k: int| 0 <= k < i ==> r@[k] == share,
        decreases n - i,
    {
        r.push(share);
        i = i + 1;
    }
    r
}

/// Law: a `Ceil` step always brings the total back to exactly 100, whatever
/// the weights were — the targeted slot absorbs the whole difference.
pub proof fn lemma_ceil_restores_total(before: Seq<i32>, after: Seq<i32>, index: int)
    requires
        rebalance_rel(before, after, index, Op::Ceil),
    ensures
        total_of(after) == 100,
{
    lemma_total_single_change(before, after, index);
}

/// Law: a `Floor` step never leaves the targeted slot negative: the clamp
/// saturates it at zero.
pub proof fn lemma_floor_clamps_at_zero(before: Seq<i32>, after: Seq<i32>, index: int)
    requires
        rebalance_rel(before, after, index, Op::Floor),
    ensures
        after[index] >= 0,
{
}

/// Law: a `Floor` step either brings the total back to exactly 100, or it
/// zeroed the targeted slot and the total dropped by that slot's old value.
pub proof fn lemma_floor_restores_or_zeroes(before: Seq<i32>, after: Seq<i32>, index: int)
    requires
        rebalance_rel(before, after, index, Op::Floor),
    ensures
        total_of(after) == 100 || (after[index] == 0 && total_of(after) == total_of(before)
            - before[index]),
{
    lemma_total_single_change(before, after, index);
}

/// Law: when the weights sum to exactly 100, every slot's `can_floor` and
/// `can_ceil` are false, regardless of the individual slot values.
pub proof fn lemma_flags_balanced(s: Seq<i32>)
    requires
        total_of(s) == 100,
    ensures
        forall|i: int| 0 <= i < s.len() ==> !spec_can_floor(s[i] as int, total_of(s)),
        !spec_can_ceil(total_of(s)),
{
}

/// Law: feeding a rebalanced weight set back into `rebalance` with the same
/// index and operation changes nothing: one step already leaves the targeted
/// slot at a fixed point (the total is back at 100, or the slot is pinned at
/// zero under a surplus that `Floor` cannot push below zero).
pub proof fn lemma_rebalance_idempotent(
    w0: Seq<i32>,
    w1: Seq<i32>,
    w2: Seq<i32>,
    index: int,
    op: Op,
)
    requires
        rebalance_rel(w0, w1, index, op),
        rebalance_rel(w1, w2, index, op),
    ensures
        w2 == w1,
{
    lemma_total_single_change(w0, w1, index);
    match op {
        Op::Ceil => {
            lemma_ceil_restores_total(w0, w1, index);
        },
        Op::Floor => {
            lemma_floor_restores_or_zeroes(w0, w1, index);
        },
    }
    assert(w2 =~= w1);
}

} // verus!
