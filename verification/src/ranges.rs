//! The partitioner: divides a date span into a fixed number of contiguous,
//! non-overlapping sub-ranges of equal day-count (the truncated quotient of
//! the span's days by the count). When the span's days are not evenly
//! divisible the final sub-range deliberately falls short of the span's end
//! date by the remainder — a known sharp edge kept on purpose, not a defect
//! to correct here.

use vstd::arithmetic::div_mod::{lemma_div_pos_is_pos, lemma_fundamental_div_mod, lemma_mod_bound};
use vstd::prelude::*;

use crate::dates::{Date, Span, DAY_MAX, DAY_MIN};
use crate::labels::label_of;
use crate::rebalance::{
    lemma_total_bound, lemma_total_take_step, spec_can_ceil, spec_can_floor, total, total_of,
};

verus! {

/// One contiguous slice of a span: its dates, a display label, the integer
/// weight assigned to it, and the advisory eligibility flags of its slot.
#[derive(Clone, Debug)]
pub struct Range {
    pub start: Date,
    pub end: Date,
    pub label: String,
    pub value: i32,
    pub can_ceil: bool,
    pub can_floor: bool,
}

/// The day-count of every sub-range: the span's days divided by the count,
/// truncating.
pub open spec fn chunk_of(span: Span, n: int) -> int {
    span.total_days() / n
}

/// The start day of sub-range `i`: each earlier sub-range advanced the
/// cursor by its chunk plus the one day separating consecutive sub-ranges.
pub open spec fn slot_start(span: Span, n: int, i: int) -> int {
    span.start.day + i * (chunk_of(span, n) + 1)
}

/// The end day of sub-range `i`.
pub open spec fn slot_end(span: Span, n: int, i: int) -> int {
    slot_start(span, n, i) + chunk_of(span, n)
}

/// The weight of slot `i`: the supplied weight, or 0 when the weight set is
/// shorter than the sub-range count.
pub open spec fn slot_value(weights: Seq<i32>, i: int) -> int {
    if 0 <= i < weights.len() {
        weights[i] as int
    } else {
        0
    }
}

/// The weights carried by a sequence of sub-ranges.
pub open spec fn values_of(s: Seq<Range>) -> Seq<i32> {
    s.map_values(|r: Range| r.value)
}

/// Every sub-range boundary lies between the span's start and at most `i`
/// days past its end, and the chunk is non-negative.
proof fn lemma_slot_in_range(span: Span, n: int, i: int)
    requires
        span.wf(),
        1 <= n,
        0 <= i <= n,
    ensures
        chunk_of(span, n) >= 0,
        span.start.day <= slot_start(span, n, i) <= span.end.day + i,
{
    let t = span.total_days();
    let c = chunk_of(span, n);
    lemma_div_pos_is_pos(t, n);
    lemma_fundamental_div_mod(t, n);
    lemma_mod_bound(t, n);
    assert(n * c <= t);
    assert(i * c <= n * c) by (nonlinear_arith)
        requires
            0 <= i <= n,
            c >= 0,
    ;
    assert(i * (c + 1) == i * c + i) by (nonlinear_arith);
    assert(i * c >= 0) by (nonlinear_arith)
        requires
            i >= 0,
            c >= 0,
    ;
}

/// Law: every sub-range has a non-negative duration — its end never
/// precedes its start.
pub proof fn lemma_chunk_nonnegative(span: Span, n: int)
    requires
        span.wf(),
        1 <= n,
    ensures
        chunk_of(span, n) >= 0,
        forall|i: int| slot_end(span, n, i) >= slot_start(span, n, i),
{
    lemma_div_pos_is_pos(span.total_days(), n);
}

/// Law: consecutive sub-ranges are contiguous — each one starts exactly one
/// day after the previous one ends.
pub proof fn lemma_partition_contiguous(span: Span, n: int, i: int)
    requires
        1 <= n,
        0 <= i,
    ensures
        slot_start(span, n, i + 1) == slot_end(span, n, i) + 1,
{
    let c = chunk_of(span, n);
    assert((i + 1) * (c + 1) == i * (c + 1) + (c + 1)) by (nonlinear_arith);
}

/// Law: the final sub-range ends `n - 1` days of separation past the span's
/// end, minus the remainder of the division — it does not stretch to reach
/// the span's end date when the day-count is not evenly divisible.
pub proof fn lemma_partition_drift(span: Span, n: int)
    requires
        span.wf(),
        1 <= n,
    ensures
        slot_end(span, n, n - 1) == span.end.day + (n - 1) - (span.total_days() % n),
{
    let t = span.total_days();
    let c = chunk_of(span, n);
    lemma_fundamental_div_mod(t, n);
    assert((n - 1) * (c + 1) == n * c - c + n - 1) by (nonlinear_arith);
}

/// Divides `span` into exactly `n` contiguous sub-ranges, each `chunk` days
/// long, carrying the supplied weights (0 for missing tail slots) and the
/// advisory flags derived from the weights' total.
pub fn partition(span: Span, n: usize, weights: &Vec<i32>) -> (r: Vec<Range>)
    requires
        span.wf(),
        1 <= n,
        span.end.day + n <= DAY_MAX,
        weights@.len() <= 0xffff_ffff,
    ensures
        r@.len() == n,
        forall|i: int|
            0 <= i < n ==> (#[trigger] r@[i]).start.day == slot_start(span, n as int, i),
        forall|i: int| 0 <= i < n ==> (#[trigger] r@[i]).end.day == slot_end(span, n as int, i),
        forall|i: int|
            0 <= i < n ==> (#[trigger] r@[i]).label@ == label_of(
                slot_start(span, n as int, i),
                slot_end(span, n as int, i),
                chunk_of(span, n as int) as nat,
            ),
        forall|i: int| 0 <= i < n ==> (#[trigger] r@[i]).value == slot_value(weights@, i),
        forall|i: int|
            0 <= i < n ==> (#[trigger] r@[i]).can_floor == spec_can_floor(
                slot_value(weights@, i),
                total_of(weights@),
            ),
        forall|i: int|
            0 <= i < n ==> (#[trigger] r@[i]).can_ceil == spec_can_ceil(total_of(weights@)),
{
    proof {
        lemma_slot_in_range(span, n as int, 0);
    }
    let t = total(weights);
    let total_days: i64 = span.end.day - span.start.day;
    let chunk: i64 = total_days / (n as i64);
    proof {
        assert(chunk == chunk_of(span, n as int));
    }
    let mut cursor: i64 = span.start.day;
    let mut out: Vec<Range> = Vec::new();
    let mut i: usize = 0;
    while i < n
        invariant
            i <= n,
            span.wf(),
            1 <= n,
            span.end.day + n <= DAY_MAX,
            weights@.len() <= 0xffff_ffff,
            t == total_of(weights@),
            chunk == chunk_of(span, n as int),
            chunk >= 0,
            cursor == slot_start(span, n as int, i as int),
            out@.len() == i,
            forall|k: int|
                0 <= k < i ==> (#[trigger] out@[k]).start.day == slot_start(span, n as int, k),
            forall|k: int|
                0 <= k < i ==> (#[trigger] out@[k]).end.day == slot_end(span, n as int, k),
            forall|k: int|
                0 <= k < i ==> (#[trigger] out@[k]).label@ == label_of(
                    slot_start(span, n as int, k),
                    slot_end(span, n as int, k),
                    chunk_of(span, n as int) as nat,
                ),
            forall|k: int| 0 <= k < i ==> (#[trigger] out@[k]).value == slot_value(weights@, k),
            forall|k: int|
                0 <= k < i ==> (#[trigger] out@[k]).can_floor == spec_can_floor(
                    slot_value(weights@, k),
                    total_of(weights@),
                ),
            forall|k: int|
                0 <= k < i ==> (#[trigger] out@[k]).can_ceil == spec_can_ceil(total_of(weights@)),
        decreases n - i,
    {
        proof {
            lemma_slot_in_range(span, n as int, i as int);
            lemma_slot_in_range(span, n as int, i as int + 1);
            lemma_partition_contiguous(span, n as int, i as int);
        }
        let range_end: i64 = cursor + chunk;
        let value: i32 = if i < weights.len() {
            weights[i]
        } else {
            0
        };
        let label = crate::labels::render_label(cursor, range_end, chunk as u64);
        let can_floor = t > 100 && value > 0;
        let can_ceil = t < 100;
        out.push(
            Range {
                start: Date { day: cursor },
                end: Date { day: range_end },
                label,
                value,
                can_ceil,
                can_floor,
            },
        );
        cursor = range_end + 1;
        i = i + 1;
    }
    out
}

/// The standard five-way split: sub-ranges over the span from `start_date`
/// to `end_date`, weighted by `range_values`.
pub fn get_ranges(start_date: Date, end_date: Date, range_values: &Vec<i32>) -> (r: Vec<Range>)
    requires
        (Span { start: start_date, end: end_date }).wf(),
        end_date.day + 5 <= DAY_MAX,
        range_values@.len() <= 0xffff_ffff,
    ensures
        r@.len() == 5,
        forall|i: int|
            0 <= i < 5 ==> (#[trigger] r@[i]).start.day == slot_start(
                Span { start: start_date, end: end_date },
                5,
                i,
            ),
        forall|i: int|
            0 <= i < 5 ==> (#[trigger] r@[i]).end.day == slot_end(
                Span { start: start_date, end: end_date },
                5,
                i,
            ),
        forall|i: int|
            0 <= i < 5 ==> (#[trigger] r@[i]).label@ == label_of(
                slot_start(Span { start: start_date, end: end_date }, 5, i),
                slot_end(Span { start: start_date, end: end_date }, 5, i),
                chunk_of(Span { start: start_date, end: end_date }, 5) as nat,
            ),
        forall|i: int| 0 <= i < 5 ==> (#[trigger] r@[i]).value == slot_value(range_values@, i),
        forall|i: int|
            0 <= i < 5 ==> (#[trigger] r@[i]).can_floor == spec_can_floor(
                slot_value(range_values@, i),
                total_of(range_values@),
            ),
        forall|i: int|
            0 <= i < 5 ==> (#[trigger] r@[i]).can_ceil == spec_can_ceil(total_of(range_values@)),
{
    partition(Span { start: start_date, end: end_date }, 5, range_values)
}

/// The sum of the weights carried by a sequence of sub-ranges, for a totals
/// readout next to the rendered rows.
pub fn ranges_total(ranges: &Vec<Range>) -> (t: i64)
    requires
        ranges@.len() <= 0xffff_ffff,
    ensures
        t == total_of(values_of(ranges@)),
{
    let n = ranges.len();
    let mut t: i64 = 0;
    let mut i: usize = 0;
    proof {
        assert(values_of(ranges@).len() == ranges@.len());
    }
    while i < n
        invariant
            i <= n,
            n == ranges@.len() <= 0xffff_ffff,
            values_of(ranges@).len() == n,
            t == total_of(values_of(ranges@).take(i as int)),
        decreases n - i,
    {
        proof {
            lemma_total_take_step(values_of(ranges@), i as int);
            lemma_total_bound(values_of(ranges@).take(i as int));
            assert(values_of(ranges@)[i as int] == ranges@[i as int].value);
        }
        t = t + ranges[i].value as i64;
        i = i + 1;
    }
    proof {
        assert(values_of(ranges@).take(n as int) =~= values_of(ranges@));
    }
    t
}

} // verus!
