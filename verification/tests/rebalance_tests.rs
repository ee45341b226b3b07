use forecast::errors::EngineError;
use forecast::rebalance::{default_weights, flags, rebalance, total, Op};

fn weights(values: &[i32]) -> Vec<i32> {
    values.to_vec()
}

#[test]
fn total_sums_weights() {
    assert_eq!(total(&weights(&[10, 10, 10, 10, 10])), 50);
    assert_eq!(total(&weights(&[])), 0);
    assert_eq!(total(&weights(&[-20, 120, 0])), 100);
    assert_eq!(total(&weights(&[i32::MAX, i32::MAX])), 2 * (i32::MAX as i64));
}

#[test]
fn floor_on_under_allocated_set_raises_the_slot() {
    // total = 50, so the slot gains the (negative) surplus: 10 - (50 - 100) = 60
    let out = rebalance(&weights(&[10, 10, 10, 10, 10]), 0, Op::Floor).unwrap();
    assert_eq!(out, vec![60, 10, 10, 10, 10]);
}

#[test]
fn floor_on_balanced_set_is_a_no_op() {
    let out = rebalance(&weights(&[60, 10, 10, 10, 10]), 0, Op::Floor).unwrap();
    assert_eq!(out, vec![60, 10, 10, 10, 10]);
}

#[test]
fn floor_surplus_clamps_at_zero() {
    // total = 150, surplus 50 exceeds the slot's 30: clamp to 0
    let out = rebalance(&weights(&[30, 30, 30, 30, 30]), 2, Op::Floor).unwrap();
    assert_eq!(out, vec![30, 30, 0, 30, 30]);
    assert_eq!(total(&out), 120);
}

#[test]
fn ceil_fills_the_deficit_exactly() {
    // total = 50, deficit 50: the slot absorbs all of it
    let out = rebalance(&weights(&[10, 10, 10, 10, 10]), 4, Op::Ceil).unwrap();
    assert_eq!(out, vec![10, 10, 10, 10, 60]);
    assert_eq!(total(&out), 100);
}

#[test]
fn ceil_over_allocated_set_pushes_the_slot_down() {
    // total = 150: 100 - total is negative and Ceil applies it unclamped
    let out = rebalance(&weights(&[30, 30, 30, 30, 30]), 0, Op::Ceil).unwrap();
    assert_eq!(out, vec![-20, 30, 30, 30, 30]);
    assert_eq!(total(&out), 100);
}

#[test]
fn rebalance_rejects_an_out_of_range_index() {
    let r = rebalance(&weights(&[10, 10, 10, 10, 10]), 5, Op::Floor);
    assert_eq!(r, Err(EngineError::InvalidIndex));
}

#[test]
fn repeating_a_rebalance_with_the_same_inputs_changes_nothing() {
    // One application already leaves the targeted slot at a fixed point.
    let cases: &[(&[i32], usize, Op)] = &[
        (&[30, 30, 30, 30, 30], 2, Op::Floor),
        (&[10, 10, 10, 10, 10], 0, Op::Floor),
        (&[10, 10, 10, 10, 10], 4, Op::Ceil),
        (&[30, 30, 30, 30, 30], 0, Op::Ceil),
        (&[-200, 125, 125], 0, Op::Floor),
    ];
    for (start, index, op) in cases {
        let once = rebalance(&start.to_vec(), *index, *op).unwrap();
        let twice = rebalance(&once, *index, *op).unwrap();
        assert_eq!(twice, once);
    }
}

#[test]
fn flags_follow_the_total_and_the_slot_values() {
    // over-allocated: can_floor only where the slot is positive
    let f = flags(&weights(&[30, 0, 30, 30, 30]));
    assert!(f[0].can_floor && !f[0].can_ceil);
    assert!(!f[1].can_floor && !f[1].can_ceil);
    // under-allocated: every slot may absorb, even one holding zero
    let f = flags(&weights(&[10, 0, 10, 10, 10]));
    assert!(!f[0].can_floor && f[0].can_ceil);
    assert!(!f[1].can_floor && f[1].can_ceil);
}

#[test]
fn balanced_weights_disable_every_flag() {
    // total exactly 100: all flags false, whatever the individual values
    for w in [vec![20, 20, 20, 20, 20], vec![100, 0, 0, 0, 0], vec![-50, 150, 0, 0, 0]] {
        for f in flags(&w) {
            assert!(!f.can_floor);
            assert!(!f.can_ceil);
        }
    }
}

#[test]
fn default_weights_are_an_even_split() {
    assert_eq!(default_weights(5), vec![20, 20, 20, 20, 20]);
    assert_eq!(default_weights(3), vec![33, 33, 33]);
    assert_eq!(default_weights(1), vec![100]);
}
