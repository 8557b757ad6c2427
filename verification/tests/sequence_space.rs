use cft_tcp::seqnum::{advance, is_between};

#[test]
fn arc_through_zero_holds_small_values() {
    assert!(is_between(0xFFFF_FFF0, 5, 2));
}

#[test]
fn plain_interval_holds_inner_value() {
    assert!(is_between(10, 20, 15));
}

#[test]
fn plain_interval_rejects_value_above() {
    assert!(!is_between(10, 20, 25));
}

#[test]
fn plain_interval_rejects_value_below() {
    assert!(!is_between(10, 20, 5));
}

#[test]
fn both_ends_belong_to_the_arc() {
    assert!(is_between(10, 20, 10));
    assert!(is_between(10, 20, 20));
    assert!(is_between(0xFFFF_FFF0, 5, 0xFFFF_FFF0));
    assert!(is_between(0xFFFF_FFF0, 5, 5));
}

#[test]
fn arc_through_zero_rejects_the_gap() {
    assert!(!is_between(0xFFFF_FFF0, 5, 6));
    assert!(!is_between(0xFFFF_FFF0, 5, 0xFFFF_FFEF));
    assert!(!is_between(0xFFFF_FFF0, 5, 0x8000_0000));
}

#[test]
fn arc_of_one_point_holds_only_that_point() {
    assert!(is_between(7, 7, 7));
    assert!(!is_between(7, 7, 8));
    assert!(!is_between(7, 7, 6));
    assert!(!is_between(7, 7, 0));
}

#[test]
fn arc_at_zero() {
    assert!(is_between(0, 0, 0));
    assert!(is_between(0xFFFF_FFFF, 0, 0));
    assert!(is_between(0xFFFF_FFFF, 0, 0xFFFF_FFFF));
    assert!(!is_between(0xFFFF_FFFF, 0, 1));
    assert!(is_between(0, 0xFFFF_FFFF, 0x1234_5678));
}

#[test]
fn arc_at_half_of_the_circle() {
    assert!(is_between(0x7FFF_FFFF, 0x8000_0001, 0x8000_0000));
    assert!(!is_between(0x8000_0001, 0x7FFF_FFFF, 0x8000_0000));
    assert!(is_between(0x8000_0000, 0x7FFF_FFFF, 0));
    assert!(is_between(0x8000_0000, 0x7FFF_FFFF, 0xFFFF_FFFF));
}

#[test]
fn arc_at_the_top_of_the_circle() {
    assert!(is_between(0xFFFF_FFFE, 0xFFFF_FFFF, 0xFFFF_FFFF));
    assert!(!is_between(0xFFFF_FFFE, 0xFFFF_FFFF, 0));
    assert!(is_between(0xFFFF_FFFF, 1, 0));
}

#[test]
fn advance_wraps_through_zero() {
    assert_eq!(advance(0xFFFF_FFFF, 1), 0);
    assert_eq!(advance(0xFFFF_FFF9, 10), 3);
    assert_eq!(advance(1000, 1), 1001);
    assert_eq!(advance(5, 0), 5);
}

#[test]
fn advance_by_a_whole_turn_stands_still() {
    let turn: u64 = 0x1_0000_0000;
    if let Ok(steps) = usize::try_from(turn) {
        assert_eq!(advance(77, steps), 77);
        assert_eq!(advance(77, steps + 3), 80);
    }
}

#[test]
fn turning_the_circle_keeps_membership() {
    let shift: usize = 0xFFFF_FFF9;
    for (start, end, val) in [(10u32, 20u32, 15u32), (10, 20, 25), (10, 20, 5), (6, 10, 5), (6, 10, 11)] {
        assert_eq!(
            is_between(advance(start, shift), advance(end, shift), advance(val, shift)),
            is_between(start, end, val),
        );
    }
}
