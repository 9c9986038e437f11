use llhls::timestamp::{UnwrapTimestamp, TIMESTAMP_MAX};

#[test]
fn basic() {
    let mut unwrap = UnwrapTimestamp::default();
    let a = 0u64;
    let b = 1u64;

    unwrap.update(a);
    let c = unwrap.unwrap(b);
    assert_eq!(c, 1);
}

#[test]
fn basic_wrap() {
    let mut unwrap = UnwrapTimestamp::default();
    let a = TIMESTAMP_MAX;
    let b = 0u64;

    unwrap.update(a);
    let c = unwrap.unwrap(b);
    assert_eq!(c, (TIMESTAMP_MAX + 1) as i64);
}

#[test]
fn backwards() {
    let mut unwrap = UnwrapTimestamp::default();
    let a = 0u64;
    let b = TIMESTAMP_MAX;

    unwrap.update(a);
    let c = unwrap.unwrap(b);
    assert_eq!(c, -1 as i64);
}

#[test]
fn unwrapped_dts_stay_in_order_across_a_wrap() {
    let mut unwrap = UnwrapTimestamp::new();
    let mut last = i64::MIN;
    for ts in [TIMESTAMP_MAX - 7200, TIMESTAMP_MAX - 3600, TIMESTAMP_MAX, 3599, 7199] {
        unwrap.update(ts);
        let v = unwrap.unwrap(ts);
        assert!(v >= last);
        last = v;
    }
    assert_eq!(last, (TIMESTAMP_MAX + 1) as i64 + 7199);
}

#[test]
fn small_step_back_after_wrap_is_not_a_new_wrap() {
    let mut unwrap = UnwrapTimestamp::new();
    unwrap.update(TIMESTAMP_MAX);
    unwrap.update(10);
    assert_eq!(unwrap.carry, TIMESTAMP_MAX + 1);
    unwrap.update(5);
    assert_eq!(unwrap.carry, TIMESTAMP_MAX + 1);
    assert_eq!(unwrap.unwrap(5), (TIMESTAMP_MAX + 1) as i64 + 5);
}

#[test]
fn jump_of_exactly_half_a_turn_is_not_a_wrap() {
    let mut unwrap = UnwrapTimestamp::new();
    unwrap.update(0x1_0000_0000);
    assert_eq!(unwrap.unwrap(0), 0);
    unwrap.update(0);
    assert_eq!(unwrap.carry, 0);
}
