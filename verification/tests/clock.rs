use sockgauge::reporter::{Elapsed, Timestamp};

#[test]
fn elapsed_is_the_difference_in_nanoseconds() {
    let opened = Timestamp::after_epoch(10, 999_999_999);
    let closed = Timestamp::after_epoch(12, 5);
    assert_eq!(
        closed.elapsed_since(&opened),
        Some(Elapsed { nanos: 1_000_000_006 })
    );
}

#[test]
fn elapsed_since_the_same_point_is_zero() {
    let at = Timestamp::after_epoch(1_700_000_000, 123);
    assert_eq!(at.elapsed_since(&at), Some(Elapsed { nanos: 0 }));
}

#[test]
fn no_time_elapses_backwards() {
    let earlier = Timestamp::after_epoch(5, 0);
    let later = Timestamp::after_epoch(5, 1);
    assert_eq!(earlier.elapsed_since(&later), None);
    assert_eq!(later.elapsed_since(&earlier), Some(Elapsed { nanos: 1 }));
}

#[test]
fn time_elapses_across_the_epoch() {
    let before = Timestamp::before_epoch(2, 500_000_000);
    let after = Timestamp::after_epoch(1, 250_000_000);
    assert_eq!(
        after.elapsed_since(&before),
        Some(Elapsed { nanos: 3_750_000_000 })
    );
    assert_eq!(before.elapsed_since(&after), None);
}

#[test]
fn the_epoch_is_the_same_from_both_sides() {
    assert_eq!(Timestamp::after_epoch(0, 0), Timestamp::before_epoch(0, 0));
}

#[test]
fn the_widest_span_is_held_exactly() {
    let first = Timestamp::before_epoch(u64::MAX, u32::MAX);
    let last = Timestamp::after_epoch(u64::MAX, u32::MAX);
    let one_side: u128 = (u64::MAX as u128) * 1_000_000_000 + (u32::MAX as u128);
    assert_eq!(
        last.elapsed_since(&first),
        Some(Elapsed { nanos: 2 * one_side })
    );
}

#[test]
fn the_clock_reads_a_time_of_this_century() {
    let now = Timestamp::now();
    let year_2020 = Timestamp::after_epoch(1_577_836_800, 0);
    let year_2100 = Timestamp::after_epoch(4_102_444_800, 0);
    assert!(now.elapsed_since(&year_2020).is_some());
    assert!(year_2100.elapsed_since(&now).is_some());
}

#[test]
fn two_readings_of_the_clock_are_close() {
    let first = Timestamp::now();
    let second = Timestamp::now();
    match second.elapsed_since(&first) {
        Some(span) => assert!(span.nanos < 60_000_000_000),
        None => match first.elapsed_since(&second) {
            Some(span) => assert!(span.nanos < 60_000_000_000),
            None => unreachable!(),
        },
    }
}
