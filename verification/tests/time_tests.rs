use subdeck::time_range::TimeRange;
use subdeck::timestamp::format_timestamp;

#[test]
fn grow_pads_both_sides_proportionally() {
    let t = TimeRange::new(10_000, 12_000).grow(1500, 1500);
    assert_eq!(7_000, t.begin_ms);
    assert_eq!(15_000, t.end_ms);
}

#[test]
fn grow_clamps_at_the_start_of_the_timeline() {
    let t = TimeRange::new(1_000, 2_000).grow(1500, 1500);
    assert_eq!(0, t.begin_ms);
    assert_eq!(3_500, t.end_ms);
}

#[test]
fn grow_keeps_an_empty_range_in_place() {
    let t = TimeRange::new(5_000, 5_000).grow(1500, 1500);
    assert_eq!(5_000, t.begin_ms);
    assert_eq!(5_000, t.end_ms);
}

#[test]
fn midpoint_is_halfway() {
    assert_eq!(11_000, TimeRange::new(7_000, 15_000).midpoint());
    assert_eq!(1_500, TimeRange::new(1_000, 2_001).midpoint());
}

#[test]
fn timestamps_are_fixed_width() {
    assert_eq!("00:00:00.000", format_timestamp(0));
    assert_eq!("00:00:01.500", format_timestamp(1_500));
    assert_eq!("01:01:01.234", format_timestamp(3_661_234));
    assert_eq!("99:59:59.999", format_timestamp(359_999_999));
}

#[test]
fn timestamps_sort_like_instants() {
    let instants = [0u64, 999, 1_000, 59_999, 60_000, 3_599_999, 3_600_000, 359_999_999];
    for pair in instants.windows(2) {
        assert!(format_timestamp(pair[0]) < format_timestamp(pair[1]));
    }
}
