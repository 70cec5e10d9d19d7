use bamkit::shift::{sanity_check_coordinates, shift_read, ShiftedRead};

#[test]
fn sanity_check_widens_degenerate_spans() {
    // A collapsed forward span grows one base to the right.
    assert_eq!(sanity_check_coordinates(5, 5, false, 100), Some((5, 6)));
    // A collapsed reverse span grows one base to the left.
    assert_eq!(sanity_check_coordinates(5, 5, true, 100), Some((4, 5)));
}

#[test]
fn sanity_check_clamps_to_chromosome() {
    assert_eq!(sanity_check_coordinates(-3, 2, false, 100), Some((0, 2)));
    assert_eq!(sanity_check_coordinates(50, 60, false, 55), Some((50, 55)));
    // Clamping can collapse the span entirely.
    assert_eq!(sanity_check_coordinates(50, 51, false, 50), None);
    assert_eq!(sanity_check_coordinates(-10, -5, true, 100), None);
}

#[test]
fn sanity_check_keeps_good_spans() {
    assert_eq!(sanity_check_coordinates(10, 60, false, 100), Some((10, 60)));
    assert_eq!(sanity_check_coordinates(10, 60, true, 100), Some((10, 60)));
}

#[test]
fn shifts_forward_second_in_pair() {
    // Forward, not first in template: start moves +4, template length 150 -> 141.
    let r = shift_read(true, 1000, 50, 150, false, false, 1100, 100000);
    assert_eq!(
        r,
        Some(ShiftedRead { pos: 1004, end: 1050, insert_size: 141, mate_pos: 1100 })
    );
}

#[test]
fn shifts_reverse_second_in_pair() {
    // Reverse, not first: end moves -5, negative template length -150 -> -141,
    // mate start moves +4.
    let r = shift_read(true, 2000, 50, -150, true, false, 1900, 100000);
    assert_eq!(
        r,
        Some(ShiftedRead { pos: 2000, end: 2045, insert_size: -141, mate_pos: 1904 })
    );
}

#[test]
fn shifts_reverse_first_in_pair() {
    // Reverse, first: end moves -5 (profile value), mate start moves +4.
    let r = shift_read(true, 3000, 40, -120, true, true, 2950, 100000);
    assert_eq!(
        r,
        Some(ShiftedRead { pos: 3000, end: 3035, insert_size: -111, mate_pos: 2954 })
    );
}

#[test]
fn shifts_forward_first_in_pair() {
    // Forward, first: start moves +4 (minus the -4 profile value).
    let r = shift_read(true, 4000, 40, 120, false, true, 4080, 100000);
    assert_eq!(
        r,
        Some(ShiftedRead { pos: 4004, end: 4040, insert_size: 111, mate_pos: 4080 })
    );
}

#[test]
fn improper_pairs_are_dropped() {
    assert_eq!(shift_read(false, 1000, 50, 150, false, false, 1100, 100000), None);
}

#[test]
fn collapsed_spans_are_dropped() {
    // After shifting, the span is clamped to a 3-base chromosome and collapses.
    assert_eq!(shift_read(true, 0, 1, 10, false, false, 0, 3), None);
}
