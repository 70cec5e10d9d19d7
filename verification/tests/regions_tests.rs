use bamkit::regions::RegionIndex;

fn lines(ls: &[&[u8]]) -> Vec<Vec<u8>> {
    ls.iter().map(|l| l.to_vec()).collect()
}

#[test]
fn boundary_semantics() {
    // One excluded interval [100, 200) on chr1.
    let idx = RegionIndex::build(&lines(&[b"chr1\t100\t200"])).expect("index builds");
    let chr1 = b"chr1".to_vec();
    // Record span entirely before: retained (overlap count 0).
    assert_eq!(idx.query(&chr1, 50, 90), 0);
    // Record span inside the interval: dropped.
    assert_eq!(idx.query(&chr1, 150, 180), 1);
    // Record span straddling the right end: 190 < 200 counts as overlap.
    assert_eq!(idx.query(&chr1, 190, 210), 1);
    // Touching boundary only: [200, 210) does not overlap [100, 200).
    assert_eq!(idx.query(&chr1, 200, 210), 0);
    // Touching on the left: [90, 100) does not overlap either.
    assert_eq!(idx.query(&chr1, 90, 100), 0);
    assert_eq!(idx.query(&chr1, 205, 260), 0);
}

#[test]
fn absent_chromosome_answers_zero() {
    let idx = RegionIndex::build(&lines(&[b"chr1\t100\t200"])).expect("index builds");
    assert_eq!(idx.query(&b"chr2".to_vec(), 150, 180), 0);
    assert_eq!(idx.query(&b"chr10".to_vec(), 0, 1000000), 0);
}

#[test]
fn duplicate_and_overlapping_intervals_are_kept() {
    let idx = RegionIndex::build(&lines(&[
        b"chr1\t100\t200",
        b"chr1\t100\t200",
        b"chr1\t150\t250",
        b"chr2\t0\t50",
    ]))
    .expect("index builds");
    let chr1 = b"chr1".to_vec();
    assert_eq!(idx.query(&chr1, 150, 180), 3);
    assert_eq!(idx.query(&chr1, 100, 101), 2);
    assert_eq!(idx.query(&chr1, 230, 240), 1);
    assert_eq!(idx.query(&b"chr2".to_vec(), 10, 20), 1);
}

#[test]
fn empty_file_builds_empty_index() {
    let idx = RegionIndex::build(&Vec::new()).expect("empty file builds");
    assert_eq!(idx.query(&b"chr1".to_vec(), 0, u64::MAX), 0);
}

#[test]
fn first_malformed_line_is_reported() {
    let err = match RegionIndex::build(&lines(&[b"chr1\t100\t200", b"chr1\tx\t300", b"bad"])) {
        Err(e) => e,
        Ok(_) => panic!("malformed line must fail the build"),
    };
    assert_eq!(err.line, 1);
}

#[test]
fn inverted_span_is_rejected() {
    // stop < start cannot be decomposed into a well-formed interval.
    let err = match RegionIndex::build(&lines(&[b"chr1\t200\t100"])) {
        Err(e) => e,
        Ok(_) => panic!("an inverted span must fail the build"),
    };
    assert_eq!(err.line, 0);
    // stop == start is permitted; such a point interval counts when a query
    // span crosses its position, and not when it only touches it.
    let idx = RegionIndex::build(&lines(&[b"chr1\t100\t100"])).expect("point interval builds");
    assert_eq!(idx.query(&b"chr1".to_vec(), 90, 110), 1);
    assert_eq!(idx.query(&b"chr1".to_vec(), 100, 110), 0);
    assert_eq!(idx.query(&b"chr1".to_vec(), 90, 100), 0);
}
