use bamkit::bed::{parse_bed_line, parse_u64, split_tabs};

#[test]
fn parses_minimal_line() {
    let line = b"chr1\t100\t200".to_vec();
    let (chrom, start, stop) = parse_bed_line(&line).expect("line should parse");
    assert_eq!(chrom, b"chr1".to_vec());
    assert_eq!(start, 100);
    assert_eq!(stop, 200);
}

#[test]
fn parses_line_with_extra_columns() {
    let line = b"chrX\t0\t10\tregion_name\t960\t+".to_vec();
    let (chrom, start, stop) = parse_bed_line(&line).expect("line should parse");
    assert_eq!(chrom, b"chrX".to_vec());
    assert_eq!(start, 0);
    assert_eq!(stop, 10);
}

#[test]
fn rejects_short_line() {
    assert!(parse_bed_line(&b"chr1\t100".to_vec()).is_none());
    assert!(parse_bed_line(&b"chr1".to_vec()).is_none());
    assert!(parse_bed_line(&Vec::new()).is_none());
}

#[test]
fn rejects_space_separated_line() {
    assert!(parse_bed_line(&b"chr1 100 200".to_vec()).is_none());
}

#[test]
fn rejects_non_numeric_coordinates() {
    assert!(parse_bed_line(&b"chr1\tabc\t200".to_vec()).is_none());
    assert!(parse_bed_line(&b"chr1\t100\t20x".to_vec()).is_none());
    assert!(parse_bed_line(&b"chr1\t-5\t200".to_vec()).is_none());
    assert!(parse_bed_line(&b"chr1\t\t200".to_vec()).is_none());
}

#[test]
fn u64_boundary_values() {
    let line = b"chr1\t18446744073709551615\t18446744073709551615".to_vec();
    let (_, start, stop) = parse_bed_line(&line).expect("max u64 fits");
    assert_eq!(start, u64::MAX);
    assert_eq!(stop, u64::MAX);
    // One past u64::MAX must be rejected.
    assert!(parse_bed_line(&b"chr1\t18446744073709551616\t5".to_vec()).is_none());
}

#[test]
fn parse_u64_exact_values() {
    assert_eq!(parse_u64(&b"0".to_vec()), Some(0));
    assert_eq!(parse_u64(&b"007".to_vec()), Some(7));
    assert_eq!(parse_u64(&b"123456789".to_vec()), Some(123456789));
    assert_eq!(parse_u64(&b"".to_vec()), None);
    assert_eq!(parse_u64(&b"12a".to_vec()), None);
}

#[test]
fn split_preserves_empty_fields() {
    let fields = split_tabs(&b"a\t\tb\t".to_vec());
    assert_eq!(
        fields,
        vec![b"a".to_vec(), b"".to_vec(), b"b".to_vec(), b"".to_vec()]
    );
    let single = split_tabs(&b"abc".to_vec());
    assert_eq!(single, vec![b"abc".to_vec()]);
}
