use bamkit::split::{
    classify_record, is_exogenous_name, partition_by_prefix, stream_of, OutputStream, RecordClass,
    SplitStats, MIN_MAPQ,
};

#[test]
fn screening_flags_take_priority_in_order() {
    // unmapped, qc_fail, duplicate, secondary, mapq, mate_unmapped, r1_exo, r2_exo
    assert_eq!(
        classify_record(true, true, true, true, 0, false, true, true),
        RecordClass::Unmapped
    );
    assert_eq!(
        classify_record(false, true, true, true, 0, false, true, true),
        RecordClass::QcFail
    );
    assert_eq!(
        classify_record(false, false, true, true, 0, false, true, true),
        RecordClass::Duplicate
    );
    assert_eq!(
        classify_record(false, false, false, true, 0, false, true, true),
        RecordClass::Secondary
    );
    assert_eq!(
        classify_record(false, false, false, false, MIN_MAPQ - 1, false, true, true),
        RecordClass::LowMapq
    );
}

#[test]
fn mapped_pairs_are_bucketed_by_prefix() {
    // Both reads on spike-in references: exogenous.
    assert_eq!(
        classify_record(false, false, false, false, 60, false, true, true),
        RecordClass::Exogenous
    );
    // Exactly one read on a spike-in reference: both-genomes.
    assert_eq!(
        classify_record(false, false, false, false, 60, false, true, false),
        RecordClass::BothGenomes
    );
    assert_eq!(
        classify_record(false, false, false, false, 60, false, false, true),
        RecordClass::BothGenomes
    );
    // Neither read: endogenous.
    assert_eq!(
        classify_record(false, false, false, false, 60, false, false, false),
        RecordClass::Endogenous
    );
}

#[test]
fn unmapped_mate_is_bucketed_by_this_read_alone() {
    assert_eq!(
        classify_record(false, false, false, false, 60, true, true, false),
        RecordClass::Exogenous
    );
    assert_eq!(
        classify_record(false, false, false, false, 60, true, false, true),
        RecordClass::Endogenous
    );
}

#[test]
fn mapq_threshold_is_exact() {
    assert_eq!(
        classify_record(false, false, false, false, MIN_MAPQ, false, false, false),
        RecordClass::Endogenous
    );
    assert_eq!(
        classify_record(false, false, false, false, 29, false, false, false),
        RecordClass::LowMapq
    );
}

#[test]
fn streams_collect_screened_records_together() {
    assert_eq!(stream_of(RecordClass::Unmapped), OutputStream::Unmapped);
    assert_eq!(stream_of(RecordClass::QcFail), OutputStream::Unmapped);
    assert_eq!(stream_of(RecordClass::Duplicate), OutputStream::Unmapped);
    assert_eq!(stream_of(RecordClass::Secondary), OutputStream::Unmapped);
    assert_eq!(stream_of(RecordClass::LowMapq), OutputStream::Unmapped);
    assert_eq!(stream_of(RecordClass::Exogenous), OutputStream::Exogenous);
    assert_eq!(stream_of(RecordClass::BothGenomes), OutputStream::BothGenomes);
    assert_eq!(stream_of(RecordClass::Endogenous), OutputStream::Endogenous);
}

#[test]
fn prefix_test_matches_byte_prefixes() {
    let prefix = b"dm6_".to_vec();
    assert!(is_exogenous_name(&b"dm6_2L".to_vec(), &prefix));
    assert!(is_exogenous_name(&b"dm6_".to_vec(), &prefix));
    assert!(!is_exogenous_name(&b"chr1".to_vec(), &prefix));
    assert!(!is_exogenous_name(&b"dm6".to_vec(), &prefix));
    assert!(!is_exogenous_name(&b"xdm6_2L".to_vec(), &prefix));
}

#[test]
fn partition_splits_reference_names_in_header_order() {
    let names = vec![
        b"chr1".to_vec(),
        b"dm6_2L".to_vec(),
        b"chr2".to_vec(),
        b"dm6_X".to_vec(),
    ];
    let (endo, exo) = partition_by_prefix(&names, &b"dm6_".to_vec());
    assert_eq!(endo, vec![0, 2]);
    assert_eq!(exo, vec![1, 3]);

    let (all_endo, no_exo) = partition_by_prefix(&names, &b"mm10_".to_vec());
    assert_eq!(all_endo, vec![0, 1, 2, 3]);
    assert_eq!(no_exo, Vec::<usize>::new());
}

#[test]
fn stats_counters_track_each_class() {
    let mut stats = SplitStats::new(String::from("sample"));
    assert_eq!(stats.filename, "sample");
    stats.add_unmapped();
    stats.add_unmapped();
    stats.add_qcfail();
    stats.add_duplicate();
    stats.add_secondary();
    stats.add_low_maq();
    stats.add_both_genomes();
    stats.add_exogenous();
    stats.add_endogenous();
    stats.add_endogenous();
    assert_eq!(stats.n_unmapped_reads, 2);
    assert_eq!(stats.n_qcfail_reads, 1);
    assert_eq!(stats.n_duplicate_reads, 1);
    assert_eq!(stats.n_secondary_reads, 1);
    assert_eq!(stats.n_low_maq, 1);
    assert_eq!(stats.n_both_genomes, 1);
    assert_eq!(stats.n_exogenous, 1);
    assert_eq!(stats.n_endogenous, 2);
}
