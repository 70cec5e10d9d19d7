use bamkit::filter::{ChromBatcher, ChromosomeDispatcher, FilterRecord, BATCH_CAPACITY};
use bamkit::regions::RegionIndex;

fn lines(ls: &[&[u8]]) -> Vec<Vec<u8>> {
    ls.iter().map(|l| l.to_vec()).collect()
}

fn rec(start: u64, end: u64, payload: u32) -> FilterRecord<u32> {
    FilterRecord { start, end, payload }
}

/// Runs one chromosome's scan through a batcher, returning the retained
/// payloads in emission order.
fn scan(idx: &RegionIndex, chrom: &[u8], records: Vec<FilterRecord<u32>>) -> Vec<u32> {
    let chrom = chrom.to_vec();
    let mut batcher: ChromBatcher<u32> = ChromBatcher::new(idx, &chrom);
    let mut out = Vec::new();
    for r in records {
        if let Some(batch) = batcher.offer(idx, &chrom, r) {
            out.extend(batch.into_iter().map(|x| x.payload));
        }
    }
    if let Some(batch) = batcher.finish() {
        out.extend(batch.into_iter().map(|x| x.payload));
    }
    out
}

#[test]
fn end_to_end_scenario() {
    // Interval file {chr1: [(100, 200)]}; records on chr1 at the four spans.
    let idx = RegionIndex::build(&lines(&[b"chr1\t100\t200"])).expect("index builds");
    let records = vec![
        rec(50, 90, 1),
        rec(150, 180, 2),
        rec(190, 210, 3),
        rec(205, 260, 4),
    ];
    let kept = scan(&idx, b"chr1", records);
    // Expected retained set: [50,90) and [205,260); dropped: [150,180), [190,210).
    assert_eq!(kept, vec![1, 4]);
}

#[test]
fn absent_chromosome_retains_everything() {
    let idx = RegionIndex::build(&lines(&[b"chr1\t100\t200"])).expect("index builds");
    let records = vec![rec(150, 180, 1), rec(190, 210, 2), rec(0, 1000, 3)];
    let kept = scan(&idx, b"chr7", records);
    assert_eq!(kept, vec![1, 2, 3]);
}

#[test]
fn empty_interval_file_is_identity() {
    let idx = RegionIndex::build(&Vec::new()).expect("empty file builds");
    let records = vec![rec(1, 2, 10), rec(100, 200, 11), rec(5, 500, 12)];
    let kept = scan(&idx, b"chr1", records);
    assert_eq!(kept, vec![10, 11, 12]);
}

#[test]
fn refiltering_output_changes_nothing() {
    // Idempotence: feed the survivors through the same filter again.
    let idx = RegionIndex::build(&lines(&[b"chr1\t100\t200", b"chr1\t400\t500"]))
        .expect("index builds");
    let records = vec![
        rec(50, 90, 1),
        rec(150, 180, 2),
        rec(300, 350, 3),
        rec(450, 460, 4),
        rec(500, 510, 5),
    ];
    let kept = scan(&idx, b"chr1", records.clone());
    assert_eq!(kept, vec![1, 3, 5]);
    let survivors: Vec<FilterRecord<u32>> = records
        .into_iter()
        .filter(|r| kept.contains(&r.payload))
        .collect();
    let rekept = scan(&idx, b"chr1", survivors);
    assert_eq!(rekept, kept);
}

#[test]
fn schedule_order_does_not_change_the_retained_set() {
    // The same two chromosome scans, completed in either order, retain the
    // same set of records; only their order differs.
    let idx = RegionIndex::build(&lines(&[b"chr1\t100\t200", b"chr2\t0\t50"]))
        .expect("index builds");
    let chr1_records = vec![rec(50, 90, 1), rec(150, 180, 2)];
    let chr2_records = vec![rec(10, 20, 3), rec(60, 70, 4)];

    let mut order_a = scan(&idx, b"chr1", chr1_records.clone());
    order_a.extend(scan(&idx, b"chr2", chr2_records.clone()));
    let mut order_b = scan(&idx, b"chr2", chr2_records);
    order_b.extend(scan(&idx, b"chr1", chr1_records));

    let mut set_a = order_a.clone();
    set_a.sort();
    let mut set_b = order_b.clone();
    set_b.sort();
    assert_eq!(set_a, set_b);
    assert_eq!(set_a, vec![1, 4]);
}

#[test]
fn full_batches_are_emitted_at_capacity() {
    let idx = RegionIndex::build(&Vec::new()).expect("empty file builds");
    let chrom = b"chr1".to_vec();
    let mut batcher: ChromBatcher<u32> = ChromBatcher::new(&idx, &chrom);
    let total: usize = BATCH_CAPACITY + 1;
    let mut batches = 0usize;
    for i in 0..total {
        let out = batcher.offer(&idx, &chrom, rec(10, 20, i as u32));
        if i + 1 == BATCH_CAPACITY {
            let batch = out.expect("a full batch is emitted at capacity");
            assert_eq!(batch.len(), BATCH_CAPACITY);
            assert_eq!(batch[0].payload, 0);
            assert_eq!(batch[BATCH_CAPACITY - 1].payload, (BATCH_CAPACITY - 1) as u32);
            batches += 1;
        } else {
            assert!(out.is_none());
        }
    }
    assert_eq!(batches, 1);
    let last = batcher.finish().expect("the final partial batch is flushed");
    assert_eq!(last.len(), 1);
    assert_eq!(last[0].payload, BATCH_CAPACITY as u32);
}

#[test]
fn empty_scan_produces_no_batches() {
    let idx = RegionIndex::build(&Vec::new()).expect("empty file builds");
    let chrom = b"chr1".to_vec();
    let mut batcher: ChromBatcher<u32> = ChromBatcher::new(&idx, &chrom);
    assert!(batcher.finish().is_none());
}

#[test]
fn dispatcher_hands_out_names_in_header_order_exactly_once() {
    let names = vec![b"chr1".to_vec(), b"chr2".to_vec(), b"chrM".to_vec()];
    let mut d = ChromosomeDispatcher::new(names.clone());
    assert_eq!(d.claim(), Some(b"chr1".to_vec()));
    assert_eq!(d.claim(), Some(b"chr2".to_vec()));
    assert_eq!(d.claim(), Some(b"chrM".to_vec()));
    assert_eq!(d.claim(), None);
    assert_eq!(d.claim(), None);
}
