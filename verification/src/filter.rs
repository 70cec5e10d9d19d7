//! The concurrent region-subtraction pipeline's verified core: the per-record
//! retention decision, per-chromosome batching of survivors, and the work
//! queue of chromosome names. The I/O shell around the library runs the
//! worker loops; every decision they take is made here.
use vstd::prelude::*;

verus! {

use vstd::multiset::Multiset;
use crate::regions::{RegionIndex, overlap_count};

/// Number of records carried in one cross-thread batch.
pub const BATCH_CAPACITY: usize = 100000;

/// An alignment record as the filter sees it: its half-open reference span
/// `[start, end)` and an opaque payload carried through unchanged.
#[derive(Clone, Debug)]
pub struct FilterRecord<T> {
    pub start: u64,
    pub end: u64,
    pub payload: T,
}

/// A record on chromosome `chrom` is retained exactly when no stored
/// interval of that chromosome overlaps its span; a chromosome absent from
/// the mapping retains every record.
pub open spec fn spec_retained<T>(
    im: Map<Seq<u8>, Multiset<(u64, u64)>>,
    chrom: Seq<u8>,
    r: FilterRecord<T>,
) -> bool {
    !im.contains_key(chrom) || overlap_count(im[chrom], r.start, r.end) == 0
}

/// The subsequence of `recs` that survives region subtraction on `chrom`,
/// in scan order.
pub open spec fn retained_records<T>(
    im: Map<Seq<u8>, Multiset<(u64, u64)>>,
    chrom: Seq<u8>,
    recs: Seq<FilterRecord<T>>,
) -> Seq<FilterRecord<T>> {
    recs.filter(|r: FilterRecord<T>| spec_retained(im, chrom, r))
}

/// Batches the surviving records of one chromosome's scan: survivors are
/// appended in scan order, handed out in full batches of `BATCH_CAPACITY`,
/// and a final partial batch is flushed by `finish`.
pub struct ChromBatcher<T> {
    batch: Vec<FilterRecord<T>>,
    regions_g: Ghost<Map<Seq<u8>, Multiset<(u64, u64)>>>,
    chrom_g: Ghost<Seq<u8>>,
    offered_g: Ghost<Seq<FilterRecord<T>>>,
    emitted_g: Ghost<Seq<FilterRecord<T>>>,
}

impl<T> ChromBatcher<T> {
    /// The region mapping this scan filters against.
    pub closed spec fn regions(self) -> Map<Seq<u8>, Multiset<(u64, u64)>> {
        self.regions_g@
    }

    /// The chromosome this scan runs over.
    pub closed spec fn chrom_name(self) -> Seq<u8> {
        self.chrom_g@
    }

    /// Every record offered so far, in scan order.
    pub closed spec fn offered(self) -> Seq<FilterRecord<T>> {
        self.offered_g@
    }

    /// Every record handed out in a batch so far, in scan order.
    pub closed spec fn emitted(self) -> Seq<FilterRecord<T>> {
        self.emitted_g@
    }

    /// The survivors still waiting in the current partial batch.
    pub closed spec fn pending(self) -> Seq<FilterRecord<T>> {
        self.batch@
    }

    /// The batcher never holds a full batch between calls, and what it has
    /// emitted followed by what it still holds is exactly the retained
    /// subsequence of what it was offered.
    pub open spec fn wf(self) -> bool {
        &&& self.pending().len() < BATCH_CAPACITY
        &&& self.emitted() + self.pending() == retained_records(
            self.regions(),
            self.chrom_name(),
            self.offered(),
        )
    }

    /// Starts a scan of chromosome `chrom` against `index`.
    pub fn new(index: &RegionIndex, chrom: &Vec<u8>) -> (b: Self)
        ensures
            b.wf(),
            b.regions() == index@,
            b.chrom_name() == chrom@,
            b.offered() == Seq::<FilterRecord<T>>::empty(),
            b.emitted() == Seq::<FilterRecord<T>>::empty(),
            b.pending() == Seq::<FilterRecord<T>>::empty(),
    {
        let b = ChromBatcher {
            batch: Vec::new(),
            regions_g: Ghost(index@),
            chrom_g: Ghost(chrom@),
            offered_g: Ghost(Seq::empty()),
            emitted_g: Ghost(Seq::empty()),
        };
        proof {
            reveal(Seq::filter);
        }
        b
    }

    /// Offers the next record of the scan. The record is kept exactly when
    /// no excluded interval of this chromosome overlaps `[start, end)`; a
    /// full batch of survivors is handed back the moment it completes.
    pub fn offer(&mut self, index: &RegionIndex, chrom: &Vec<u8>, r: FilterRecord<T>) -> (out:
        Option<Vec<FilterRecord<T>>>)
        requires
            old(self).wf(),
            index@ == old(self).regions(),
            chrom@ == old(self).chrom_name(),
            r.start < r.end,
        ensures
            final(self).wf(),
            final(self).regions() == old(self).regions(),
            final(self).chrom_name() == old(self).chrom_name(),
            final(self).offered() == old(self).offered().push(r),
            match out {
                Some(b) => {
                    &&& b@.len() == BATCH_CAPACITY
                    &&& final(self).emitted() == old(self).emitted() + b@
                    &&& final(self).pending() == Seq::<FilterRecord<T>>::empty()
                },
                None => {
                    &&& final(self).emitted() == old(self).emitted()
                    &&& final(self).pending().len() < BATCH_CAPACITY
                },
            },
    {
        let overlaps = index.query(chrom, r.start, r.end);
        let ghost old_offered = self.offered_g@;
        let ghost old_batch = self.batch@;
        let ghost old_emitted = self.emitted_g@;
        self.offered_g = Ghost(self.offered_g@.push(r));
        proof {
            broadcast use vstd::prelude::Seq::lemma_filter_push;

            assert(retained_records(self.regions_g@, self.chrom_g@, old_offered.push(r))
                == if spec_retained(self.regions_g@, self.chrom_g@, r) {
                retained_records(self.regions_g@, self.chrom_g@, old_offered).push(r)
            } else {
                retained_records(self.regions_g@, self.chrom_g@, old_offered)
            });
        }
        if overlaps == 0 {
            self.batch.push(r);
            proof {
                assert(old_emitted + old_batch.push(r) =~= (old_emitted + old_batch).push(r));
            }
            if self.batch.len() == BATCH_CAPACITY {
                let mut full: Vec<FilterRecord<T>> = Vec::new();
                core::mem::swap(&mut self.batch, &mut full);
                self.emitted_g = Ghost(self.emitted_g@ + full@);
                proof {
                    assert(self.batch@ =~= Seq::<FilterRecord<T>>::empty());
                    assert(self.emitted_g@ + self.batch@ =~= self.emitted_g@);
                }
                Some(full)
            } else {
                None
            }
        } else {
            None
        }
    }

    /// Ends the scan, flushing the final partial batch if it is non-empty.
    /// Afterwards everything emitted is exactly the retained subsequence of
    /// everything offered, in scan order.
    pub fn finish(&mut self) -> (out: Option<Vec<FilterRecord<T>>>)
        requires
            old(self).wf(),
        ensures
            final(self).emitted() == retained_records(
                old(self).regions(),
                old(self).chrom_name(),
                old(self).offered(),
            ),
            final(self).regions() == old(self).regions(),
            final(self).chrom_name() == old(self).chrom_name(),
            final(self).offered() == old(self).offered(),
            match out {
                Some(b) => 0 < b@.len() <= BATCH_CAPACITY && final(self).emitted() == old(self).emitted() + b@,
                None => old(self).pending() == Seq::<FilterRecord<T>>::empty() && final(self).emitted() == old(self).emitted(),
            },
    {
        if self.batch.len() == 0 {
            proof {
                assert(self.emitted_g@ + self.batch@ =~= self.emitted_g@);
                assert(self.batch@ =~= Seq::<FilterRecord<T>>::empty());
            }
            None
        } else {
            let mut full: Vec<FilterRecord<T>> = Vec::new();
            core::mem::swap(&mut self.batch, &mut full);
            self.emitted_g = Ghost(self.emitted_g@ + full@);
            proof {
                assert(self.emitted_g@ + self.batch@ =~= self.emitted_g@);
            }
            Some(full)
        }
    }
}

/// A sequence whose elements all satisfy the predicate filters to itself.
proof fn lemma_filter_all_true<A>(s: Seq<A>, pred: spec_fn(A) -> bool)
    requires
        forall|i: int| 0 <= i < s.len() ==> pred(#[trigger] s[i]),
    ensures
        s.filter(pred) == s,
    decreases s.len(),
{
    reveal(Seq::filter);
    if s.len() > 0 {
        lemma_filter_all_true(s.drop_last(), pred);
        assert(s.drop_last().push(s.last()) =~= s);
    }
}

/// Completeness: a record is among the retained records of a chromosome's
/// scan exactly when it was scanned and no excluded interval of that
/// chromosome overlaps its span.
pub proof fn lemma_completeness<T>(
    im: Map<Seq<u8>, Multiset<(u64, u64)>>,
    chrom: Seq<u8>,
    recs: Seq<FilterRecord<T>>,
    r: FilterRecord<T>,
)
    ensures
        retained_records(im, chrom, recs).contains(r) <==> (recs.contains(r) && spec_retained(
            im,
            chrom,
            r,
        )),
{
    broadcast use vstd::prelude::Seq::lemma_filter_contains_rev;
    broadcast use vstd::prelude::Seq::lemma_filter_pred;
    broadcast use vstd::prelude::Seq::lemma_filter_contains;

    let pred = |x: FilterRecord<T>| spec_retained(im, chrom, x);
    let kept = recs.filter(pred);
    if kept.contains(r) {
        let i = choose|i: int| 0 <= i < kept.len() && kept[i] == r;
        assert(pred(kept[i]));
    }
    if recs.contains(r) && pred(r) {
        let i = choose|i: int| 0 <= i < recs.len() && recs[i] == r;
        assert(kept.contains(recs[i]));
    }
}

/// A chromosome absent from the region mapping retains every record
/// unconditionally.
pub proof fn lemma_absent_chromosome_retains_all<T>(
    im: Map<Seq<u8>, Multiset<(u64, u64)>>,
    chrom: Seq<u8>,
    recs: Seq<FilterRecord<T>>,
)
    requires
        !im.contains_key(chrom),
    ensures
        retained_records(im, chrom, recs) == recs,
{
    lemma_filter_all_true(recs, |x: FilterRecord<T>| spec_retained(im, chrom, x));
}

/// An empty region mapping (an empty interval file) retains every record of
/// every chromosome: the output equals the input, modulo ordering.
pub proof fn lemma_no_regions_retains_all<T>(chrom: Seq<u8>, recs: Seq<FilterRecord<T>>)
    ensures
        retained_records(Map::<Seq<u8>, Multiset<(u64, u64)>>::empty(), chrom, recs) == recs,
{
    lemma_absent_chromosome_retains_all(
        Map::<Seq<u8>, Multiset<(u64, u64)>>::empty(),
        chrom,
        recs,
    );
}

/// Idempotence: filtering the survivors of a scan again, against the same
/// regions, changes nothing — no survivor overlaps an excluded interval, by
/// construction.
pub proof fn lemma_filter_idempotent<T>(
    im: Map<Seq<u8>, Multiset<(u64, u64)>>,
    chrom: Seq<u8>,
    recs: Seq<FilterRecord<T>>,
)
    ensures
        retained_records(im, chrom, retained_records(im, chrom, recs)) == retained_records(
            im,
            chrom,
            recs,
        ),
{
    broadcast use vstd::prelude::Seq::lemma_filter_pred;

    let pred = |x: FilterRecord<T>| spec_retained(im, chrom, x);
    lemma_filter_all_true(recs.filter(pred), pred);
}

/// The records retained over a whole run: each element of `work` is one
/// chromosome's scan (its name and its records, in scan order), and the
/// result is the multiset of every record any scan retained.
pub open spec fn scans_output<T>(
    im: Map<Seq<u8>, Multiset<(u64, u64)>>,
    work: Seq<(Seq<u8>, Seq<FilterRecord<T>>)>,
) -> Multiset<FilterRecord<T>>
    decreases work.len(),
{
    if work.len() == 0 {
        Multiset::empty()
    } else {
        retained_records(im, work.first().0, work.first().1).to_multiset().add(
            scans_output(im, work.drop_first()),
        )
    }
}

/// The output of two runs laid end to end is the sum of their outputs.
proof fn lemma_scans_output_concat<T>(
    im: Map<Seq<u8>, Multiset<(u64, u64)>>,
    a: Seq<(Seq<u8>, Seq<FilterRecord<T>>)>,
    b: Seq<(Seq<u8>, Seq<FilterRecord<T>>)>,
)
    ensures
        scans_output(im, a + b) == scans_output(im, a).add(scans_output(im, b)),
    decreases a.len(),
{
    broadcast use vstd::multiset::group_multiset_axioms;

    if a.len() == 0 {
        assert(a + b =~= b);
        assert(Multiset::<FilterRecord<T>>::empty().add(scans_output(im, b)) =~= scans_output(
            im,
            b,
        ));
    } else {
        assert((a + b).first() == a.first());
        assert((a + b).drop_first() =~= a.drop_first() + b);
        lemma_scans_output_concat(im, a.drop_first(), b);
        let x = retained_records(im, a.first().0, a.first().1).to_multiset();
        let y = scans_output(im, a.drop_first());
        let z = scans_output(im, b);
        assert(x.add(y.add(z)) =~= x.add(y).add(z));
    }
}

/// Thread-count invariance: the multiset of retained records depends only on
/// which chromosome scans ran, never on the order a pool of workers
/// completed them in. Two schedules that run the same scans — however many
/// workers each used — retain the same set of records; only their order in
/// the output may differ.
pub proof fn lemma_schedule_invariance<T>(
    im: Map<Seq<u8>, Multiset<(u64, u64)>>,
    work1: Seq<(Seq<u8>, Seq<FilterRecord<T>>)>,
    work2: Seq<(Seq<u8>, Seq<FilterRecord<T>>)>,
)
    requires
        work1.to_multiset() == work2.to_multiset(),
    ensures
        scans_output(im, work1) == scans_output(im, work2),
    decreases work1.len(),
{
    broadcast use vstd::seq_lib::group_to_multiset_ensures;
    broadcast use vstd::multiset::group_multiset_axioms;

    if work1.len() == 0 {
        assert(work2.to_multiset().len() == 0);
        assert(work2.len() == 0);
    } else {
        let x = work1.first();
        assert(work1.contains(x));
        assert(work1.to_multiset().count(x) > 0);
        assert(work2.to_multiset().count(x) > 0);
        assert(work2.contains(x));
        let j = choose|j: int| 0 <= j < work2.len() && work2[j] == x;
        assert(work1.drop_first() =~= work1.remove(0));
        assert(work1.remove(0).to_multiset() == work1.to_multiset().remove(x));
        assert(work2.remove(j).to_multiset() == work2.to_multiset().remove(x));
        lemma_schedule_invariance(im, work1.drop_first(), work2.remove(j));
        assert(work2.remove(j) =~= work2.take(j) + work2.skip(j + 1));
        assert(work2 =~= work2.take(j) + (seq![x] + work2.skip(j + 1)));
        lemma_scans_output_concat(im, work2.take(j), seq![x] + work2.skip(j + 1));
        lemma_scans_output_concat(im, seq![x], work2.skip(j + 1));
        lemma_scans_output_concat(im, work2.take(j), work2.skip(j + 1));
        let rx = retained_records(im, x.0, x.1).to_multiset();
        assert(seq![x].first() == x);
        assert(seq![x].drop_first() =~= Seq::<(Seq<u8>, Seq<FilterRecord<T>>)>::empty());
        assert(scans_output(im, seq![x].drop_first()) == Multiset::<FilterRecord<T>>::empty());
        assert(scans_output(im, seq![x]) =~= rx);
        let t = scans_output(im, work2.take(j));
        let s = scans_output(im, work2.skip(j + 1));
        assert(scans_output(im, work2) == t.add(rx.add(s)));
        assert(scans_output(im, work1) == rx.add(scans_output(im, work1.drop_first())));
        assert(scans_output(im, work1.drop_first()) == scans_output(im, work2.remove(j)));
        assert(scans_output(im, work2.remove(j)) == t.add(s));
        assert(rx.add(t.add(s)) =~= t.add(rx.add(s)));
    }
}

/// The work queue of the pipeline: the chromosome names of the input header,
/// in header order, each claimed exactly once.
pub struct ChromosomeDispatcher {
    names: Vec<Vec<u8>>,
    next: usize,
}

impl ChromosomeDispatcher {
    /// All chromosome names the dispatcher was populated with, in header order.
    pub closed spec fn all_names(self) -> Seq<Seq<u8>> {
        self.names@.map_values(|n: Vec<u8>| n@)
    }

    /// How many names have been claimed so far.
    pub closed spec fn dispatched(self) -> nat {
        self.next as nat
    }

    #[verifier::type_invariant]
    spec fn wf(self) -> bool {
        self.next <= self.names@.len()
    }

    /// Populates the queue with the header's chromosome names.
    pub fn new(names: Vec<Vec<u8>>) -> (d: Self)
        ensures
            d.all_names() == names@.map_values(|n: Vec<u8>| n@),
            d.dispatched() == 0,
    {
        ChromosomeDispatcher { names, next: 0 }
    }

    /// Claims the next chromosome, in header order; `None` once the queue is
    /// drained. Each name is handed out exactly once.
    pub fn claim(&mut self) -> (c: Option<Vec<u8>>)
        ensures
            final(self).all_names() == old(self).all_names(),
            match c {
                Some(n) => {
                    &&& old(self).dispatched() < old(self).all_names().len()
                    &&& n@ == old(self).all_names()[old(self).dispatched() as int]
                    &&& final(self).dispatched() == old(self).dispatched() + 1
                },
                None => {
                    &&& old(self).dispatched() == old(self).all_names().len()
                    &&& final(self).dispatched() == old(self).dispatched()
                },
            },
    {
        proof {
            use_type_invariant(&*self);
        }
        if self.next < self.names.len() {
            let n = crate::bytes::clone_bytes(&self.names[self.next]);
            self.next = self.next + 1;
            Some(n)
        } else {
            None
        }
    }
}

} // verus!
