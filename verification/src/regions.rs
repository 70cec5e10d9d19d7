//! The region index: an immutable mapping from chromosome name to an
//! overlap-queryable set of half-open intervals, used to decide which
//! alignment records survive region subtraction.
use vstd::prelude::*;

verus! {

use vstd::multiset::Multiset;
use crate::bed::{line_ok, spec_parse_line, parse_bed_line};
use crate::bytes::bytes_eq;

/// A half-open genomic interval `[start, stop)`, zero-based.
#[derive(Clone, Copy, PartialEq, Eq, Structural, Debug)]
pub struct Interval {
    pub start: u64,
    pub stop: u64,
}

/// Whether the stored interval `iv` (as a `(start, stop)` pair) overlaps the
/// half-open query span `[start, end)`. Touching endpoints do not count:
/// `[a,b)` and `[b,c)` never overlap.
pub open spec fn spec_overlaps(iv: (u64, u64), start: u64, end: u64) -> bool {
    iv.0 < end && start < iv.1
}

/// How many intervals of the multiset `ms` overlap the query span `[start, end)`.
pub open spec fn overlap_count(ms: Multiset<(u64, u64)>, start: u64, end: u64) -> nat {
    ms.filter(|p: (u64, u64)| spec_overlaps(p, start, end)).len()
}

/// A multiset holds only well-formed `(start, stop)` pairs with `start <= stop`.
pub open spec fn all_well_formed(ms: Multiset<(u64, u64)>) -> bool {
    forall|p: (u64, u64)| ms.contains(p) ==> p.0 <= p.1
}

/// An overlap-queryable collection of intervals for one chromosome, backed
/// by `rust_lapper::Lapper` (a sorted structure answering overlap queries by
/// binary search). Opaque to the verifier; its contents are tracked through
/// `stored_intervals`.
#[verifier::external_body]
pub struct IntervalSet {
    inner: rust_lapper::Lapper<u64, u64>,
}

/// The multiset of `(start, stop)` pairs of the intervals stored in an `IntervalSet`.
pub uninterp spec fn stored_intervals(s: IntervalSet) -> Multiset<(u64, u64)>;

impl IntervalSet {
    /// Relies on `rust_lapper::Lapper::new`: the built structure stores exactly
    /// the intervals it was given (sorted internally, none added or removed).
    #[verifier::external_body]
    pub(crate) fn new(ivs: Vec<Interval>) -> (s: Self)
        ensures
            stored_intervals(s) == ivs@.map_values(|iv: Interval| (iv.start, iv.stop)).to_multiset(),
    {
        IntervalSet {
            inner: rust_lapper::Lapper::new(
                ivs.into_iter().map(|iv| rust_lapper::Interval { start: iv.start, stop: iv.stop, val: 0u64 }).collect(),
            ),
        }
    }

    /// Relies on `rust_lapper::Lapper::count`: for a query span with
    /// `start < stop` over well-formed stored intervals it returns the number
    /// of stored intervals `[a,b)` with `a < stop && start < b`. (Its two
    /// binary searches compute `#{a < stop} - #{b <= start}`, which equals
    /// that number exactly under these preconditions, and its arithmetic
    /// cannot underflow.)
    #[verifier::external_body]
    pub(crate) fn count(&self, start: u64, stop: u64) -> (r: usize)
        requires
            start < stop,
            all_well_formed(stored_intervals(*self)),
        ensures
            r == overlap_count(stored_intervals(*self), start, stop),
    {
        self.inner.count(start, stop)
    }
}

/// A malformed interval-file line, reported by the index of the first line
/// that cannot be decomposed into `(chromosome, start, end)` with
/// `end >= start`.
#[derive(Clone, Copy, PartialEq, Eq, Structural, Debug)]
pub struct ParseError {
    pub line: usize,
}

/// The mapping an interval file denotes: chromosome name to the multiset of
/// its `(start, stop)` interval pairs, duplicates kept. Meaningful when every
/// line is well-formed.
pub open spec fn group_lines(ls: Seq<Seq<u8>>) -> Map<Seq<u8>, Multiset<(u64, u64)>>
    decreases ls.len(),
{
    if ls.len() == 0 {
        Map::empty()
    } else {
        let rest = group_lines(ls.drop_last());
        let t = spec_parse_line(ls.last()).unwrap();
        let prev = if rest.contains_key(t.0) {
            rest[t.0]
        } else {
            Multiset::empty()
        };
        rest.insert(t.0, prev.insert((t.1, t.2)))
    }
}

/// One chromosome's entry in the region index.
struct ChromRegions {
    name: Vec<u8>,
    set: IntervalSet,
}

/// An immutable mapping from chromosome name to an overlap-queryable
/// collection of intervals. Built once from an interval file; absence of a
/// chromosome means "no exclusion regions for it".
pub struct RegionIndex {
    entries: Vec<ChromRegions>,
}

/// The `(start, stop)` pairs of the intervals a group accumulator entry holds.
spec fn group_pairs(ivs: Seq<Interval>) -> Multiset<(u64, u64)> {
    ivs.map_values(|iv: Interval| (iv.start, iv.stop)).to_multiset()
}

/// The group accumulator `gs` represents exactly the mapping `m`.
spec fn groups_match(gs: Seq<(Vec<u8>, Vec<Interval>)>, m: Map<Seq<u8>, Multiset<(u64, u64)>>) -> bool {
    &&& forall|j: int, k: int| 0 <= j < k < gs.len() ==> gs[j].0@ != gs[k].0@
    &&& forall|j: int|
        0 <= j < gs.len() ==> m.contains_key(#[trigger] gs[j].0@) && group_pairs(gs[j].1@)
            == m[gs[j].0@]
    &&& forall|c: Seq<u8>|
        m.contains_key(c) ==> exists|j: int| 0 <= j < gs.len() && (#[trigger] gs[j].0@) == c
    &&& forall|j: int, k: int|
        0 <= j < gs.len() && 0 <= k < gs[j].1@.len() ==> (#[trigger] gs[j].1@[k]).start
            <= gs[j].1@[k].stop
}

/// The finished entries `es` represent exactly the mapping `m`.
spec fn entries_match(es: Seq<ChromRegions>, m: Map<Seq<u8>, Multiset<(u64, u64)>>) -> bool {
    &&& forall|j: int, k: int| 0 <= j < k < es.len() ==> es[j].name@ != es[k].name@
    &&& forall|j: int|
        0 <= j < es.len() ==> m.contains_key(#[trigger] es[j].name@) && stored_intervals(
            es[j].set,
        ) == m[es[j].name@] && all_well_formed(stored_intervals(es[j].set))
}

/// Finds the accumulator entry for a chromosome name, if any.
fn find_group(groups: &Vec<(Vec<u8>, Vec<Interval>)>, name: &Vec<u8>) -> (o: Option<usize>)
    ensures
        match o {
            Some(j) => j < groups@.len() && groups@[j as int].0@ == name@,
            None => forall|j: int| 0 <= j < groups@.len() ==> (#[trigger] groups@[j].0@) != name@,
        },
{
    let mut j: usize = 0;
    while j < groups.len()
        invariant
            j <= groups@.len(),
            forall|k: int| 0 <= k < j ==> (#[trigger] groups@[k].0@) != name@,
        decreases groups@.len() - j,
    {
        if bytes_eq(&groups[j].0, name) {
            return Some(j);
        }
        j += 1;
    }
    None
}

impl RegionIndex {
    /// Every chromosome name appears in at most one entry, and every stored
    /// interval pair is well-formed.
    #[verifier::type_invariant]
    spec fn wf(self) -> bool {
        &&& forall|i: int, j: int|
            0 <= i < j < self.entries@.len() ==> self.entries@[i].name@ != self.entries@[j].name@
        &&& forall|j: int|
            0 <= j < self.entries@.len() ==> all_well_formed(
                stored_intervals(#[trigger] self.entries@[j].set),
            )
    }

    /// Whether the index holds an entry for chromosome `c`.
    pub closed spec fn has_chrom(self, c: Seq<u8>) -> bool {
        exists|j: int| 0 <= j < self.entries@.len() && (#[trigger] self.entries@[j].name@) == c
    }

    /// The position of chromosome `c`'s entry.
    spec fn chrom_index(self, c: Seq<u8>) -> int {
        choose|j: int| 0 <= j < self.entries@.len() && (#[trigger] self.entries@[j].name@) == c
    }

    /// The number of stored intervals for `chrom` that overlap `[start, end)`;
    /// zero for a chromosome the index has no entry for.
    pub open spec fn spec_query(self, chrom: Seq<u8>, start: u64, end: u64) -> nat {
        if self@.contains_key(chrom) {
            overlap_count(self@[chrom], start, end)
        } else {
            0
        }
    }

    /// Builds the index from the lines of an interval file. Fails with a
    /// `ParseError` naming the first line that does not decompose into
    /// `(chromosome, start, end)` with `end >= start`; duplicate and
    /// overlapping intervals are kept as given.
    pub fn build(lines: &Vec<Vec<u8>>) -> (r: Result<RegionIndex, ParseError>)
        ensures
            ({
                let ls = lines@.map_values(|l: Vec<u8>| l@);
                match r {
                    Ok(idx) => (forall|i: int| 0 <= i < ls.len() ==> line_ok(#[trigger] ls[i]))
                        && idx@ == group_lines(ls),
                    Err(e) => e.line < ls.len() && !line_ok(ls[e.line as int]) && (forall|i: int|
                        0 <= i < e.line ==> line_ok(#[trigger] ls[i])),
                }
            }),
    {
        let ghost ls = lines@.map_values(|l: Vec<u8>| l@);
        let mut groups: Vec<(Vec<u8>, Vec<Interval>)> = Vec::new();
        let mut i: usize = 0;
        proof {
            assert(ls.take(0) =~= Seq::<Seq<u8>>::empty());
        }
        while i < lines.len()
            invariant
                i <= lines@.len(),
                ls == lines@.map_values(|l: Vec<u8>| l@),
                forall|k: int| 0 <= k < i ==> line_ok(#[trigger] ls[k]),
                groups_match(groups@, group_lines(ls.take(i as int))),
            decreases lines@.len() - i,
        {
            let ghost g = group_lines(ls.take(i as int));
            let parsed = parse_bed_line(&lines[i]);
            proof {
                assert(ls[i as int] == lines@[i as int]@);
            }
            let (chrom, a, b) = match parsed {
                None => {
                    return Err(ParseError { line: i });
                },
                Some(t) => t,
            };
            if b < a {
                return Err(ParseError { line: i });
            }
            let ghost gnext = group_lines(ls.take(i as int + 1));
            proof {
                assert(ls.take(i as int + 1).drop_last() =~= ls.take(i as int));
                assert(ls.take(i as int + 1).last() == ls[i as int]);
                assert(spec_parse_line(ls[i as int]) == Some((chrom@, a, b)));
                assert(gnext == g.insert(
                    chrom@,
                    (if g.contains_key(chrom@) {
                        g[chrom@]
                    } else {
                        Multiset::empty()
                    }).insert((a, b)),
                ));
            }
            let iv = Interval { start: a, stop: b };
            match find_group(&groups, &chrom) {
                Some(j) => {
                    let ghost old_groups = groups@;
                    let mut entry = groups.remove(j);
                    let ghost old_ivs = entry.1@;
                    entry.1.push(iv);
                    groups.insert(j, entry);
                    proof {
                        assert(groups@ =~= old_groups.update(
                            j as int,
                            (old_groups[j as int].0, entry.1),
                        ));
                        broadcast use vstd::seq_lib::group_to_multiset_ensures;

                        assert(entry.1@ == old_ivs.push(iv));
                        assert(entry.1@.map_values(|x: Interval| (x.start, x.stop)) =~= old_ivs
                            .map_values(|x: Interval| (x.start, x.stop)).push((a, b)));
                        assert(group_pairs(entry.1@) == group_pairs(old_ivs).insert((a, b)));
                        assert(groups_match(groups@, gnext)) by {
                            assert forall|c: Seq<u8>| gnext.contains_key(c) implies exists|k: int|
                                0 <= k < groups@.len() && (#[trigger] groups@[k].0@) == c by {
                                if c == chrom@ {
                                    assert(groups@[j as int].0@ == c);
                                } else {
                                    assert(g.contains_key(c));
                                    let k = choose|k: int|
                                        0 <= k < old_groups.len() && (#[trigger] old_groups[k].0@)
                                            == c;
                                    assert(groups@[k].0@ == c);
                                }
                            }
                        }
                    }
                },
                None => {
                    proof {
                        if g.contains_key(chrom@) {
                            let k = choose|k: int|
                                0 <= k < groups@.len() && (#[trigger] groups@[k].0@) == chrom@;
                            assert(false);
                        }
                    }
                    let ghost old_groups = groups@;
                    let mut ivs: Vec<Interval> = Vec::new();
                    ivs.push(iv);
                    groups.push((chrom, ivs));
                    proof {
                        broadcast use vstd::seq_lib::group_to_multiset_ensures;
                        broadcast use vstd::multiset::lemma_multiset_empty_len;

                        assert(ivs@ == Seq::<Interval>::empty().push(iv));
                        assert(ivs@.map_values(|x: Interval| (x.start, x.stop)) =~= Seq::<(
                            u64,
                            u64,
                        )>::empty().push((a, b)));
                        assert(Seq::<(u64, u64)>::empty().to_multiset().len() == 0);
                        assert(Seq::<(u64, u64)>::empty().to_multiset() =~= Multiset::<(
                            u64,
                            u64,
                        )>::empty());
                        assert(group_pairs(ivs@) == Multiset::<(u64, u64)>::empty().insert((a, b)));
                        assert(groups@ == old_groups.push((chrom, ivs)));
                        assert(groups_match(groups@, gnext)) by {
                            assert forall|c: Seq<u8>| gnext.contains_key(c) implies exists|k: int|
                                0 <= k < groups@.len() && (#[trigger] groups@[k].0@) == c by {
                                if c == chrom@ {
                                    assert(groups@[old_groups.len() as int].0@ == c);
                                } else {
                                    assert(g.contains_key(c));
                                    let k = choose|k: int|
                                        0 <= k < old_groups.len() && (#[trigger] old_groups[k].0@)
                                            == c;
                                    assert(groups@[k].0@ == c);
                                }
                            }
                        }
                    }
                },
            }
            i += 1;
        }
        proof {
            assert(ls.take(ls.len() as int) =~= ls);
        }
        let ghost g = group_lines(ls);
        let mut entries: Vec<ChromRegions> = Vec::new();
        while groups.len() > 0
            invariant
                entries_match(entries@, g),
                forall|j: int, k: int|
                    0 <= j < groups@.len() && 0 <= k < groups@[j].1@.len() ==> (
                    #[trigger] groups@[j].1@[k]).start <= groups@[j].1@[k].stop,
                forall|j: int, k: int|
                    0 <= j < k < groups@.len() ==> groups@[j].0@ != groups@[k].0@,
                forall|j: int|
                    0 <= j < groups@.len() ==> g.contains_key(#[trigger] groups@[j].0@)
                        && group_pairs(groups@[j].1@) == g[groups@[j].0@],
                forall|j: int, k: int|
                    0 <= j < entries@.len() && 0 <= k < groups@.len() ==> entries@[j].name@
                        != groups@[k].0@,
                forall|c: Seq<u8>|
                    g.contains_key(c) ==> (exists|j: int|
                        0 <= j < entries@.len() && (#[trigger] entries@[j].name@) == c) || (exists|
                        j: int,
                    |
                        0 <= j < groups@.len() && (#[trigger] groups@[j].0@) == c),
            decreases groups@.len(),
        {
            let ghost old_groups = groups@;
            let ghost old_entries = entries@;
            let (name, ivs) = groups.remove(0);
            let ghost ivs_view = ivs@;
            let set = IntervalSet::new(ivs);
            proof {
                broadcast use vstd::seq_lib::group_to_multiset_ensures;

                assert(stored_intervals(set) == group_pairs(ivs_view));
                assert(all_well_formed(stored_intervals(set))) by {
                    assert forall|p: (u64, u64)| stored_intervals(set).contains(p) implies p.0
                        <= p.1 by {
                        let mapped = ivs_view.map_values(|x: Interval| (x.start, x.stop));
                        assert(mapped.to_multiset().count(p) > 0);
                        assert(mapped.contains(p));
                        let k = choose|k: int| 0 <= k < mapped.len() && mapped[k] == p;
                        assert(old_groups[0].1@[k] == ivs_view[k]);
                        assert(p == (ivs_view[k].start, ivs_view[k].stop));
                    }
                }
            }
            entries.push(ChromRegions { name, set });
            proof {
                assert(entries@ == old_entries.push(
                    ChromRegions { name: entries@.last().name, set },
                ));
                assert(groups@ =~= old_groups.drop_first());
                assert forall|c: Seq<u8>| g.contains_key(c) implies (exists|j: int|
                    0 <= j < entries@.len() && (#[trigger] entries@[j].name@) == c) || (exists|
                    j: int,
                |
                    0 <= j < groups@.len() && (#[trigger] groups@[j].0@) == c) by {
                    if exists|j: int|
                        0 <= j < old_entries.len() && (#[trigger] old_entries[j].name@) == c {
                        let j = choose|j: int|
                            0 <= j < old_entries.len() && (#[trigger] old_entries[j].name@) == c;
                        assert(entries@[j].name@ == c);
                    } else {
                        let j = choose|j: int|
                            0 <= j < old_groups.len() && (#[trigger] old_groups[j].0@) == c;
                        if j == 0 {
                            assert(entries@[old_entries.len() as int].name@ == c);
                        } else {
                            assert(groups@[j - 1].0@ == c);
                        }
                    }
                }
            }
        }
        proof {
            assert forall|j: int| 0 <= j < entries@.len() implies all_well_formed(
                stored_intervals(#[trigger] entries@[j].set),
            ) by {
                assert(g.contains_key(entries@[j].name@));
            }
        }
        let idx = RegionIndex { entries };
        proof {
            assert(idx@ =~= g) by {
                assert forall|c: Seq<u8>| #[trigger] idx@.contains_key(c) implies g.contains_key(
                    c,
                ) by {
                    let j = idx.chrom_index(c);
                    assert(idx.entries@[j].name@ == c);
                }
                assert forall|c: Seq<u8>| #[trigger] g.contains_key(c) implies idx@.contains_key(
                    c,
                ) && idx@[c] == g[c] by {
                    let j = choose|j: int|
                        0 <= j < idx.entries@.len() && (#[trigger] idx.entries@[j].name@) == c;
                    assert(idx.has_chrom(c));
                    let w = idx.chrom_index(c);
                    assert(0 <= w < idx.entries@.len() && idx.entries@[w].name@ == c);
                    assert(w == j || idx.entries@[w].name@ != idx.entries@[j].name@);
                    assert(stored_intervals(idx.entries@[w].set) == g[c]);
                }
            }
        }
        Ok(idx)
    }

    /// Counts the stored intervals for `chrom` overlapping the half-open span
    /// `[start, end)`; a chromosome absent from the index answers zero.
    pub fn query(&self, chrom: &Vec<u8>, start: u64, end: u64) -> (r: usize)
        requires
            start < end,
        ensures
            r == self.spec_query(chrom@, start, end),
    {
        proof {
            use_type_invariant(&*self);
        }
        let mut j: usize = 0;
        while j < self.entries.len()
            invariant
                self.wf(),
                j <= self.entries@.len(),
                start < end,
                forall|k: int| 0 <= k < j ==> (#[trigger] self.entries@[k].name@) != chrom@,
            decreases self.entries@.len() - j,
        {
            if bytes_eq(&self.entries[j].name, chrom) {
                let r = self.entries[j].set.count(start, end);
                proof {
                    assert(self.entries@[j as int].name@ == chrom@);
                    assert(self.has_chrom(chrom@));
                    let w = self.chrom_index(chrom@);
                    assert(0 <= w < self.entries@.len() && self.entries@[w].name@ == chrom@);
                    assert(w == j || self.entries@[w].name@ != self.entries@[j as int].name@);
                    assert(self@.contains_key(chrom@));
                    assert(self@[chrom@] == stored_intervals(self.entries@[j as int].set));
                }
                return r;
            }
            j += 1;
        }
        proof {
            assert(!self.has_chrom(chrom@));
            assert(!self@.contains_key(chrom@));
        }
        0
    }
}

impl View for RegionIndex {
    type V = Map<Seq<u8>, Multiset<(u64, u64)>>;

    /// The mapping from chromosome name to the multiset of its stored
    /// interval pairs.
    closed spec fn view(&self) -> Map<Seq<u8>, Multiset<(u64, u64)>> {
        Map::new(
            |c: Seq<u8>| self.has_chrom(c),
            |c: Seq<u8>| stored_intervals(self.entries@[self.chrom_index(c)].set),
        )
    }
}

} // verus!
