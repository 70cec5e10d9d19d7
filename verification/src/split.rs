//! The pure per-record classification-and-routing rules that bucket records
//! into output streams by reference-name prefix (sample versus spike-in),
//! and the counters kept while splitting.
use vstd::prelude::*;

verus! {

use crate::bytes::bytes_starts_with;

/// Records below this mapping quality are routed aside.
pub const MIN_MAPQ: u8 = 30;

/// Counters of how a split run classified its records.
#[derive(Debug)]
pub struct SplitStats {
    pub filename: String,
    pub n_unmapped_reads: u64,
    pub n_qcfail_reads: u64,
    pub n_duplicate_reads: u64,
    pub n_secondary_reads: u64,
    pub n_low_maq: u64,
    pub n_both_genomes: u64,
    pub n_exogenous: u64,
    pub n_endogenous: u64,
}

impl SplitStats {
    /// Fresh counters, all zero.
    pub fn new(filename: String) -> (s: Self)
        ensures
            s.filename@ == filename@,
            s.n_unmapped_reads == 0,
            s.n_qcfail_reads == 0,
            s.n_duplicate_reads == 0,
            s.n_secondary_reads == 0,
            s.n_low_maq == 0,
            s.n_both_genomes == 0,
            s.n_exogenous == 0,
            s.n_endogenous == 0,
    {
        Self {
            filename,
            n_unmapped_reads: 0,
            n_qcfail_reads: 0,
            n_duplicate_reads: 0,
            n_secondary_reads: 0,
            n_low_maq: 0,
            n_both_genomes: 0,
            n_exogenous: 0,
            n_endogenous: 0,
        }
    }

    /// Counts one unmapped record.
    pub fn add_unmapped(&mut self)
        requires
            old(self).n_unmapped_reads < u64::MAX,
        ensures
            *final(self) == (SplitStats {
                n_unmapped_reads: (old(self).n_unmapped_reads + 1) as u64,
                ..*old(self)
            }),
    {
        self.n_unmapped_reads += 1;
    }

    /// Counts one record that failed quality control.
    pub fn add_qcfail(&mut self)
        requires
            old(self).n_qcfail_reads < u64::MAX,
        ensures
            *final(self) == (SplitStats {
                n_qcfail_reads: (old(self).n_qcfail_reads + 1) as u64,
                ..*old(self)
            }),
    {
        self.n_qcfail_reads += 1;
    }

    /// Counts one duplicate record.
    pub fn add_duplicate(&mut self)
        requires
            old(self).n_duplicate_reads < u64::MAX,
        ensures
            *final(self) == (SplitStats {
                n_duplicate_reads: (old(self).n_duplicate_reads + 1) as u64,
                ..*old(self)
            }),
    {
        self.n_duplicate_reads += 1;
    }

    /// Counts one secondary alignment.
    pub fn add_secondary(&mut self)
        requires
            old(self).n_secondary_reads < u64::MAX,
        ensures
            *final(self) == (SplitStats {
                n_secondary_reads: (old(self).n_secondary_reads + 1) as u64,
                ..*old(self)
            }),
    {
        self.n_secondary_reads += 1;
    }

    /// Counts one record of low mapping quality.
    pub fn add_low_maq(&mut self)
        requires
            old(self).n_low_maq < u64::MAX,
        ensures
            *final(self) == (SplitStats { n_low_maq: (old(self).n_low_maq + 1) as u64, ..*old(self) }),
    {
        self.n_low_maq += 1;
    }

    /// Counts one read pair straddling both genomes.
    pub fn add_both_genomes(&mut self)
        requires
            old(self).n_both_genomes < u64::MAX,
        ensures
            *final(self) == (SplitStats {
                n_both_genomes: (old(self).n_both_genomes + 1) as u64,
                ..*old(self)
            }),
    {
        self.n_both_genomes += 1;
    }

    /// Counts one spike-in (exogenous) record.
    pub fn add_exogenous(&mut self)
        requires
            old(self).n_exogenous < u64::MAX,
        ensures
            *final(self) == (SplitStats {
                n_exogenous: (old(self).n_exogenous + 1) as u64,
                ..*old(self)
            }),
    {
        self.n_exogenous += 1;
    }

    /// Counts one sample (endogenous) record.
    pub fn add_endogenous(&mut self)
        requires
            old(self).n_endogenous < u64::MAX,
        ensures
            *final(self) == (SplitStats {
                n_endogenous: (old(self).n_endogenous + 1) as u64,
                ..*old(self)
            }),
    {
        self.n_endogenous += 1;
    }
}

/// How one record is classified while splitting sample from spike-in.
#[derive(Clone, Copy, PartialEq, Eq, Structural, Debug)]
pub enum RecordClass {
    Unmapped,
    QcFail,
    Duplicate,
    Secondary,
    LowMapq,
    Exogenous,
    BothGenomes,
    Endogenous,
}

/// The output container a class of records is written to: screened-out
/// records all land in the unmapped stream; mapped pairs land with their
/// genome of origin.
#[derive(Clone, Copy, PartialEq, Eq, Structural, Debug)]
pub enum OutputStream {
    Unmapped,
    Exogenous,
    BothGenomes,
    Endogenous,
}

/// The classification rule: screening flags are checked first, in order;
/// then a pair with a mapped mate is bucketed by which of the two reads lie
/// on prefixed (spike-in) references; a pair with an unmapped mate is
/// bucketed by this read alone.
pub open spec fn spec_classify(
    unmapped: bool,
    qc_fail: bool,
    duplicate: bool,
    secondary: bool,
    mapq: u8,
    mate_unmapped: bool,
    r1_exogenous: bool,
    r2_exogenous: bool,
) -> RecordClass {
    if unmapped {
        RecordClass::Unmapped
    } else if qc_fail {
        RecordClass::QcFail
    } else if duplicate {
        RecordClass::Duplicate
    } else if secondary {
        RecordClass::Secondary
    } else if mapq < MIN_MAPQ {
        RecordClass::LowMapq
    } else if !mate_unmapped {
        if r1_exogenous && r2_exogenous {
            RecordClass::Exogenous
        } else if r1_exogenous || r2_exogenous {
            RecordClass::BothGenomes
        } else {
            RecordClass::Endogenous
        }
    } else {
        if r1_exogenous {
            RecordClass::Exogenous
        } else {
            RecordClass::Endogenous
        }
    }
}

/// Classifies one record from its flags, mapping quality, and whether its
/// reference name (and its mate's) carry the spike-in prefix.
pub fn classify_record(
    unmapped: bool,
    qc_fail: bool,
    duplicate: bool,
    secondary: bool,
    mapq: u8,
    mate_unmapped: bool,
    r1_exogenous: bool,
    r2_exogenous: bool,
) -> (c: RecordClass)
    ensures
        c == spec_classify(
            unmapped,
            qc_fail,
            duplicate,
            secondary,
            mapq,
            mate_unmapped,
            r1_exogenous,
            r2_exogenous,
        ),
{
    if unmapped {
        RecordClass::Unmapped
    } else if qc_fail {
        RecordClass::QcFail
    } else if duplicate {
        RecordClass::Duplicate
    } else if secondary {
        RecordClass::Secondary
    } else if mapq < MIN_MAPQ {
        RecordClass::LowMapq
    } else if !mate_unmapped {
        if r1_exogenous && r2_exogenous {
            RecordClass::Exogenous
        } else if r1_exogenous || r2_exogenous {
            RecordClass::BothGenomes
        } else {
            RecordClass::Endogenous
        }
    } else {
        if r1_exogenous {
            RecordClass::Exogenous
        } else {
            RecordClass::Endogenous
        }
    }
}

/// The stream each class is written to.
pub open spec fn spec_stream_of(c: RecordClass) -> OutputStream {
    match c {
        RecordClass::Unmapped => OutputStream::Unmapped,
        RecordClass::QcFail => OutputStream::Unmapped,
        RecordClass::Duplicate => OutputStream::Unmapped,
        RecordClass::Secondary => OutputStream::Unmapped,
        RecordClass::LowMapq => OutputStream::Unmapped,
        RecordClass::Exogenous => OutputStream::Exogenous,
        RecordClass::BothGenomes => OutputStream::BothGenomes,
        RecordClass::Endogenous => OutputStream::Endogenous,
    }
}

/// Picks the output stream for a classified record.
pub fn stream_of(c: RecordClass) -> (o: OutputStream)
    ensures
        o == spec_stream_of(c),
{
    match c {
        RecordClass::Unmapped => OutputStream::Unmapped,
        RecordClass::QcFail => OutputStream::Unmapped,
        RecordClass::Duplicate => OutputStream::Unmapped,
        RecordClass::Secondary => OutputStream::Unmapped,
        RecordClass::LowMapq => OutputStream::Unmapped,
        RecordClass::Exogenous => OutputStream::Exogenous,
        RecordClass::BothGenomes => OutputStream::BothGenomes,
        RecordClass::Endogenous => OutputStream::Endogenous,
    }
}

/// Whether `s` carries the spike-in prefix.
pub fn is_exogenous_name(s: &Vec<u8>, prefix: &Vec<u8>) -> (r: bool)
    ensures
        r == prefix@.is_prefix_of(s@),
{
    bytes_starts_with(s, prefix)
}

/// The positions (in header order) of the reference names carrying the
/// spike-in prefix.
pub open spec fn exogenous_positions(ns: Seq<Seq<u8>>, prefix: Seq<u8>) -> Seq<int> {
    Seq::new(ns.len(), |i: int| i).filter(|i: int| prefix.is_prefix_of(ns[i]))
}

/// The positions of the reference names without the prefix.
pub open spec fn endogenous_positions(ns: Seq<Seq<u8>>, prefix: Seq<u8>) -> Seq<int> {
    Seq::new(ns.len(), |i: int| i).filter(|i: int| !prefix.is_prefix_of(ns[i]))
}

/// Partitions the header's reference-sequence names into endogenous
/// (unprefixed) and exogenous (prefixed) positions, each in header order.
pub fn partition_by_prefix(names: &Vec<Vec<u8>>, prefix: &Vec<u8>) -> (r: (Vec<usize>, Vec<usize>))
    ensures
        ({
            let ns = names@.map_values(|n: Vec<u8>| n@);
            r.0@.map_values(|u: usize| u as int) == endogenous_positions(ns, prefix@)
                && r.1@.map_values(|u: usize| u as int) == exogenous_positions(ns, prefix@)
        }),
{
    let ghost ns = names@.map_values(|n: Vec<u8>| n@);
    let mut endo: Vec<usize> = Vec::new();
    let mut exo: Vec<usize> = Vec::new();
    let mut i: usize = 0;
    proof {
        reveal(Seq::filter);
        assert(Seq::new(0, |k: int| k) =~= Seq::<int>::empty());
    }
    while i < names.len()
        invariant
            i <= names@.len(),
            ns == names@.map_values(|n: Vec<u8>| n@),
            endo@.map_values(|u: usize| u as int) == Seq::new(i as nat, |k: int| k).filter(
                |k: int| !prefix@.is_prefix_of(ns[k]),
            ),
            exo@.map_values(|u: usize| u as int) == Seq::new(i as nat, |k: int| k).filter(
                |k: int| prefix@.is_prefix_of(ns[k]),
            ),
        decreases names@.len() - i,
    {
        proof {
            broadcast use vstd::prelude::Seq::lemma_filter_push;

            assert(Seq::new(i as nat + 1, |k: int| k) =~= Seq::new(i as nat, |k: int| k).push(
                i as int,
            ));
        }
        let ghost old_endo = endo@;
        let ghost old_exo = exo@;
        if bytes_starts_with(&names[i], prefix) {
            exo.push(i);
            proof {
                assert(exo@.map_values(|u: usize| u as int) =~= old_exo.map_values(
                    |u: usize| u as int,
                ).push(i as int));
            }
        } else {
            endo.push(i);
            proof {
                assert(endo@.map_values(|u: usize| u as int) =~= old_endo.map_values(
                    |u: usize| u as int,
                ).push(i as int));
            }
        }
        i += 1;
    }
    proof {
        assert(Seq::new(names@.len(), |k: int| k) =~= Seq::new(ns.len(), |k: int| k));
    }
    (endo, exo)
}

} // verus!
