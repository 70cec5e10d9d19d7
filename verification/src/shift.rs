//! The pure per-record coordinate-shift transform for assay-specific
//! insertion-site correction: shifts a properly paired read's start, end,
//! template length and mate position by a fixed profile, clamps the result
//! to the chromosome, and drops reads whose span collapses.
use vstd::prelude::*;

verus! {

/// Shift applied to the start of a forward, non-leading read.
pub const SHIFT_0: i64 = 4;

/// Shift applied to the end of a reverse, leading read.
pub const SHIFT_1: i64 = -5;

/// Shift applied (negated) to the end of a reverse, non-leading read.
pub const SHIFT_2: i64 = 5;

/// Shift applied (negated) to the start of a forward, leading read.
pub const SHIFT_3: i64 = -4;

/// What `sanity_check_coordinates` computes: a degenerate span is first
/// widened to one base (towards the start for a reverse read, towards the
/// end otherwise), then clamped to `[0, chromsize]`; a span still shorter
/// than one base after clamping is rejected.
pub open spec fn spec_sanity_check(start: int, end: int, reverse: bool, chromsize: int) -> Option<
    (int, int),
> {
    let s1 = if end - start < 1 && reverse {
        end - 1
    } else {
        start
    };
    let e1 = if end - start < 1 && !reverse {
        start + 1
    } else {
        end
    };
    let s2 = if s1 < 0 {
        0
    } else {
        s1
    };
    let e2 = if e1 > chromsize {
        chromsize
    } else {
        e1
    };
    if e2 - s2 >= 1 {
        Some((s2, e2))
    } else {
        None
    }
}

/// Repairs and clamps a shifted span, rejecting spans that collapse below
/// one base.
pub fn sanity_check_coordinates(start: i64, end: i64, reverse: bool, chromsize: i64) -> (r: Option<
    (i64, i64),
>)
    requires
        -0x2000000000000000 <= start <= 0x2000000000000000,
        -0x2000000000000000 <= end <= 0x2000000000000000,
        -0x2000000000000000 <= chromsize <= 0x2000000000000000,
    ensures
        ({
            let s = spec_sanity_check(start as int, end as int, reverse, chromsize as int);
            match r {
                Some(p) => s == Some((p.0 as int, p.1 as int)),
                None => s is None,
            }
        }),
{
    let mut start = start;
    let mut end = end;
    if end - start < 1 {
        match reverse {
            true => start = end - 1,
            false => end = start + 1,
        }
    }
    if start < 0 {
        start = 0
    }
    if end > chromsize {
        end = chromsize
    }
    if end - start >= 1 {
        Some((start, end))
    } else {
        None
    }
}

/// The shifted coordinates of a read that survives the transform.
#[derive(Clone, Copy, PartialEq, Eq, Structural, Debug)]
pub struct ShiftedRead {
    /// New alignment start.
    pub pos: i64,
    /// New alignment end (the span covers `[pos, end)` as a pure match).
    pub end: i64,
    /// New template length.
    pub insert_size: i64,
    /// New mate alignment start.
    pub mate_pos: i64,
}

/// What `shift_read` computes. A read that is not properly paired, or whose
/// shifted span fails the sanity check, is dropped.
pub open spec fn spec_shift_read(
    proper_pair: bool,
    pos: int,
    seq_len: int,
    insert_size: int,
    reverse: bool,
    first_in_template: bool,
    mate_pos: int,
    chromsize: int,
) -> Option<(int, int, int, int)> {
    if !proper_pair {
        None
    } else {
        let end0 = pos + seq_len;
        let start1 = if !reverse && first_in_template {
            pos - SHIFT_3
        } else if !reverse && !first_in_template {
            pos + SHIFT_0
        } else {
            pos
        };
        let end1 = if reverse && first_in_template {
            end0 + SHIFT_1
        } else if reverse && !first_in_template {
            end0 - SHIFT_2
        } else {
            end0
        };
        let dtlen: int = if first_in_template == reverse {
            SHIFT_1 - SHIFT_0
        } else {
            SHIFT_3 - SHIFT_2
        };
        match spec_sanity_check(start1, end1, reverse, chromsize) {
            None => None,
            Some(p) => {
                let tlen = if insert_size > 0 {
                    insert_size + dtlen
                } else {
                    insert_size - dtlen
                };
                let mpos = if reverse && first_in_template {
                    mate_pos + SHIFT_0
                } else if reverse && !first_in_template {
                    mate_pos - SHIFT_3
                } else {
                    mate_pos
                };
                Some((p.0, p.1, tlen, mpos))
            },
        }
    }
}

/// Applies the insertion-site shift to one read's coordinates. Returns the
/// replacement coordinates, or `None` when the read is to be dropped (not
/// properly paired, or its shifted span collapses).
pub fn shift_read(
    proper_pair: bool,
    pos: i64,
    seq_len: usize,
    insert_size: i64,
    reverse: bool,
    first_in_template: bool,
    mate_pos: i64,
    chromsize: i64,
) -> (r: Option<ShiftedRead>)
    requires
        -0x1000000000000000 <= pos <= 0x1000000000000000,
        seq_len <= 0x1000000000000000,
        -0x1000000000000000 <= chromsize <= 0x1000000000000000,
        i64::MIN + 16 <= insert_size <= i64::MAX - 16,
        -0x1000000000000000 <= mate_pos <= 0x1000000000000000,
    ensures
        ({
            let s = spec_shift_read(
                proper_pair,
                pos as int,
                seq_len as int,
                insert_size as int,
                reverse,
                first_in_template,
                mate_pos as int,
                chromsize as int,
            );
            match r {
                Some(p) => s == Some((p.pos as int, p.end as int, p.insert_size as int, p.mate_pos as int)),
                None => s is None,
            }
        }),
{
    if !proper_pair {
        return None;
    }
    let mut tlen = insert_size;
    let mut start = pos;
    let mut end = pos + (seq_len as i64);
    let dtlen = match (reverse, first_in_template) {
        (true, true) => {
            end = end + SHIFT_1;
            SHIFT_1 - SHIFT_0
        },
        (true, false) => {
            end = end - SHIFT_2;
            SHIFT_3 - SHIFT_2
        },
        (false, true) => {
            start = start - SHIFT_3;
            SHIFT_3 - SHIFT_2
        },
        (false, false) => {
            start = start + SHIFT_0;
            SHIFT_1 - SHIFT_0
        },
    };
    match sanity_check_coordinates(start, end, reverse, chromsize) {
        None => None,
        Some((new_start, new_end)) => {
            if tlen > 0 {
                tlen = tlen + dtlen;
            } else {
                tlen = tlen - dtlen;
            }
            let mut mpos = mate_pos;
            match (reverse, first_in_template) {
                (true, true) => {
                    mpos = mpos + SHIFT_0;
                },
                (true, false) => {
                    mpos = mpos - SHIFT_3;
                },
                _ => {},
            }
            Some(ShiftedRead { pos: new_start, end: new_end, insert_size: tlen, mate_pos: mpos })
        },
    }
}

} // verus!
