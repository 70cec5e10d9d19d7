//! Verified parser for the tab-delimited interval file: each line carries at
//! least three columns `chromosome, start, end` (0-based, half-open).
use vstd::prelude::*;

verus! {

/// The field separator of the interval file.
pub const TAB: u8 = 9;

pub open spec fn is_digit(b: u8) -> bool {
    48 <= b && b <= 57
}

pub open spec fn digit_val(b: u8) -> nat {
    (b - 48) as nat
}

/// A non-empty, all-digit byte string.
pub open spec fn is_dec(s: Seq<u8>) -> bool {
    s.len() > 0 && forall|i: int| 0 <= i < s.len() ==> is_digit(s[i])
}

/// The value of a digit string read in base ten.
pub open spec fn dec_val(s: Seq<u8>) -> nat
    decreases s.len(),
{
    if s.len() == 0 {
        0
    } else {
        dec_val(s.drop_last()) * 10 + digit_val(s.last())
    }
}

/// Splits `s` on tab bytes, `cur` being the part of the current field read so
/// far. A split always yields at least one (possibly empty) field.
pub open spec fn tab_split_from(s: Seq<u8>, cur: Seq<u8>) -> Seq<Seq<u8>>
    decreases s.len(),
{
    if s.len() == 0 {
        seq![cur]
    } else if s.first() == TAB {
        seq![cur] + tab_split_from(s.drop_first(), Seq::empty())
    } else {
        tab_split_from(s.drop_first(), cur.push(s.first()))
    }
}

/// The fields of a line, split on tab bytes.
pub open spec fn tab_split(s: Seq<u8>) -> Seq<Seq<u8>> {
    tab_split_from(s, Seq::empty())
}

/// What a well-formed interval-file line decomposes into: its first three
/// tab-separated fields as `(chromosome, start, end)`, the two coordinates
/// being digit strings whose values fit in a `u64`. Extra columns are
/// ignored. `None` on any other line.
pub open spec fn spec_parse_line(s: Seq<u8>) -> Option<(Seq<u8>, u64, u64)> {
    let fs = tab_split(s);
    if fs.len() >= 3 && is_dec(fs[1]) && is_dec(fs[2]) && dec_val(fs[1]) <= u64::MAX && dec_val(
        fs[2],
    ) <= u64::MAX {
        Some((fs[0], dec_val(fs[1]) as u64, dec_val(fs[2]) as u64))
    } else {
        None
    }
}

/// A line the index builder accepts: it decomposes and its span is
/// well-formed (`end >= start`).
pub open spec fn line_ok(s: Seq<u8>) -> bool {
    match spec_parse_line(s) {
        Some(t) => t.1 <= t.2,
        None => false,
    }
}

/// Splits a line into its tab-separated fields.
pub fn split_tabs(line: &Vec<u8>) -> (fields: Vec<Vec<u8>>)
    ensures
        fields@.map_values(|f: Vec<u8>| f@) == tab_split(line@),
{
    let ghost view_of = |f: Vec<u8>| f@;
    let mut fields: Vec<Vec<u8>> = Vec::new();
    let mut cur: Vec<u8> = Vec::new();
    let mut i: usize = 0;
    proof {
        assert(line@.skip(0) =~= line@);
    }
    while i < line.len()
        invariant
            i <= line@.len(),
            tab_split(line@) == fields@.map_values(view_of) + tab_split_from(
                line@.skip(i as int),
                cur@,
            ),
            view_of == (|f: Vec<u8>| f@),
        decreases line@.len() - i,
    {
        let b = line[i];
        proof {
            assert(line@.skip(i as int).len() > 0);
            assert(line@.skip(i as int).first() == line@[i as int]);
            assert(line@.skip(i as int).drop_first() =~= line@.skip(i as int + 1));
        }
        if b == TAB {
            proof {
                assert(tab_split_from(line@.skip(i as int), cur@) == seq![cur@]
                    + tab_split_from(line@.skip(i as int + 1), Seq::empty()));
            }
            let ghost old_fields = fields@;
            let ghost old_cur = cur@;
            fields.push(cur);
            cur = Vec::new();
            proof {
                assert(fields@.map_values(view_of) =~= old_fields.map_values(view_of).push(
                    old_cur,
                ));
                assert(old_fields.map_values(view_of) + (seq![old_cur] + tab_split_from(
                    line@.skip(i as int + 1),
                    Seq::empty(),
                )) =~= fields@.map_values(view_of) + tab_split_from(
                    line@.skip(i as int + 1),
                    Seq::empty(),
                ));
            }
        } else {
            proof {
                assert(tab_split_from(line@.skip(i as int), cur@) == tab_split_from(
                    line@.skip(i as int + 1),
                    cur@.push(b),
                ));
            }
            cur.push(b);
        }
        i += 1;
    }
    proof {
        assert(line@.skip(line@.len() as int).len() == 0);
        assert(tab_split_from(line@.skip(line@.len() as int), cur@) == seq![cur@]);
    }
    let ghost old_fields = fields@;
    let ghost old_cur = cur@;
    fields.push(cur);
    proof {
        assert(fields@.map_values(view_of) =~= old_fields.map_values(view_of).push(old_cur));
        assert(old_fields.map_values(view_of) + seq![old_cur] =~= fields@.map_values(view_of));
    }
    fields
}

/// The value of `s.take(i)` never exceeds the value of the whole digit string.
proof fn lemma_dec_val_prefix_le(s: Seq<u8>, i: int)
    requires
        0 <= i <= s.len(),
    ensures
        dec_val(s.take(i)) <= dec_val(s),
    decreases s.len() - i,
{
    if i == s.len() {
        assert(s.take(i) =~= s);
    } else {
        assert(s.take(i + 1).drop_last() =~= s.take(i));
        assert(s.take(i + 1).last() == s[i]);
        assert(dec_val(s.take(i + 1)) == dec_val(s.take(i)) * 10 + digit_val(s[i]));
        assert(dec_val(s.take(i)) * 10 >= dec_val(s.take(i))) by {
            assert(dec_val(s.take(i)) * 10 == dec_val(s.take(i)) + dec_val(s.take(i)) * 9);
        }
        lemma_dec_val_prefix_le(s, i + 1);
    }
}

/// Parses a base-ten `u64` from a byte string; `None` when the string is
/// empty, holds a non-digit, or its value does not fit.
pub fn parse_u64(s: &Vec<u8>) -> (r: Option<u64>)
    ensures
        match r {
            Some(v) => is_dec(s@) && dec_val(s@) <= u64::MAX && v == dec_val(s@),
            None => !(is_dec(s@) && dec_val(s@) <= u64::MAX),
        },
{
    if s.len() == 0 {
        return None;
    }
    let mut val: u64 = 0;
    let mut i: usize = 0;
    proof {
        assert(s@.take(0) =~= Seq::<u8>::empty());
    }
    while i < s.len()
        invariant
            0 < s@.len(),
            i <= s@.len(),
            forall|k: int| 0 <= k < i ==> is_digit(s@[k]),
            val == dec_val(s@.take(i as int)),
        decreases s@.len() - i,
    {
        let b = s[i];
        if b < 48 || b > 57 {
            assert(!is_digit(s@[i as int]));
            return None;
        }
        let d: u64 = (b - 48) as u64;
        proof {
            assert(s@.take(i as int + 1).drop_last() =~= s@.take(i as int));
            assert(s@.take(i as int + 1).last() == s@[i as int]);
            assert(dec_val(s@.take(i as int + 1)) == dec_val(s@.take(i as int)) * 10 + digit_val(
                s@[i as int],
            ));
        }
        if val > (u64::MAX - d) / 10 {
            proof {
                let m = (u64::MAX - d) as int;
                assert(m == m / 10 * 10 + m % 10);
                assert(m % 10 < 10);
                assert(val * 10 + d > u64::MAX) by {
                    assert(val >= (u64::MAX - d) / 10 + 1);
                    assert(val * 10 >= ((u64::MAX - d) / 10 + 1) * 10) by {
                        assert(val * 10 - ((u64::MAX - d) / 10 + 1) * 10 == (val - ((u64::MAX - d)
                            / 10 + 1)) * 10) by (nonlinear_arith);
                        assert((val - ((u64::MAX - d) / 10 + 1)) * 10 >= 0) by (nonlinear_arith)
                            requires
                                val >= (u64::MAX - d) / 10 + 1,
                        ;
                    }
                }
                assert(dec_val(s@.take(i as int + 1)) > u64::MAX);
                lemma_dec_val_prefix_le(s@, i as int + 1);
            }
            return None;
        }
        assert(val * 10 + d <= u64::MAX) by {
            assert(val <= (u64::MAX - d) / 10);
            assert(val * 10 <= ((u64::MAX - d) / 10) * 10) by (nonlinear_arith)
                requires
                    val <= (u64::MAX - d) / 10,
            ;
            assert(((u64::MAX - d) / 10) * 10 <= u64::MAX - d);
        };
        val = val * 10 + d;
        i += 1;
    }
    proof {
        assert(s@.take(s@.len() as int) =~= s@);
    }
    Some(val)
}

/// Decomposes an interval-file line into `(chromosome, start, end)`; `None`
/// exactly on the lines `spec_parse_line` rejects.
pub fn parse_bed_line(line: &Vec<u8>) -> (r: Option<(Vec<u8>, u64, u64)>)
    ensures
        match r {
            Some(t) => spec_parse_line(line@) == Some((t.0@, t.1, t.2)),
            None => spec_parse_line(line@) is None,
        },
{
    let mut fields = split_tabs(line);
    let ghost view_of = |f: Vec<u8>| f@;
    proof {
        assert(fields@.map_values(view_of).len() == fields@.len());
        assert forall|k: int| 0 <= k < fields@.len() implies #[trigger] tab_split(line@)[k]
            == fields@[k]@ by {
            assert(fields@.map_values(view_of)[k] == fields@[k]@);
        }
    }
    if fields.len() < 3 {
        return None;
    }
    let start = match parse_u64(&fields[1]) {
        Some(v) => v,
        None => {
            return None;
        },
    };
    let stop = match parse_u64(&fields[2]) {
        Some(v) => v,
        None => {
            return None;
        },
    };
    let chrom = fields.remove(0);
    Some((chrom, start, stop))
}

} // verus!
