//! The row rules of the two bulk-load datasets.
//!
//! The allocation dataset comes as pipe-delimited rows
//! `registry|cc|type|start|count_or_len|date|status|group_id`; the origin
//! dataset as rows `address|length|asn`. What to do with a row — skip it,
//! reject it, or insert a prefix of one family — is decided here; reading
//! the file and turning the address text into its numeric form stay with
//! the caller.

use vstd::prelude::*;

use crate::meta::{
    rir_of_str, AllocView, Asn, AsnArray, ExtPrefixRecord, MalformedInput, RirDelExtRecord,
    RisWhoisRecord, Rir,
};
use crate::text::{dec_val, is_dec_seq, parse_u64_dec, str_eq};

verus! {

/// What an allocation row asks for: nothing, or one insert in one family.
#[derive(Debug)]
pub enum AllocRowPlan {
    /// The row is a comment, a summary, a reserved or available range, a
    /// row without a group, or of a kind the store does not hold.
    Skip,
    /// Insert the address written in the row's start field, with this
    /// length and record, into the 32-bit family.
    V4 { len: u8, meta: ExtPrefixRecord },
    /// The same for the 128-bit family.
    V6 { len: u8, meta: ExtPrefixRecord },
}

/// How an allocation row is classified.
pub enum RowOutcome {
    Malformed,
    Skipped,
    V4Row,
    V6Row,
}

/// The character sequences of a row's fields.
pub open spec fn row_views(fields: Seq<String>) -> Seq<Seq<char>> {
    fields.map_values(|s: String| s@)
}

/// The classification of an allocation row: comments, summaries, reserved
/// and available ranges and rows without a group are skipped; a row too
/// short to classify, or whose count or length field is not a number that
/// fits, is malformed; the rest insert into the family the type field
/// names, and a type field naming neither family is skipped.
pub open spec fn alloc_row_outcome(fs: Seq<Seq<char>>) -> RowOutcome {
    if fs.len() == 0 {
        RowOutcome::Malformed
    } else if fs[0].len() > 0 && fs[0][0] == '#' {
        RowOutcome::Skipped
    } else if fs.len() >= 6 && fs[5] == "summary"@ {
        RowOutcome::Skipped
    } else if fs.len() < 7 {
        RowOutcome::Malformed
    } else if fs[6] == "reserved"@ || fs[6] == "available"@ {
        RowOutcome::Skipped
    } else if fs.len() < 8 {
        RowOutcome::Skipped
    } else if fs[2] == "ipv4"@ {
        if is_dec_seq(fs[4]) && dec_val(fs[4]) <= u32::MAX {
            RowOutcome::V4Row
        } else {
            RowOutcome::Malformed
        }
    } else if fs[2] == "ipv6"@ {
        if is_dec_seq(fs[4]) && dec_val(fs[4]) <= 255 {
            RowOutcome::V6Row
        } else {
            RowOutcome::Malformed
        }
    } else {
        RowOutcome::Skipped
    }
}

/// The allocation record an allocation row carries.
pub open spec fn alloc_row_alloc(fs: Seq<Seq<char>>) -> AllocView {
    AllocView { group_id: fs[7], rir: rir_of_str(fs[0]) }
}

/// Classifies one allocation row. For a row of the 32-bit family the
/// prefix length is derived from the address count: a count of
/// 2^(32 - len) addresses has 31 - (32 - len) leading zero bits, so the
/// length is the count's leading-zero count plus one. For the 128-bit
/// family the field holds the length itself.
pub fn alloc_row_plan(fields: &Vec<String>) -> (r: Result<AllocRowPlan, MalformedInput>)
    ensures
        r is Err <==> alloc_row_outcome(row_views(fields@)) is Malformed,
        r matches Ok(p) ==> (p is Skip <==> alloc_row_outcome(row_views(fields@)) is Skipped),
        alloc_row_outcome(row_views(fields@)) is V4Row ==> {
            &&& r matches Ok(p)
            &&& p matches AllocRowPlan::V4 { len, meta }
            &&& len as nat == vstd::std_specs::bits::u32_leading_zeros(
                dec_val(row_views(fields@)[4]) as u32,
            ) + 1
            &&& meta@.alloc == Some(alloc_row_alloc(row_views(fields@)))
            &&& meta@.origin is None
        },
        alloc_row_outcome(row_views(fields@)) is V6Row ==> {
            &&& r matches Ok(p)
            &&& p matches AllocRowPlan::V6 { len, meta }
            &&& len as nat == dec_val(row_views(fields@)[4])
            &&& meta@.alloc == Some(alloc_row_alloc(row_views(fields@)))
            &&& meta@.origin is None
        },
{
    let ghost fs = row_views(fields@);
    if fields.len() == 0 {
        return Err(MalformedInput);
    }
    let f0 = &fields[0];
    if f0.as_str().unicode_len() > 0 && f0.as_str().get_char(0) == '#' {
        return Ok(AllocRowPlan::Skip);
    }
    if fields.len() >= 6 && str_eq(fields[5].as_str(), "summary") {
        return Ok(AllocRowPlan::Skip);
    }
    if fields.len() < 7 {
        return Err(MalformedInput);
    }
    if str_eq(fields[6].as_str(), "reserved") || str_eq(fields[6].as_str(), "available") {
        return Ok(AllocRowPlan::Skip);
    }
    if fields.len() < 8 {
        return Ok(AllocRowPlan::Skip);
    }
    let rir = Rir::match_from_str(fields[0].as_str());
    let group_id = fields[7].clone();
    let meta = ExtPrefixRecord(Some(RirDelExtRecord::new(group_id, rir)), None);
    if str_eq(fields[2].as_str(), "ipv4") {
        match parse_u64_dec(fields[4].as_str()) {
            Some(count) => {
                if count <= u32::MAX as u64 {
                    proof {
                        broadcast use vstd::std_specs::bits::axiom_u32_leading_zeros;
                    }
                    let len: u8 = ((count as u32).leading_zeros() + 1) as u8;
                    Ok(AllocRowPlan::V4 { len, meta })
                } else {
                    Err(MalformedInput)
                }
            },
            None => Err(MalformedInput),
        }
    } else if str_eq(fields[2].as_str(), "ipv6") {
        match parse_u64_dec(fields[4].as_str()) {
            Some(len) => {
                if len <= 255 {
                    Ok(AllocRowPlan::V6 { len: len as u8, meta })
                } else {
                    Err(MalformedInput)
                }
            },
            None => Err(MalformedInput),
        }
    } else {
        Ok(AllocRowPlan::Skip)
    }
}

/// Reads one origin row's length and number fields: the record to insert
/// holds that single number. Fails exactly when the length is not a
/// decimal number up to 255 or the number is not a decimal number that
/// fits in 32 bits.
pub fn ris_row_plan(len_field: &str, asn_field: &str) -> (r: Result<
    (u8, ExtPrefixRecord),
    MalformedInput,
>)
    ensures
        r is Ok <==> is_dec_seq(len_field@) && dec_val(len_field@) <= 255 && is_dec_seq(asn_field@)
            && dec_val(asn_field@) <= u32::MAX,
        r matches Ok((len, meta)) ==> {
            &&& len == dec_val(len_field@)
            &&& meta@.alloc is None
            &&& meta@.origin == Some(seq![dec_val(asn_field@) as u32])
        },
{
    let len = match parse_u64_dec(len_field) {
        Some(v) => {
            if v <= 255 {
                v as u8
            } else {
                return Err(MalformedInput);
            }
        },
        None => {
            return Err(MalformedInput);
        },
    };
    let asn = match Asn::from_str(asn_field) {
        Ok(a) => a,
        Err(e) => {
            return Err(e);
        },
    };
    let mut asns: Vec<Asn> = Vec::new();
    asns.push(asn);
    let ghost asn_list = asns@;
    let meta = ExtPrefixRecord(None, Some(RisWhoisRecord { origin_asns: AsnArray(asns) }));
    proof {
        assert(asn_list =~= seq![asn]);
        assert(crate::meta::asn_views(asn_list) =~= seq![dec_val(asn_field@) as u32]);
    }
    Ok((len, meta))
}

} // verus!
