//! Per-prefix metadata: the regional-registry allocation record, the
//! observed BGP origin record, and the rule that merges a new record into
//! an existing one.

use vstd::prelude::*;

use crate::text::{dec_str, parse_u64_dec, push_u64_dec, str_eq};

verus! {

/// A regional internet registry.
#[derive(Clone, Copy, Debug, PartialEq, Eq, Structural)]
pub enum Rir {
    Afrinic,
    Apnic,
    Arin,
    Lacnic,
    RipeNcc,
    Unknown,
}

/// The registry named by a registry field of a dataset row.
pub open spec fn rir_of_str(s: Seq<char>) -> Rir {
    if s == "afrinic"@ {
        Rir::Afrinic
    } else if s == "apnic"@ {
        Rir::Apnic
    } else if s == "arin"@ {
        Rir::Arin
    } else if s == "lacnic"@ {
        Rir::Lacnic
    } else if s == "ripencc"@ {
        Rir::RipeNcc
    } else {
        Rir::Unknown
    }
}

/// The identifier a registry carries in rendered output.
pub open spec fn rir_json_id(r: Rir) -> Seq<char> {
    match r {
        Rir::Afrinic => "afrinic"@,
        Rir::Apnic => "apnic"@,
        Rir::Arin => "arin"@,
        Rir::Lacnic => "lacnic"@,
        Rir::RipeNcc => "ripe"@,
        Rir::Unknown => "riswhois"@,
    }
}

/// The display name of a registry.
pub open spec fn rir_name(r: Rir) -> Seq<char> {
    match r {
        Rir::Afrinic => "AFRINIC"@,
        Rir::Apnic => "APNIC"@,
        Rir::Arin => "ARIN"@,
        Rir::Lacnic => "LACNIC"@,
        Rir::RipeNcc => "RIPE NCC"@,
        Rir::Unknown => "Unknown"@,
    }
}

impl Rir {
    /// The registry named by a registry field of a dataset row; anything
    /// unrecognised maps to `Unknown`.
    pub fn match_from_str(s: &str) -> (r: Self)
        ensures
            r == rir_of_str(s@),
    {
        if str_eq(s, "afrinic") {
            Self::Afrinic
        } else if str_eq(s, "apnic") {
            Self::Apnic
        } else if str_eq(s, "arin") {
            Self::Arin
        } else if str_eq(s, "lacnic") {
            Self::Lacnic
        } else if str_eq(s, "ripencc") {
            Self::RipeNcc
        } else {
            Self::Unknown
        }
    }

    /// The identifier this registry carries in rendered output.
    pub fn to_json_id(self) -> (r: String)
        ensures
            r@ == rir_json_id(self),
    {
        match self {
            Rir::Afrinic => "afrinic".to_owned(),
            Rir::Apnic => "apnic".to_owned(),
            Rir::Arin => "arin".to_owned(),
            Rir::Lacnic => "lacnic".to_owned(),
            Rir::RipeNcc => "ripe".to_owned(),
            Rir::Unknown => "riswhois".to_owned(),
        }
    }

    /// The display name of this registry.
    pub fn to_string(self) -> (r: String)
        ensures
            r@ == rir_name(self),
    {
        match self {
            Rir::Afrinic => "AFRINIC".to_owned(),
            Rir::Apnic => "APNIC".to_owned(),
            Rir::Arin => "ARIN".to_owned(),
            Rir::Lacnic => "LACNIC".to_owned(),
            Rir::RipeNcc => "RIPE NCC".to_owned(),
            Rir::Unknown => "Unknown".to_owned(),
        }
    }
}

/// An autonomous system number.
#[derive(Clone, Copy, Debug, PartialEq, Eq, Structural)]
pub struct Asn(u32);

impl View for Asn {
    type V = u32;

    closed spec fn view(&self) -> u32 {
        self.0
    }
}

/// An input that a parser rejects.
#[derive(Clone, Copy, Debug, PartialEq, Eq, Structural)]
pub struct MalformedInput;

impl Asn {
    /// Parses a plain decimal autonomous system number. Fails exactly when
    /// the input is not a run of decimal digits whose value fits in 32
    /// bits.
    pub fn from_str(as_str: &str) -> (r: Result<Asn, MalformedInput>)
        ensures
            r matches Ok(a) ==> crate::text::is_dec_seq(as_str@) && a@ as nat == crate::text::dec_val(as_str@) && crate::text::dec_val(as_str@) <= u32::MAX,
            r is Err ==> !crate::text::is_dec_seq(as_str@) || crate::text::dec_val(as_str@) > u32::MAX,
    {
        match parse_u64_dec(as_str) {
            Some(v) => {
                if v <= u32::MAX as u64 {
                    Ok(Asn(v as u32))
                } else {
                    Err(MalformedInput)
                }
            },
            None => Err(MalformedInput),
        }
    }

    /// The numeric value of this number.
    pub fn value(&self) -> (r: u32)
        ensures
            r == self@,
    {
        self.0
    }

    /// The textual form of this number, `AS` followed by its decimal
    /// digits.
    pub fn to_string(self) -> (r: String)
        ensures
            r@ == "AS"@ + dec_str(self@ as nat),
    {
        let mut s = "AS".to_owned();
        push_u64_dec(&mut s, self.0 as u64);
        s
    }
}

/// An ordered list of autonomous system numbers; duplicates are permitted
/// and insertion order is preserved.
#[derive(Debug)]
pub struct AsnArray(pub Vec<Asn>);

impl Clone for AsnArray {
    fn clone(&self) -> (r: Self)
        ensures
            r.0@ == self.0@,
    {
        let mut v: Vec<Asn> = Vec::new();
        let mut i: usize = 0;
        while i < self.0.len()
            invariant
                0 <= i <= self.0.len(),
                v@ == self.0@.subrange(0, i as int),
            decreases self.0.len() - i,
        {
            v.push(self.0[i]);
            proof {
                assert(v@ =~= self.0@.subrange(0, i + 1));
            }
            i = i + 1;
        }
        proof {
            assert(self.0@.subrange(0, self.0@.len() as int) =~= self.0@);
        }
        AsnArray(v)
    }
}

/// The values of a sequence of autonomous system numbers.
pub open spec fn asn_views(s: Seq<Asn>) -> Seq<u32> {
    s.map_values(|a: Asn| a@)
}

impl View for AsnArray {
    type V = Seq<u32>;

    open spec fn view(&self) -> Seq<u32> {
        asn_views(self.0@)
    }
}

/// The observed BGP origins of a prefix.
#[derive(Debug)]
pub struct RisWhoisRecord {
    pub origin_asns: AsnArray,
}

impl Clone for RisWhoisRecord {
    fn clone(&self) -> (r: Self)
        ensures
            r.origin_asns.0@ == self.origin_asns.0@,
    {
        RisWhoisRecord { origin_asns: self.origin_asns.clone() }
    }
}

/// The allocation record of a prefix: the administrative group it was
/// delegated under, and the registry that delegated it.
#[derive(Debug)]
pub struct RirDelExtRecord {
    pub group_id: String,
    pub rir: Rir,
}

impl Clone for RirDelExtRecord {
    fn clone(&self) -> (r: Self)
        ensures
            r == *self,
    {
        RirDelExtRecord { group_id: self.group_id.clone(), rir: self.rir }
    }
}

impl RirDelExtRecord {
    pub fn new(group_id: String, rir: Rir) -> (r: Self)
        ensures
            r@.group_id == group_id@,
            r@.rir == rir,
    {
        RirDelExtRecord { group_id, rir }
    }
}

/// The mathematical value of an allocation record.
pub struct AllocView {
    pub group_id: Seq<char>,
    pub rir: Rir,
}

impl View for RirDelExtRecord {
    type V = AllocView;

    open spec fn view(&self) -> AllocView {
        AllocView { group_id: self.group_id@, rir: self.rir }
    }
}

/// The mathematical value of a full per-prefix record.
pub struct RecView {
    pub alloc: Option<AllocView>,
    pub origin: Option<Seq<u32>>,
}

/// The annotation a stored prefix carries: an optional allocation record
/// and an optional origin record, coming from disjoint datasets.
#[derive(Debug)]
pub struct ExtPrefixRecord(pub Option<RirDelExtRecord>, pub Option<RisWhoisRecord>);

impl Clone for ExtPrefixRecord {
    fn clone(&self) -> (r: Self)
        ensures
            r@ == self@,
    {
        let alloc = match &self.0 {
            Some(a) => Some(a.clone()),
            None => None,
        };
        let origin = match &self.1 {
            Some(o) => Some(o.clone()),
            None => None,
        };
        ExtPrefixRecord(alloc, origin)
    }
}

impl View for ExtPrefixRecord {
    type V = RecView;

    open spec fn view(&self) -> RecView {
        RecView {
            alloc: match self.0 {
                Some(a) => Some(a@),
                None => None,
            },
            origin: match self.1 {
                Some(o) => Some(o.origin_asns@),
                None => None,
            },
        }
    }
}

impl Default for ExtPrefixRecord {
    /// A record with neither sub-record.
    fn default() -> (r: Self)
        ensures
            r@.alloc is None,
            r@.origin is None,
    {
        ExtPrefixRecord(None, None)
    }
}

/// The merge rule for a prefix seen again: a new allocation record
/// replaces the old one, and a new origin record appends its list to the
/// old one (or is installed as given if there was none).
pub open spec fn merge_rec(old: RecView, upd: RecView) -> RecView {
    RecView {
        alloc: match upd.alloc {
            Some(a) => Some(a),
            None => old.alloc,
        },
        origin: match upd.origin {
            Some(u) => match old.origin {
                Some(o) => Some(o + u),
                None => Some(u),
            },
            None => old.origin,
        },
    }
}

impl ExtPrefixRecord {
    /// Merges `update_record` into `self` under the merge rule.
    pub fn merge_update(&mut self, update_record: ExtPrefixRecord)
        ensures
            final(self)@ == merge_rec(old(self)@, update_record@),
    {
        let ExtPrefixRecord(upd_alloc, upd_origin) = update_record;
        if upd_alloc.is_some() {
            self.0 = upd_alloc;
        }
        if upd_origin.is_some() {
            match &mut self.1 {
                Some(ris_whois_rec) => {
                    if let Some(mut update_ris_rec) = upd_origin {
                        let ghost old_asns = ris_whois_rec.origin_asns@;
                        let ghost upd_asns = update_ris_rec.origin_asns@;
                        ris_whois_rec.origin_asns.0.append(&mut update_ris_rec.origin_asns.0);
                        proof {
                            assert(ris_whois_rec.origin_asns@ =~= old_asns + upd_asns);
                        }
                    }
                },
                None => {
                    self.1 = upd_origin;
                },
            }
        }
    }
}

} // verus!
