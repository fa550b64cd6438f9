//! The dual-stack store: one prefix table per address family, the
//! per-dataset timestamps, and the queries the service answers.

use vstd::prelude::*;

use crate::addr::{Addr, Prefix};
use crate::meta::{Asn, ExtPrefixRecord, RirDelExtRecord};
use crate::records::{InsertError, MatchOptions, QueryResult, RecordSet};
use crate::table::{
    asn_match_seq, match_result_ok, related_seq, spec_insert, Item, PrefixTable,
};
use crate::time::{now_iso8601, TimeStamps};

verus! {

/// What a search keyed on origin numbers looks for.
#[derive(Clone, Copy, Debug, PartialEq, Eq, Structural)]
pub enum SearchType {
    /// All stored prefixes whose origin list names any of the given
    /// numbers.
    PrefixesByBgpAsn,
}

/// The label a search type carries in rendered output.
pub open spec fn search_type_label(t: SearchType) -> Seq<char> {
    match t {
        SearchType::PrefixesByBgpAsn => "prefixes-by-bgp-asn"@,
    }
}

impl SearchType {
    /// The label this search type carries in rendered output.
    pub fn to_string(self) -> (r: String)
        ensures
            r@ == search_type_label(self),
    {
        match self {
            SearchType::PrefixesByBgpAsn => "prefixes-by-bgp-asn".to_owned(),
        }
    }
}

/// The options of a search keyed on origin numbers.
#[derive(Clone, Copy, Debug, PartialEq, Eq, Structural)]
pub struct SearchByAsnOptions {
    pub search_type: SearchType,
}

/// The answer of a search keyed on origin numbers.
#[derive(Debug)]
pub struct AsnQueryResult {
    pub prefixes: RecordSet,
}

/// The store: both family tables, the time of the last load, and the
/// per-dataset timestamps.
pub struct Store {
    v4: PrefixTable,
    v6: PrefixTable,
    updated: String,
    pub timestamps: TimeStamps,
}

impl Store {
    /// The stored items of the 32-bit family, in insertion order.
    pub closed spec fn spec_v4(&self) -> Seq<Item> {
        self.v4@
    }

    /// The stored items of the 128-bit family, in insertion order.
    pub closed spec fn spec_v6(&self) -> Seq<Item> {
        self.v6@
    }

    /// The time of the last load, as recorded.
    pub closed spec fn spec_updated(&self) -> Seq<char> {
        self.updated@
    }

    /// The per-dataset timestamps.
    pub closed spec fn spec_timestamps(&self) -> TimeStamps {
        self.timestamps
    }

    /// The stored items of the query's family.
    pub open spec fn items_for(&self, prefix: Prefix) -> Seq<Item> {
        match prefix.addr {
            Addr::V4(_) => self.spec_v4(),
            Addr::V6(_) => self.spec_v6(),
        }
    }

    /// Well-formed: each family table well-formed and of its own width.
    pub closed spec fn wf(&self) -> bool {
        &&& self.v4.wf()
        &&& self.v4.spec_width() == crate::V4_WIDTH
        &&& self.v6.wf()
        &&& self.v6.spec_width() == crate::V6_WIDTH
    }

    /// The time of the last load.
    pub fn updated(&self) -> (r: String)
        ensures
            r@ == self.spec_updated(),
    {
        self.updated.clone()
    }

    /// Notes the present time as the time of the last load. The tables and
    /// timestamps are untouched; what the clock returned is not specified.
    pub fn touch_updated(&mut self)
        ensures
            final(self).wf() == old(self).wf(),
            final(self).spec_v4() == old(self).spec_v4(),
            final(self).spec_v6() == old(self).spec_v6(),
            final(self).spec_timestamps() == old(self).spec_timestamps(),
    {
        self.updated = now_iso8601();
    }

    /// The number of stored prefixes, per family.
    pub fn prefix_counts(&self) -> (r: (usize, usize))
        ensures
            r.0 == self.spec_v4().len(),
            r.1 == self.spec_v6().len(),
    {
        (self.v4.len(), self.v6.len())
    }

    /// Stores `meta` at the node for `prefix` in the table of its family,
    /// merging when a record is already there. Fails exactly when the
    /// prefix length exceeds the family's bit width, leaving the store
    /// unchanged.
    pub fn insert(&mut self, prefix: Prefix, meta: ExtPrefixRecord) -> (r: Result<
        (),
        InsertError,
    >)
        requires
            old(self).wf(),
        ensures
            final(self).wf(),
            r is Ok <==> prefix.len <= prefix.addr.spec_width(),
            r is Err ==> r == Err::<(), InsertError>(InsertError::LengthOutOfRange)
                && final(self).spec_v4() == old(self).spec_v4()
                && final(self).spec_v6() == old(self).spec_v6(),
            prefix.addr is V4 ==> final(self).spec_v6() == old(self).spec_v6(),
            prefix.addr is V6 ==> final(self).spec_v4() == old(self).spec_v4(),
            r is Ok && prefix.addr is V4 ==> final(self).spec_v4() == spec_insert(
                old(self).spec_v4(),
                prefix,
                meta@,
            ),
            r is Ok && prefix.addr is V6 ==> final(self).spec_v6() == spec_insert(
                old(self).spec_v6(),
                prefix,
                meta@,
            ),
            final(self).spec_timestamps() == old(self).spec_timestamps(),
            final(self).spec_updated() == old(self).spec_updated(),
    {
        match prefix.addr {
            Addr::V4(_) => self.v4.insert(prefix, meta),
            Addr::V6(_) => self.v6.insert(prefix, meta),
        }
    }

    /// Answers one query against the table of the query's family; see
    /// [`match_result_ok`] for everything the result promises.
    pub fn match_longest_prefix(&self, prefix: Prefix, options: &MatchOptions) -> (r: QueryResult)
        requires
            self.wf(),
        ensures
            match_result_ok(self.items_for(prefix), prefix, *options, r),
    {
        match prefix.addr {
            Addr::V4(_) => self.v4.match_prefix(&prefix, options),
            Addr::V6(_) => self.v6.match_prefix(&prefix, options),
        }
    }

    /// All stored prefixes whose allocation group is the one of `meta`,
    /// with their current records: the 32-bit family first, then the
    /// 128-bit family, each in insertion order.
    pub fn get_related_prefixes(&self, meta: &RirDelExtRecord) -> (r: RecordSet)
        ensures
            r@ == related_seq(self.spec_v4(), meta@.group_id) + related_seq(
                self.spec_v6(),
                meta@.group_id,
            ),
    {
        let mut pairs = self.v4.related_prefixes(meta.group_id.as_str());
        let mut pairs6 = self.v6.related_prefixes(meta.group_id.as_str());
        pairs.append(&mut pairs6);
        let r = RecordSet::from_pairs(pairs);
        proof {
            assert(r@ =~= related_seq(self.spec_v4(), meta@.group_id) + related_seq(
                self.spec_v6(),
                meta@.group_id,
            ));
        }
        r
    }

    /// All stored prefixes whose origin list names any of the given
    /// numbers, with their current records: the 32-bit family first, then
    /// the 128-bit family, each in insertion order.
    pub fn get_prefixes_for_bgp_asn(&self, asns: &Vec<Asn>, _search_options: &SearchByAsnOptions)
        -> (r: AsnQueryResult)
        ensures
            r.prefixes@ == asn_match_seq(self.spec_v4(), crate::meta::asn_views(asns@))
                + asn_match_seq(self.spec_v6(), crate::meta::asn_views(asns@)),
    {
        let mut pairs = self.v4.prefixes_for_asns(asns);
        let mut pairs6 = self.v6.prefixes_for_asns(asns);
        pairs.append(&mut pairs6);
        let prefixes = RecordSet::from_pairs(pairs);
        proof {
            assert(prefixes@ =~= asn_match_seq(self.spec_v4(), crate::meta::asn_views(asns@))
                + asn_match_seq(self.spec_v6(), crate::meta::asn_views(asns@)));
        }
        AsnQueryResult { prefixes }
    }
}

impl Default for Store {
    /// An empty store: both tables empty, no timestamps, the present time
    /// as the time of the last load.
    fn default() -> (r: Self)
        ensures
            r.wf(),
            r.spec_v4() =~= Seq::<Item>::empty(),
            r.spec_v6() =~= Seq::<Item>::empty(),
            r.spec_timestamps().afrinic is None,
            r.spec_timestamps().apnic is None,
            r.spec_timestamps().arin is None,
            r.spec_timestamps().lacnic is None,
            r.spec_timestamps().ripencc is None,
            r.spec_timestamps().riswhois is None,
    {
        Store {
            v4: PrefixTable::new(crate::V4_WIDTH),
            v6: PrefixTable::new(crate::V6_WIDTH),
            updated: now_iso8601(),
            timestamps: Default::default(),
        }
    }
}

} // verus!
