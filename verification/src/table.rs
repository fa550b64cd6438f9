//! The per-family prefix store: a table of prefixes with their records,
//! keyed by the significant address bits and the prefix length, with
//! merge-on-insert and longest-prefix-match queries.

use vstd::prelude::*;

use crate::addr::{mask_bits, mask_bits_exec, Prefix};
use crate::meta::{merge_rec, Asn, ExtPrefixRecord, RecView};
use crate::records::{pair_view, InsertError, MatchOptions, MatchType, QueryResult, RecordSet};

verus! {

/// One stored prefix with its record.
#[derive(Debug)]
pub(crate) struct Entry {
    pub(crate) prefix: Prefix,
    pub(crate) meta: ExtPrefixRecord,
}

/// The mathematical value of one stored prefix: the prefix as inserted and
/// the value of its record.
pub struct Item {
    pub prefix: Prefix,
    pub rec: RecView,
}

/// The key an item is stored under: its first `len` address bits.
pub open spec fn item_key(it: Item) -> u128 {
    mask_bits(it.prefix.addr.spec_bits(), it.prefix.len)
}

/// Whether an item sits at the node for the given key bits and length.
pub open spec fn item_matches(it: Item, bits: u128, len: u8) -> bool {
    it.prefix.len == len && item_key(it) == bits
}

/// Whether some item sits at the node for the given key bits and length.
pub open spec fn has_key(s: Seq<Item>, bits: u128, len: u8) -> bool {
    exists|i: int| 0 <= i < s.len() && item_matches(#[trigger] s[i], bits, len)
}

/// The position of the item at the given key bits and length.
pub open spec fn key_idx(s: Seq<Item>, bits: u128, len: u8) -> int {
    choose|i: int| 0 <= i < s.len() && item_matches(#[trigger] s[i], bits, len)
}

/// Whether no two items share a key.
pub open spec fn keys_unique(s: Seq<Item>) -> bool {
    forall|i: int, j: int|
        0 <= i < j < s.len() ==> !(#[trigger] s[i].prefix.len == #[trigger] s[j].prefix.len
            && item_key(s[i]) == item_key(s[j]))
}

/// Under unique keys, any position holding the key is the position
/// [`key_idx`] picks.
pub proof fn lemma_key_idx_unique(s: Seq<Item>, bits: u128, len: u8, i: int)
    requires
        keys_unique(s),
        0 <= i < s.len(),
        item_matches(s[i], bits, len),
    ensures
        has_key(s, bits, len),
        key_idx(s, bits, len) == i,
{
    assert(has_key(s, bits, len));
    let j = key_idx(s, bits, len);
    if i < j {
        assert(!(s[i].prefix.len == s[j].prefix.len && item_key(s[i]) == item_key(s[j])));
    } else if j < i {
        assert(!(s[j].prefix.len == s[i].prefix.len && item_key(s[j]) == item_key(s[i])));
    }
}

/// The table contents after one insert: a merge into the item already at
/// the prefix's node, or a new item at the end.
pub open spec fn spec_insert(s: Seq<Item>, prefix: Prefix, rec: RecView) -> Seq<Item> {
    if has_key(s, prefix.spec_key(), prefix.len) {
        let i = key_idx(s, prefix.spec_key(), prefix.len);
        s.update(i, Item { prefix: s[i].prefix, rec: merge_rec(s[i].rec, rec) })
    } else {
        s.push(Item { prefix, rec })
    }
}

/// Whether the table holds a covering item of length `l` for query `q`:
/// an item whose first `l` bits equal the query's first `l` bits.
pub open spec fn covering_at(s: Seq<Item>, q: Prefix, l: u8) -> bool {
    l <= q.len && has_key(s, mask_bits(q.addr.spec_bits(), l), l)
}

/// The covering item of length `l` for query `q`.
pub open spec fn covering_item(s: Seq<Item>, q: Prefix, l: u8) -> Item {
    s[key_idx(s, mask_bits(q.addr.spec_bits(), l), l)]
}

/// Whether an item is strictly more specific than the query: same family,
/// strictly longer, and contained in the query's address range.
pub open spec fn is_more_specific(it: Item, q: Prefix) -> bool {
    &&& it.prefix.addr.spec_width() == q.addr.spec_width()
    &&& it.prefix.len > q.len
    &&& mask_bits(it.prefix.addr.spec_bits(), q.len) == mask_bits(q.addr.spec_bits(), q.len)
}

/// The returned pair for an item.
pub open spec fn item_pair(it: Item) -> (Prefix, Option<RecView>) {
    (it.prefix, Some(it.rec))
}

/// The covering items of the query with lengths below `bound`, from least
/// to most specific, leaving out the one of length `excl` (the primary
/// match, when the primary match is itself an ancestor).
pub open spec fn less_seq(s: Seq<Item>, q: Prefix, bound: u8, excl: Option<u8>) -> Seq<
    (Prefix, Option<RecView>),
>
    decreases bound,
{
    if bound == 0 {
        Seq::empty()
    } else {
        let l = (bound - 1) as u8;
        less_seq(s, q, l, excl) + (if covering_at(s, q, l) && excl != Some(l) {
            seq![item_pair(covering_item(s, q, l))]
        } else {
            Seq::empty()
        })
    }
}

/// The items strictly more specific than the query, in table order.
pub open spec fn more_seq(s: Seq<Item>, q: Prefix) -> Seq<(Prefix, Option<RecView>)>
    decreases s.len(),
{
    if s.len() == 0 {
        Seq::empty()
    } else {
        more_seq(s.drop_last(), q) + (if is_more_specific(s.last(), q) {
            seq![item_pair(s.last())]
        } else {
            Seq::empty()
        })
    }
}

/// Every pair of [`less_seq`] is the covering item of its own length, the
/// lengths stay below the bound and avoid the excluded one, every covering
/// length below the bound (other than the excluded one) appears, and the
/// lengths are strictly increasing.
pub proof fn lemma_less_seq_props(s: Seq<Item>, q: Prefix, bound: u8, excl: Option<u8>)
    ensures
        forall|k: int|
            0 <= k < less_seq(s, q, bound, excl).len() ==> {
                let p = #[trigger] less_seq(s, q, bound, excl)[k];
                &&& p.0.len < bound
                &&& covering_at(s, q, p.0.len)
                &&& excl != Some(p.0.len)
                &&& p == item_pair(covering_item(s, q, p.0.len))
            },
        forall|l: u8|
            l < bound && #[trigger] covering_at(s, q, l) && excl != Some(l) ==> less_seq(
                s,
                q,
                bound,
                excl,
            ).contains(item_pair(covering_item(s, q, l))),
        forall|k1: int, k2: int|
            0 <= k1 < k2 < less_seq(s, q, bound, excl).len() ==> less_seq(
                s,
                q,
                bound,
                excl,
            )[k1].0.len < less_seq(s, q, bound, excl)[k2].0.len,
    decreases bound,
{
    if bound > 0 {
        let l = (bound - 1) as u8;
        lemma_less_seq_props(s, q, l, excl);
        if covering_at(s, q, l) && excl != Some(l) {
            let it = covering_item(s, q, l);
            assert(item_matches(it, mask_bits(q.addr.spec_bits(), l), l));
        }
        assert forall|l2: u8|
            l2 < bound && #[trigger] covering_at(s, q, l2) && excl != Some(l2) implies less_seq(
            s,
            q,
            bound,
            excl,
        ).contains(item_pair(covering_item(s, q, l2))) by {
            let x = item_pair(covering_item(s, q, l2));
            let prev = less_seq(s, q, l, excl);
            if l2 < l {
                assert(prev.contains(x));
                let k = choose|k: int| 0 <= k < prev.len() && prev[k] == x;
                assert(less_seq(s, q, bound, excl)[k] == x);
            } else {
                assert(less_seq(s, q, bound, excl)[prev.len() as int] == x);
            }
        }
    }
}

/// What a query result promises, clause by clause.
///
/// Under `ExactMatch`, the primary match is the item stored at exactly the
/// query's node, or nothing. Under `LongestMatch`, it is the deepest
/// covering item: no covering item has a greater length than the one
/// returned, and one is returned whenever any covering item exists. The
/// less-specifics are the covering ancestors below the query's length,
/// least specific first with strictly increasing lengths, leaving out the
/// primary match itself; the more-specifics are the items strictly
/// contained in the query, in table order. A query that matches nothing
/// reports `EmptyMatch` and is not an error.
pub open spec fn match_result_ok(s: Seq<Item>, q: Prefix, options: MatchOptions, r: QueryResult) -> bool {
    &&& (options.match_type == MatchType::ExactMatch && covering_at(s, q, q.len) ==> {
        let it = covering_item(s, q, q.len);
        &&& r.prefix == Some(it.prefix)
        &&& r.prefix_meta matches Some(m) && m@ == it.rec
        &&& r.match_type == MatchType::ExactMatch
    })
    &&& (options.match_type == MatchType::ExactMatch && !covering_at(s, q, q.len)
        ==> r.prefix is None && r.prefix_meta is None && r.match_type == MatchType::EmptyMatch)
    &&& (options.match_type == MatchType::LongestMatch ==> {
        &&& (r.prefix is Some <==> exists|l: u8| covering_at(s, q, l))
        &&& (r.prefix matches Some(p) ==> {
            let it = covering_item(s, q, p.len);
            &&& covering_at(s, q, p.len)
            &&& p == it.prefix
            &&& r.prefix_meta matches Some(m) && m@ == it.rec
            &&& forall|l: u8| p.len < l <= q.len ==> !covering_at(s, q, l)
            &&& r.match_type == MatchType::LongestMatch
        })
        &&& (r.prefix is None ==> r.prefix_meta is None && r.match_type == MatchType::EmptyMatch)
    })
    &&& (options.match_type == MatchType::EmptyMatch ==> r.prefix is None && r.prefix_meta is None
        && r.match_type == MatchType::EmptyMatch)
    &&& (options.include_less_specifics ==> r.less_specifics@ == less_seq(
        s,
        q,
        q.len,
        match_excl(r.prefix, q),
    ))
    &&& (!options.include_less_specifics ==> r.less_specifics@.len() == 0)
    &&& (forall|k1: int, k2: int|
        0 <= k1 < k2 < r.less_specifics@.len() ==> (#[trigger] r.less_specifics@[k1]).0.len < (
        #[trigger] r.less_specifics@[k2]).0.len)
    &&& (options.include_more_specifics ==> r.more_specifics@ == more_seq(s, q))
    &&& (!options.include_more_specifics ==> r.more_specifics@.len() == 0)
}

/// Whether an item's allocation record places it in the given group.
pub open spec fn in_group(it: Item, gid: Seq<char>) -> bool {
    match it.rec.alloc {
        Some(a) => a.group_id == gid,
        None => false,
    }
}

/// The items whose allocation group is `gid`, in table order.
pub open spec fn related_seq(s: Seq<Item>, gid: Seq<char>) -> Seq<(Prefix, Option<RecView>)>
    decreases s.len(),
{
    if s.len() == 0 {
        Seq::empty()
    } else {
        related_seq(s.drop_last(), gid) + (if in_group(s.last(), gid) {
            seq![item_pair(s.last())]
        } else {
            Seq::empty()
        })
    }
}

/// Whether an item's origin record names any of the given numbers.
pub open spec fn origin_matches(it: Item, asns: Seq<u32>) -> bool {
    match it.rec.origin {
        Some(o) => exists|i: int, j: int|
            0 <= i < o.len() && 0 <= j < asns.len() && o[i] == asns[j],
        None => false,
    }
}

/// The items whose origin record names any of the given numbers, in table
/// order.
pub open spec fn asn_match_seq(s: Seq<Item>, asns: Seq<u32>) -> Seq<(Prefix, Option<RecView>)>
    decreases s.len(),
{
    if s.len() == 0 {
        Seq::empty()
    } else {
        asn_match_seq(s.drop_last(), asns) + (if origin_matches(s.last(), asns) {
            seq![item_pair(s.last())]
        } else {
            Seq::empty()
        })
    }
}

/// Whether a record's origin list names any of the given numbers.
#[verifier::loop_isolation(false)]
fn origin_intersects(rec: &ExtPrefixRecord, asns: &Vec<Asn>) -> (r: bool)
    ensures
        r == origin_matches(Item { prefix: arbitrary(), rec: rec@ }, crate::meta::asn_views(asns@)),
{
    let ghost vals = crate::meta::asn_views(asns@);
    match &rec.1 {
        None => false,
        Some(o) => {
            let mut i: usize = 0;
            while i < o.origin_asns.0.len()
                invariant
                    0 <= i <= o.origin_asns.0.len(),
                    forall|i2: int, j2: int|
                        #![trigger o.origin_asns@[i2], vals[j2]]
                        0 <= i2 < i && 0 <= j2 < vals.len() ==> o.origin_asns@[i2] != vals[j2],
                decreases o.origin_asns.0.len() - i,
            {
                let mut j: usize = 0;
                while j < asns.len()
                    invariant
                        0 <= j <= asns.len(),
                        forall|j2: int|
                            0 <= j2 < j ==> o.origin_asns@[i as int] != #[trigger] vals[j2],
                    decreases asns.len() - j,
                {
                    if o.origin_asns.0[i].value() == asns[j].value() {
                        proof {
                            assert(rec@.origin == Some(o.origin_asns@));
                            let oseq = rec@.origin->0;
                            let oi = i as int;
                            let oj = j as int;
                            assert(oseq == o.origin_asns@);
                            assert(0 <= oi < oseq.len() && 0 <= oj < vals.len() && oseq[oi]
                                == vals[oj]);
                            assert(origin_matches(Item { prefix: arbitrary(), rec: rec@ }, vals));
                        }
                        return true;
                    }
                    j = j + 1;
                }
                i = i + 1;
            }
            false
        },
    }
}

/// A prefix store for one address family.
pub struct PrefixTable {
    width: u8,
    entries: Vec<Entry>,
}

impl View for PrefixTable {
    type V = Seq<Item>;

    closed spec fn view(&self) -> Seq<Item> {
        self.entries@.map_values(|e: Entry| Item { prefix: e.prefix, rec: e.meta@ })
    }
}

impl PrefixTable {
    /// The bit width of the address family this table stores.
    pub closed spec fn spec_width(&self) -> u8 {
        self.width
    }

    /// Well-formed: a real family width, every item of that family and no
    /// longer than it, and no two items sharing a node.
    pub open spec fn wf(&self) -> bool {
        &&& (self.spec_width() == 32 || self.spec_width() == 128)
        &&& forall|i: int|
            0 <= i < self@.len() ==> (#[trigger] self@[i]).prefix.addr.spec_width()
                == self.spec_width() && self@[i].prefix.len <= self.spec_width()
        &&& keys_unique(self@)
    }

    /// An empty table for the family of the given bit width.
    pub fn new(width: u8) -> (r: Self)
        requires
            width == 32 || width == 128,
        ensures
            r.wf(),
            r@ =~= Seq::<Item>::empty(),
            r.spec_width() == width,
    {
        PrefixTable { width, entries: Vec::new() }
    }

    /// The bit width of the address family this table stores.
    pub fn width(&self) -> (r: u8)
        ensures
            r == self.spec_width(),
    {
        self.width
    }

    /// The number of stored prefixes.
    pub fn len(&self) -> (r: usize)
        ensures
            r == self@.len(),
    {
        self.entries.len()
    }

    /// The position of the entry at the given key bits and length, if any.
    fn find(&self, bits: u128, len: u8) -> (r: Option<usize>)
        ensures
            r matches Some(i) ==> 0 <= i < self@.len() && item_matches(self@[i as int], bits, len),
            r is None ==> !has_key(self@, bits, len),
    {
        let mut i: usize = 0;
        while i < self.entries.len()
            invariant
                0 <= i <= self.entries.len(),
                self@.len() == self.entries@.len(),
                forall|j: int| 0 <= j < i ==> !item_matches(#[trigger] self@[j], bits, len),
            decreases self.entries.len() - i,
        {
            let e = &self.entries[i];
            if e.prefix.len == len && mask_bits_exec(e.prefix.addr.bits(), e.prefix.len) == bits {
                assert(item_matches(self@[i as int], bits, len));
                return Some(i);
            }
            assert(!item_matches(self@[i as int], bits, len));
            i = i + 1;
        }
        None
    }

    /// Stores `meta` at the node for `prefix`, merging when a record is
    /// already there. Fails exactly when the prefix length exceeds the
    /// family's bit width, leaving the table unchanged.
    pub fn insert(&mut self, prefix: Prefix, meta: ExtPrefixRecord) -> (r: Result<(), InsertError>)
        requires
            old(self).wf(),
            prefix.addr.spec_width() == old(self).spec_width(),
        ensures
            final(self).wf(),
            final(self).spec_width() == old(self).spec_width(),
            r is Ok <==> prefix.len <= old(self).spec_width(),
            r matches Ok(()) ==> final(self)@ == spec_insert(old(self)@, prefix, meta@),
            r is Err ==> final(self)@ == old(self)@ && r == Err::<(), InsertError>(
                InsertError::LengthOutOfRange,
            ),
    {
        if prefix.len > self.width {
            return Err(InsertError::LengthOutOfRange);
        }
        let key = mask_bits_exec(prefix.addr.bits(), prefix.len);
        match self.find(key, prefix.len) {
            Some(i) => {
                proof {
                    lemma_key_idx_unique(self@, key, prefix.len, i as int);
                }
                let mut e = self.entries.remove(i);
                e.meta.merge_update(meta);
                self.entries.insert(i, e);
                proof {
                    let s = old(self)@;
                    let ii = key_idx(s, prefix.spec_key(), prefix.len);
                    assert(ii == i as int);
                    assert(self@ =~= s.update(
                        ii,
                        Item { prefix: s[ii].prefix, rec: merge_rec(s[ii].rec, meta@) },
                    ));
                    assert(keys_unique(self@));
                }
            },
            None => {
                self.entries.push(Entry { prefix, meta });
                proof {
                    assert(self@ =~= old(self)@.push(Item { prefix, rec: meta@ }));
                    assert forall|i: int, j: int| 0 <= i < j < self@.len() implies !(self@[i].prefix.len
                        == self@[j].prefix.len && item_key(self@[i]) == item_key(self@[j])) by {
                        if j == self@.len() - 1 {
                            assert(!item_matches(old(self)@[i], key, prefix.len));
                        }
                    }
                }
            },
        }
        Ok(())
    }

    /// The prefixes whose allocation group is `group_id`, each with its
    /// record, in table order.
    pub fn related_prefixes(&self, group_id: &str) -> (r: Vec<(Prefix, Option<ExtPrefixRecord>)>)
        ensures
            r@.map_values(|p: (Prefix, Option<ExtPrefixRecord>)| pair_view(p)) == related_seq(
                self@,
                group_id@,
            ),
    {
        let mut pairs: Vec<(Prefix, Option<ExtPrefixRecord>)> = Vec::new();
        let mut i: usize = 0;
        while i < self.entries.len()
            invariant
                0 <= i <= self.entries.len(),
                self@.len() == self.entries@.len(),
                pairs@.map_values(|p: (Prefix, Option<ExtPrefixRecord>)| pair_view(p))
                    =~= related_seq(self@.subrange(0, i as int), group_id@),
            decreases self.entries.len() - i,
        {
            let e = &self.entries[i];
            let ghost sub = self@.subrange(0, i as int);
            let hit = match &e.meta.0 {
                Some(a) => crate::text::str_eq(a.group_id.as_str(), group_id),
                None => false,
            };
            if hit {
                assert(in_group(self@[i as int], group_id@));
                pairs.push((e.prefix, Some(e.meta.clone())));
            } else {
                assert(!in_group(self@[i as int], group_id@));
            }
            proof {
                assert(self@.subrange(0, i + 1).drop_last() =~= sub);
                assert(self@.subrange(0, i + 1).last() == self@[i as int]);
                assert(pairs@.map_values(|p: (Prefix, Option<ExtPrefixRecord>)| pair_view(p))
                    =~= related_seq(self@.subrange(0, i + 1), group_id@));
            }
            i = i + 1;
        }
        proof {
            assert(self@.subrange(0, self@.len() as int) =~= self@);
        }
        pairs
    }

    /// The prefixes whose origin record names any of the given numbers,
    /// each with its record, in table order.
    pub fn prefixes_for_asns(&self, asns: &Vec<Asn>) -> (r: Vec<(Prefix, Option<ExtPrefixRecord>)>)
        ensures
            r@.map_values(|p: (Prefix, Option<ExtPrefixRecord>)| pair_view(p)) == asn_match_seq(
                self@,
                crate::meta::asn_views(asns@),
            ),
    {
        let ghost vals = crate::meta::asn_views(asns@);
        let mut pairs: Vec<(Prefix, Option<ExtPrefixRecord>)> = Vec::new();
        let mut i: usize = 0;
        while i < self.entries.len()
            invariant
                0 <= i <= self.entries.len(),
                self@.len() == self.entries@.len(),
                vals == crate::meta::asn_views(asns@),
                pairs@.map_values(|p: (Prefix, Option<ExtPrefixRecord>)| pair_view(p))
                    =~= asn_match_seq(self@.subrange(0, i as int), vals),
            decreases self.entries.len() - i,
        {
            let e = &self.entries[i];
            let ghost sub = self@.subrange(0, i as int);
            if origin_intersects(&e.meta, asns) {
                assert(origin_matches(self@[i as int], vals));
                pairs.push((e.prefix, Some(e.meta.clone())));
            } else {
                assert(!origin_matches(self@[i as int], vals));
            }
            proof {
                assert(self@.subrange(0, i + 1).drop_last() =~= sub);
                assert(self@.subrange(0, i + 1).last() == self@[i as int]);
                assert(pairs@.map_values(|p: (Prefix, Option<ExtPrefixRecord>)| pair_view(p))
                    =~= asn_match_seq(self@.subrange(0, i + 1), vals));
            }
            i = i + 1;
        }
        proof {
            assert(self@.subrange(0, self@.len() as int) =~= self@);
        }
        pairs
    }

    /// The deepest stored node on the query's bit path with length at most
    /// `l`, searching downward.
    fn find_longest(&self, qbits: u128, l: u8) -> (r: Option<(usize, u8)>)
        ensures
            r matches Some((i, ml)) ==> ml <= l && 0 <= i < self@.len() && item_matches(
                self@[i as int],
                mask_bits(qbits, ml),
                ml,
            ) && forall|l2: u8| ml < l2 <= l ==> !has_key(self@, mask_bits(qbits, l2), l2),
            r is None ==> forall|l2: u8| l2 <= l ==> !has_key(self@, mask_bits(qbits, l2), l2),
        decreases l,
    {
        match self.find(mask_bits_exec(qbits, l), l) {
            Some(i) => Some((i, l)),
            None => {
                if l == 0 {
                    None
                } else {
                    self.find_longest(qbits, l - 1)
                }
            },
        }
    }

    /// Answers one query: the primary match selected by
    /// `options.match_type`, and the covering ancestors and contained
    /// descendants when requested.
    ///
    /// The primary match under `LongestMatch` is the deepest stored node
    /// on the query's bit path; no stored prefix covers the query more
    /// tightly. The less-specifics run from least to most specific, with
    /// strictly increasing lengths, leaving out the primary match itself.
    pub fn match_prefix(&self, prefix: &Prefix, options: &MatchOptions) -> (r: QueryResult)
        requires
            self.wf(),
            prefix.addr.spec_width() == self.spec_width(),
        ensures
            match_result_ok(self@, *prefix, *options, r),
    {
        let qbits = prefix.addr.bits();
        let mut m_prefix: Option<Prefix> = None;
        let mut m_meta: Option<ExtPrefixRecord> = None;
        let mut m_type: MatchType = MatchType::EmptyMatch;
        match options.match_type {
            MatchType::ExactMatch => {
                match self.find(mask_bits_exec(qbits, prefix.len), prefix.len) {
                    Some(i) => {
                        proof {
                            lemma_key_idx_unique(
                                self@,
                                mask_bits(prefix.addr.spec_bits(), prefix.len),
                                prefix.len,
                                i as int,
                            );
                        }
                        m_prefix = Some(self.entries[i].prefix);
                        m_meta = Some(self.entries[i].meta.clone());
                        m_type = MatchType::ExactMatch;
                    },
                    None => {},
                }
            },
            MatchType::LongestMatch => {
                match self.find_longest(qbits, prefix.len) {
                    Some((i, ml)) => {
                        proof {
                            lemma_key_idx_unique(
                                self@,
                                mask_bits(prefix.addr.spec_bits(), ml),
                                ml,
                                i as int,
                            );
                            assert(covering_at(self@, *prefix, ml));
                            assert(self@[i as int].prefix.len == ml);
                            assert(covering_item(self@, *prefix, ml) == self@[i as int]);
                        }
                        m_prefix = Some(self.entries[i].prefix);
                        m_meta = Some(self.entries[i].meta.clone());
                        m_type = MatchType::LongestMatch;
                    },
                    None => {
                        proof {
                            assert forall|l: u8| !covering_at(self@, *prefix, l) by {
                                if l <= prefix.len {
                                    assert(!has_key(
                                        self@,
                                        mask_bits(prefix.addr.spec_bits(), l),
                                        l,
                                    ));
                                }
                            }
                        }
                    },
                }
            },
            MatchType::EmptyMatch => {},
        }
        let ghost excl = match_excl(m_prefix, *prefix);
        let less_specifics = if options.include_less_specifics {
            let excl_len: Option<u8> = match m_prefix {
                Some(p) => if p.len < prefix.len {
                    Some(p.len)
                } else {
                    None
                },
                None => None,
            };
            assert(excl_len == excl);
            let mut pairs: Vec<(Prefix, Option<ExtPrefixRecord>)> = Vec::new();
            let mut l: u8 = 0;
            while l < prefix.len
                invariant
                    self.wf(),
                    l <= prefix.len,
                    qbits == prefix.addr.spec_bits(),
                    excl_len == excl,
                    pairs@.map_values(|p: (Prefix, Option<ExtPrefixRecord>)| pair_view(p))
                        =~= less_seq(self@, *prefix, l, excl),
                decreases prefix.len - l,
            {
                let skip = match excl_len {
                    Some(e) => e == l,
                    None => false,
                };
                let ghost pairs_before = pairs@;
                if !skip {
                    match self.find(mask_bits_exec(qbits, l), l) {
                        Some(i) => {
                            proof {
                                lemma_key_idx_unique(
                                    self@,
                                    mask_bits(prefix.addr.spec_bits(), l),
                                    l,
                                    i as int,
                                );
                            }
                            pairs.push(
                                (self.entries[i].prefix, Some(self.entries[i].meta.clone())),
                            );
                        },
                        None => {},
                    }
                }
                proof {
                    assert(pairs@.map_values(|p: (Prefix, Option<ExtPrefixRecord>)| pair_view(p))
                        =~= less_seq(self@, *prefix, (l + 1) as u8, excl));
                }
                l = l + 1;
            }
            RecordSet::from_pairs(pairs)
        } else {
            RecordSet::empty()
        };
        let more_specifics = if options.include_more_specifics {
            let qmask = mask_bits_exec(qbits, prefix.len);
            let mut pairs: Vec<(Prefix, Option<ExtPrefixRecord>)> = Vec::new();
            let mut i: usize = 0;
            while i < self.entries.len()
                invariant
                    self.wf(),
                    0 <= i <= self.entries.len(),
                    self@.len() == self.entries@.len(),
                    qbits == prefix.addr.spec_bits(),
                    qmask == mask_bits(prefix.addr.spec_bits(), prefix.len),
                    prefix.addr.spec_width() == self.spec_width(),
                    pairs@.map_values(|p: (Prefix, Option<ExtPrefixRecord>)| pair_view(p))
                        =~= more_seq(self@.subrange(0, i as int), *prefix),
                decreases self.entries.len() - i,
            {
                let e = &self.entries[i];
                let ghost sub = self@.subrange(0, i as int);
                if e.prefix.len > prefix.len && mask_bits_exec(e.prefix.addr.bits(), prefix.len)
                    == qmask {
                    assert(is_more_specific(self@[i as int], *prefix));
                    pairs.push((e.prefix, Some(e.meta.clone())));
                } else {
                    assert(!is_more_specific(self@[i as int], *prefix));
                }
                proof {
                    assert(self@.subrange(0, i + 1).drop_last() =~= sub);
                    assert(self@.subrange(0, i + 1).last() == self@[i as int]);
                    assert(pairs@.map_values(|p: (Prefix, Option<ExtPrefixRecord>)| pair_view(p))
                        =~= more_seq(self@.subrange(0, i + 1), *prefix));
                }
                i = i + 1;
            }
            proof {
                assert(self@.subrange(0, self@.len() as int) =~= self@);
            }
            RecordSet::from_pairs(pairs)
        } else {
            RecordSet::empty()
        };
        proof {
            lemma_less_seq_props(self@, *prefix, prefix.len, excl);
        }
        let r = QueryResult {
            prefix: m_prefix,
            prefix_meta: m_meta,
            match_type: m_type,
            less_specifics,
            more_specifics,
        };
        proof {
            if options.include_less_specifics {
                assert(r.less_specifics@ =~= less_seq(self@, *prefix, prefix.len, excl));
            }
            if options.include_more_specifics {
                assert(r.more_specifics@ =~= more_seq(self@, *prefix));
            }
        }
        r
    }
}

/// The deepest covering length at most `l`, searching downward.
pub open spec fn spec_deepest(s: Seq<Item>, q: Prefix, l: u8) -> Option<u8>
    decreases l,
{
    if covering_at(s, q, l) {
        Some(l)
    } else if l == 0 {
        None
    } else {
        spec_deepest(s, q, (l - 1) as u8)
    }
}

/// The item a query's primary match denotes, if any.
pub open spec fn spec_match_item(s: Seq<Item>, q: Prefix, mt: MatchType) -> Option<Item> {
    match mt {
        MatchType::ExactMatch => if covering_at(s, q, q.len) {
            Some(covering_item(s, q, q.len))
        } else {
            None
        },
        MatchType::LongestMatch => match spec_deepest(s, q, q.len) {
            Some(l) => Some(covering_item(s, q, l)),
            None => None,
        },
        MatchType::EmptyMatch => None,
    }
}

/// The prefix of a query's primary match, if any.
pub open spec fn spec_match_prefix(s: Seq<Item>, q: Prefix, mt: MatchType) -> Option<Prefix> {
    match spec_match_item(s, q, mt) {
        Some(it) => Some(it.prefix),
        None => None,
    }
}

proof fn lemma_deepest_some(s: Seq<Item>, q: Prefix, bound: u8, m: u8)
    requires
        m <= bound,
        covering_at(s, q, m),
        forall|l: u8| m < l <= bound ==> !covering_at(s, q, l),
    ensures
        spec_deepest(s, q, bound) == Some(m),
    decreases bound,
{
    if bound > m {
        assert(!covering_at(s, q, bound));
        lemma_deepest_some(s, q, (bound - 1) as u8, m);
    }
}

proof fn lemma_deepest_none(s: Seq<Item>, q: Prefix, bound: u8)
    requires
        forall|l: u8| l <= bound ==> !covering_at(s, q, l),
    ensures
        spec_deepest(s, q, bound) is None,
    decreases bound,
{
    if bound > 0 {
        lemma_deepest_none(s, q, (bound - 1) as u8);
    }
}

/// A result satisfying [`match_result_ok`] carries exactly the item that
/// [`spec_match_item`] denotes, and reports `EmptyMatch` when there is
/// none.
pub proof fn lemma_match_determined(s: Seq<Item>, q: Prefix, options: MatchOptions, r: QueryResult)
    requires
        match_result_ok(s, q, options, r),
    ensures
        r.prefix == spec_match_prefix(s, q, options.match_type),
        match spec_match_item(s, q, options.match_type) {
            Some(it) => r.prefix_meta matches Some(m) && m@ == it.rec,
            None => r.prefix_meta is None,
        },
        r.match_type == (if spec_match_item(s, q, options.match_type) is Some {
            options.match_type
        } else {
            MatchType::EmptyMatch
        }),
{
    match options.match_type {
        MatchType::ExactMatch => {},
        MatchType::LongestMatch => {
            match r.prefix {
                Some(p) => {
                    lemma_deepest_some(s, q, q.len, p.len);
                },
                None => {
                    assert(forall|l: u8| !covering_at(s, q, l));
                    lemma_deepest_none(s, q, q.len);
                },
            }
        },
        MatchType::EmptyMatch => {},
    }
}

/// The length the less-specifics leave out: the primary match's, when the
/// primary match is itself an ancestor of the query.
pub open spec fn match_excl(m: Option<Prefix>, q: Prefix) -> Option<u8> {
    match m {
        Some(p) => if p.len < q.len {
            Some(p.len)
        } else {
            None
        },
        None => None,
    }
}

} // verus!
