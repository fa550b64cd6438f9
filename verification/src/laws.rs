//! The store's laws: what follows from the contracts of insert, match and
//! the relation scan, stated and proved once for every table state.

use vstd::prelude::*;

use crate::addr::{mask_bits, prefix_text, Prefix};
use crate::json::{indent_seq, json_escape, key_seq};
use crate::meta::RecView;
use crate::query::spec_anchor;
use crate::records::{match_type_label, MatchOptions, MatchType, QueryResult};
use crate::render::{
    family_items, match_output_text, relation_obj_text, relations_tail_text, relations_text,
    result_primary_text, spec_shown_less, spec_shown_more,
};
use crate::table::{
    covering_at, covering_item, has_key, in_group, item_matches, item_pair, key_idx, keys_unique,
    lemma_key_idx_unique, match_result_ok, related_seq, spec_insert, spec_match_item, Item,
};

verus! {

/// Inserting a record with no origin part twice at the same prefix leaves
/// the table exactly as after one insert: the allocation record is
/// replaced by itself and nothing is duplicated.
pub proof fn lemma_insert_alloc_idempotent(s: Seq<Item>, prefix: Prefix, rec: RecView)
    requires
        keys_unique(s),
        rec.origin is None,
    ensures
        spec_insert(spec_insert(s, prefix, rec), prefix, rec) == spec_insert(s, prefix, rec),
{
    let key = prefix.spec_key();
    let len = prefix.len;
    let t1 = spec_insert(s, prefix, rec);
    if has_key(s, key, len) {
        let i = key_idx(s, key, len);
        assert(item_matches(s[i], key, len));
        assert(keys_unique(t1));
        lemma_key_idx_unique(t1, key, len, i);
        assert(spec_insert(t1, prefix, rec) =~= t1);
    } else {
        let i = s.len() as int;
        assert(item_matches(t1[i], key, len));
        assert(keys_unique(t1)) by {
            assert(forall|k: int|
                0 <= k < s.len() ==> !item_matches(#[trigger] s[k], key, len));
        }
        lemma_key_idx_unique(t1, key, len, i);
        assert(spec_insert(t1, prefix, rec) =~= t1);
    }
}

/// Inserting two origin-only single-number records at a prefix not yet
/// stored yields one stored item holding both numbers, in insertion
/// order.
pub proof fn lemma_insert_origin_accumulates(s: Seq<Item>, prefix: Prefix, x1: u32, x2: u32)
    requires
        keys_unique(s),
        !has_key(s, prefix.spec_key(), prefix.len),
    ensures
        ({
            let r1 = RecView { alloc: None, origin: Some(seq![x1]) };
            let r2 = RecView { alloc: None, origin: Some(seq![x2]) };
            let t2 = spec_insert(spec_insert(s, prefix, r1), prefix, r2);
            &&& t2.len() == s.len() + 1
            &&& t2[s.len() as int].prefix == prefix
            &&& t2[s.len() as int].rec.alloc is None
            &&& t2[s.len() as int].rec.origin == Some(seq![x1, x2])
        }),
{
    let key = prefix.spec_key();
    let len = prefix.len;
    let r1 = RecView { alloc: None, origin: Some(seq![x1]) };
    let r2 = RecView { alloc: None, origin: Some(seq![x2]) };
    let t1 = spec_insert(s, prefix, r1);
    let i = s.len() as int;
    assert(item_matches(t1[i], key, len));
    assert(keys_unique(t1)) by {
        assert(forall|k: int| 0 <= k < s.len() ==> !item_matches(#[trigger] s[k], key, len));
    }
    lemma_key_idx_unique(t1, key, len, i);
    let t2 = spec_insert(t1, prefix, r2);
    assert(t2[i].rec.origin == Some(seq![x1] + seq![x2]));
    assert(seq![x1] + seq![x2] =~= seq![x1, x2]);
}

/// Every stored item of a group appears in the relation set of that
/// group.
proof fn lemma_related_contains(s: Seq<Item>, g: Seq<char>, i: int)
    requires
        0 <= i < s.len(),
        in_group(s[i], g),
    ensures
        related_seq(s, g).contains(item_pair(s[i])),
    decreases s.len(),
{
    if i == s.len() - 1 {
        assert(related_seq(s, g).last() == item_pair(s[i]));
    } else {
        assert(s.drop_last()[i] == s[i]);
        lemma_related_contains(s.drop_last(), g, i);
        let prev = related_seq(s.drop_last(), g);
        let k = choose|k: int| 0 <= k < prev.len() && prev[k] == item_pair(s[i]);
        assert(related_seq(s, g)[k] == item_pair(s[i]));
    }
}

/// Relation symmetry: when two stored prefixes share an allocation group,
/// the same-group relation set anchored on either one's group contains
/// the other — and itself.
pub proof fn lemma_relation_symmetry(s: Seq<Item>, g: Seq<char>, i: int, j: int)
    requires
        0 <= i < s.len(),
        0 <= j < s.len(),
        in_group(s[i], g),
        in_group(s[j], g),
    ensures
        related_seq(s, g).contains(item_pair(s[i])),
        related_seq(s, g).contains(item_pair(s[j])),
{
    lemma_related_contains(s, g, i);
    lemma_related_contains(s, g, j);
}

/// Longest-match correctness: whenever some stored prefix covers the
/// query, a longest match returns one, and its length is maximal among
/// all stored prefixes that cover the query.
pub proof fn lemma_longest_match_maximal(
    s: Seq<Item>,
    q: Prefix,
    options: MatchOptions,
    r: QueryResult,
    i: int,
)
    requires
        match_result_ok(s, q, options, r),
        options.match_type == MatchType::LongestMatch,
        0 <= i < s.len(),
        s[i].prefix.spec_covers(q),
    ensures
        r.prefix matches Some(p) && p.len >= s[i].prefix.len,
{
    let l = s[i].prefix.len;
    assert(item_matches(s[i], mask_bits(q.addr.spec_bits(), l), l));
    assert(covering_at(s, q, l));
    match r.prefix {
        Some(p) => {
            if p.len < l {
                assert(!covering_at(s, q, l));
            }
        },
        None => {
            assert(false);
        },
    }
}

/// Less-specific ordering: the covering ancestors a query reports are
/// strictly increasing in prefix length, whatever the query and whatever
/// the table holds.
pub proof fn lemma_less_specifics_ordered(
    s: Seq<Item>,
    q: Prefix,
    options: MatchOptions,
    r: QueryResult,
    k1: int,
    k2: int,
)
    requires
        match_result_ok(s, q, options, r),
        0 <= k1 < k2 < r.less_specifics@.len(),
    ensures
        r.less_specifics@[k1].0.len < r.less_specifics@[k2].0.len,
{
}

/// Round trip: inserting a record at a prefix not yet stored and then
/// matching exactly that prefix returns the prefix and the record
/// unchanged.
pub proof fn lemma_insert_exact_roundtrip(
    s: Seq<Item>,
    prefix: Prefix,
    rec: RecView,
    options: MatchOptions,
    r: QueryResult,
)
    requires
        keys_unique(s),
        !has_key(s, prefix.spec_key(), prefix.len),
        options.match_type == MatchType::ExactMatch,
        match_result_ok(spec_insert(s, prefix, rec), prefix, options, r),
    ensures
        r.prefix == Some(prefix),
        r.prefix_meta matches Some(m) && m@ == rec,
{
    let key = prefix.spec_key();
    let len = prefix.len;
    let t1 = spec_insert(s, prefix, rec);
    let i = s.len() as int;
    assert(item_matches(t1[i], key, len));
    assert(keys_unique(t1)) by {
        assert(forall|k: int| 0 <= k < s.len() ==> !item_matches(#[trigger] s[k], key, len));
    }
    lemma_key_idx_unique(t1, key, len, i);
    assert(covering_at(t1, prefix, prefix.len));
    assert(covering_item(t1, prefix, prefix.len) == t1[i]);
}

/// The rendered document of a query whose primary match exists and whose
/// anchor resolves embeds a same-org relation whose members are exactly
/// the stored prefixes of the anchor's allocation group, in store order.
#[verifier::rlimit(100)]
pub proof fn lemma_rendered_same_org(
    s4: Seq<Item>,
    s6: Seq<Item>,
    q: Prefix,
    options: MatchOptions,
)
    requires
        spec_match_item(family_items(s4, s6, q), q, options.match_type) is Some,
        spec_anchor(
            Some(spec_match_item(family_items(s4, s6, q), q, options.match_type)->0.rec),
            spec_shown_less(family_items(s4, s6, q), q, options),
        ) is Some,
    ensures
        ({
            let s = family_items(s4, s6, q);
            let it = spec_match_item(s, q, options.match_type)->0;
            let a = spec_anchor(Some(it.rec), spec_shown_less(s, q, options))->0;
            let rel = relation_obj_text(
                "same-org"@,
                related_seq(s4, a.group_id) + related_seq(s6, a.group_id),
                true,
            );
            let t = match_output_text(s4, s6, q, options);
            exists|i: int|
                0 <= i && i + rel.len() <= t.len() && #[trigger] t.subrange(i, i + rel.len())
                    == rel
        }),
{
    let s = family_items(s4, s6, q);
    let it = spec_match_item(s, q, options.match_type)->0;
    let less = spec_shown_less(s, q, options);
    let more = spec_shown_more(s, q, options);
    let a = spec_anchor(Some(it.rec), less)->0;
    let related = related_seq(s4, a.group_id) + related_seq(s6, a.group_id);
    let rel = relation_obj_text("same-org"@, related, true);
    let t = match_output_text(s4, s6, q, options);
    let pre = "{\n"@ + key_seq(true, 1, "type"@) + seq!['"'] + json_escape(
        match_type_label(options.match_type),
    ) + seq!['"'] + key_seq(false, 1, "prefix"@) + seq!['"'] + json_escape(prefix_text(q))
        + seq!['"'] + key_seq(false, 1, "result"@) + "{\n"@ + result_primary_text(s, q, options)
        + key_seq(false, 2, "relations"@) + "[\n"@;
    let post = relation_obj_text("less-specific"@, less, false) + relation_obj_text(
        "more-specific"@,
        more,
        false,
    ) + seq!['\n'] + indent_seq(2) + seq![']'] + seq!['\n'] + indent_seq(1) + seq!['}'] + "\n}"@;
    assert(relations_tail_text(s4, s6, q, options) == key_seq(false, 2, "relations"@) + "[\n"@
        + relations_text(related, less, more) + seq!['\n'] + indent_seq(2) + seq![']']);
    let i = pre.len() as int;
    assert(t.len() == pre.len() + rel.len() + post.len());
    assert(t.subrange(i, i + rel.len()) =~= rel);
}

} // verus!
