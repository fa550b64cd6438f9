//! The JSON documents the service answers with: one for a prefix query,
//! one for a search keyed on origin numbers.
//!
//! Every piece of the document has a spec function giving its exact text,
//! and each rendering function returns exactly that text.

use vstd::prelude::*;

use crate::addr::{prefix_text, Prefix};
use crate::json::{indent_seq, json_escape, key_seq, sep, JsonBuilder};
use crate::meta::{rir_json_id, AllocView, AsnArray, ExtPrefixRecord, RecView, RisWhoisRecord,
    RirDelExtRecord};
use crate::records::{match_type_label, MatchOptions, MatchType, QueryResult, RecordSet};
use crate::store::{search_type_label, SearchByAsnOptions, Store};
use crate::table::{
    asn_match_seq, less_seq, lemma_match_determined, match_excl, match_result_ok, more_seq,
    related_seq, spec_match_item, spec_match_prefix, Item,
};
use crate::meta::Asn;
use crate::text::dec_str;

verus! {

/// The elements of an `originASNs` array: one string `AS<number>` per
/// origin, in order, at the given indentation.
pub open spec fn asn_elems(l: Seq<u32>, ind: nat) -> Seq<char>
    decreases l.len(),
{
    if l.len() == 0 {
        Seq::empty()
    } else {
        asn_elems(l.drop_last(), ind) + sep(l.len() == 1) + indent_seq(ind) + seq!['"']
            + json_escape("AS"@ + dec_str(l.last() as nat)) + seq!['"']
    }
}

/// The members of a `rir-alloc` source object.
pub open spec fn alloc_members(a: AllocView, ind: nat) -> Seq<char> {
    key_seq(true, ind, "sourceType"@) + seq!['"'] + json_escape("rir-alloc"@) + seq!['"'] + key_seq(
        false,
        ind,
        "sourceID"@,
    ) + seq!['"'] + json_escape(rir_json_id(a.rir)) + seq!['"']
}

/// The members of a `bgp` source object: the source identifiers, the
/// origin list, and — for the primary match only — the match-kind label.
pub open spec fn bgp_members(o: Seq<u32>, label: Option<Seq<char>>, ind: nat) -> Seq<char> {
    key_seq(true, ind, "sourceType"@) + seq!['"'] + json_escape("bgp"@) + seq!['"'] + key_seq(
        false,
        ind,
        "sourceID"@,
    ) + seq!['"'] + json_escape("riswhois"@) + seq!['"'] + key_seq(false, ind, "originASNs"@)
        + "[\n"@ + asn_elems(o, ind + 1) + seq!['\n'] + indent_seq(ind) + seq![']'] + (match label {
        Some(t) => key_seq(false, ind, "type"@) + seq!['"'] + json_escape(t) + seq!['"'],
        None => Seq::empty(),
    })
}

/// One `rir-alloc` source object as an array element.
pub open spec fn alloc_obj_text(a: AllocView, first: bool, ind: nat) -> Seq<char> {
    sep(first) + indent_seq(ind) + "{\n"@ + alloc_members(a, ind + 1) + seq!['\n'] + indent_seq(
        ind,
    ) + seq!['}']
}

/// One `bgp` source object as an array element.
pub open spec fn bgp_obj_text(o: Seq<u32>, label: Option<Seq<char>>, first: bool, ind: nat) -> Seq<
    char,
> {
    sep(first) + indent_seq(ind) + "{\n"@ + bgp_members(o, label, ind + 1) + seq!['\n']
        + indent_seq(ind) + seq!['}']
}

/// The elements of a `meta` array: one object per source the record
/// carries, the allocation source first.
pub open spec fn meta_objs(rv: RecView, label: Option<Seq<char>>, ind: nat) -> Seq<char> {
    (match rv.alloc {
        Some(a) => alloc_obj_text(a, true, ind),
        None => Seq::empty(),
    }) + (match rv.origin {
        Some(o) => bgp_obj_text(o, label, rv.alloc is None, ind),
        None => Seq::empty(),
    })
}

/// The members of one element of a `members` array: the prefix and its
/// `meta` array.
pub open spec fn member_obj_members(p: (Prefix, Option<RecView>), ind: nat) -> Seq<char> {
    key_seq(true, ind, "prefix"@) + seq!['"'] + json_escape(prefix_text(p.0)) + seq!['"'] + key_seq(
        false,
        ind,
        "meta"@,
    ) + "[\n"@ + (match p.1 {
        Some(rv) => meta_objs(rv, None, ind + 1),
        None => Seq::empty(),
    }) + seq!['\n'] + indent_seq(ind) + seq![']']
}

/// One element of a `members` array.
pub open spec fn member_obj_text(p: (Prefix, Option<RecView>), first: bool, ind: nat) -> Seq<
    char,
> {
    sep(first) + indent_seq(ind) + "{\n"@ + member_obj_members(p, ind + 1) + seq!['\n']
        + indent_seq(ind) + seq!['}']
}

/// The elements of a `members` array: one object per returned pair.
pub open spec fn member_objs(l: Seq<(Prefix, Option<RecView>)>, ind: nat) -> Seq<char>
    decreases l.len(),
{
    if l.len() == 0 {
        Seq::empty()
    } else {
        member_objs(l.drop_last(), ind) + member_obj_text(l.last(), l.len() == 1, ind)
    }
}

/// Appending one more origin number extends [`asn_elems`] by one element.
proof fn lemma_asn_elems_step(prev: Seq<u32>, x: u32, ind: nat)
    ensures
        asn_elems(prev.push(x), ind) == asn_elems(prev, ind) + sep(prev.len() == 0) + indent_seq(
            ind,
        ) + seq!['"'] + json_escape("AS"@ + dec_str(x as nat)) + seq!['"'],
{
    let l = prev.push(x);
    assert(l.drop_last() =~= prev);
    assert(l.last() == x);
    assert((l.len() == 1) == (prev.len() == 0));
}

/// Appending one more pair extends [`member_objs`] by one element.
proof fn lemma_member_objs_step(
    prev: Seq<(Prefix, Option<RecView>)>,
    p: (Prefix, Option<RecView>),
    ind: nat,
)
    ensures
        member_objs(prev.push(p), ind) == member_objs(prev, ind) + member_obj_text(
            p,
            prev.len() == 0,
            ind,
        ),
{
    let l = prev.push(p);
    assert(l.drop_last() =~= prev);
    assert(l.last() == p);
    assert((l.len() == 1) == (prev.len() == 0));
}

/// Appends the elements of an `originASNs` array to its body builder.
#[verifier::loop_isolation(false)]
#[verifier::rlimit(100)]
fn push_asn_elems(b: &mut JsonBuilder, asns: &AsnArray)
    requires
        old(b).spec_empty(),
    ensures
        final(b).text() == old(b).text() + asn_elems(asns@, old(b).spec_indent()),
        final(b).spec_indent() == old(b).spec_indent(),
{
    let ghost ind = old(b).spec_indent();
    let mut i: usize = 0;
    proof {
        assert(asns@.subrange(0, 0) =~= Seq::<u32>::empty());
    }
    while i < asns.0.len()
        invariant
            0 <= i <= asns.0.len(),
            asns@.len() == asns.0@.len(),
            b.spec_indent() == ind == old(b).spec_indent(),
            b.text() == old(b).text() + asn_elems(asns@.subrange(0, i as int), ind),
            b.spec_empty() <==> i == 0,
        decreases asns.0.len() - i,
    {
        let a = asns.0[i];
        let s = a.to_string();
        b.array_str(s.as_str());
        proof {
            assert(asns@.subrange(0, i + 1) =~= asns@.subrange(0, i as int).push(asns@[i as int]));
            lemma_asn_elems_step(asns@.subrange(0, i as int), asns@[i as int], ind);
            assert(s@ == "AS"@ + dec_str(asns@[i as int] as nat));
            assert(b.text() =~= old(b).text() + asn_elems(asns@.subrange(0, i + 1), ind));
        }
        i = i + 1;
    }
    proof {
        assert(asns@.subrange(0, asns@.len() as int) =~= asns@);
    }
}

/// Appends one `rir-alloc` source object as an array element.
fn push_alloc_obj(b: &mut JsonBuilder, rir_del_ext_r: &RirDelExtRecord)
    requires
        old(b).spec_indent() < 100,
    ensures
        final(b).text() == old(b).text() + alloc_obj_text(
            rir_del_ext_r@,
            old(b).spec_empty(),
            old(b).spec_indent(),
        ),
        final(b).spec_indent() == old(b).spec_indent(),
        !final(b).spec_empty(),
{
    let mut obj = b.nested();
    obj.member_str("sourceType", "rir-alloc");
    let id = rir_del_ext_r.rir.to_json_id();
    obj.member_str("sourceID", id.as_str());
    proof {
        assert(obj.text() =~= alloc_members(rir_del_ext_r@, old(b).spec_indent() + 1));
    }
    b.array_object(&obj);
    proof {
        assert(b.text() =~= old(b).text() + alloc_obj_text(
            rir_del_ext_r@,
            old(b).spec_empty(),
            old(b).spec_indent(),
        ));
    }
}

/// Appends one `bgp` source object as an array element.
#[verifier::rlimit(100)]
fn push_bgp_obj(b: &mut JsonBuilder, ris_whois_r: &RisWhoisRecord, label: Option<&str>)
    requires
        old(b).spec_indent() < 100,
    ensures
        final(b).text() == old(b).text() + bgp_obj_text(
            ris_whois_r.origin_asns@,
            match label {
                Some(t) => Some(t@),
                None => None,
            },
            old(b).spec_empty(),
            old(b).spec_indent(),
        ),
        final(b).spec_indent() == old(b).spec_indent(),
        !final(b).spec_empty(),
{
    let ghost lab: Option<Seq<char>> = match label {
        Some(t) => Some(t@),
        None => None,
    };
    let mut obj = b.nested();
    obj.member_str("sourceType", "bgp");
    obj.member_str("sourceID", "riswhois");
    let mut asns_body = obj.nested();
    push_asn_elems(&mut asns_body, &ris_whois_r.origin_asns);
    obj.member_array("originASNs", &asns_body);
    if let Some(t) = label {
        obj.member_str("type", t);
    }
    proof {
        assert(obj.text() =~= bgp_members(
            ris_whois_r.origin_asns@,
            lab,
            old(b).spec_indent() + 1,
        ));
    }
    b.array_object(&obj);
    proof {
        assert(b.text() =~= old(b).text() + bgp_obj_text(
            ris_whois_r.origin_asns@,
            lab,
            old(b).spec_empty(),
            old(b).spec_indent(),
        ));
    }
}

/// Appends the source objects of a `meta` array to its body builder.
#[verifier::rlimit(100)]
fn push_meta_objs(b: &mut JsonBuilder, rec: &ExtPrefixRecord, label: Option<&str>)
    requires
        old(b).spec_empty(),
        old(b).spec_indent() < 100,
    ensures
        final(b).text() == old(b).text() + meta_objs(
            rec@,
            match label {
                Some(t) => Some(t@),
                None => None,
            },
            old(b).spec_indent(),
        ),
        final(b).spec_indent() == old(b).spec_indent(),
{
    let ghost ind = old(b).spec_indent();
    let ghost lab: Option<Seq<char>> = match label {
        Some(t) => Some(t@),
        None => None,
    };
    if let Some(rir_del_ext_r) = &rec.0 {
        push_alloc_obj(b, rir_del_ext_r);
    }
    if let Some(ris_whois_r) = &rec.1 {
        push_bgp_obj(b, ris_whois_r, label);
    }
    proof {
        assert(b.text() =~= old(b).text() + meta_objs(rec@, lab, ind));
    }
}

/// Appends one element of a `members` array.
#[verifier::rlimit(100)]
fn push_member_obj(b: &mut JsonBuilder, pfx: &Prefix, value: &Option<ExtPrefixRecord>)
    requires
        old(b).spec_indent() < 98,
    ensures
        final(b).text() == old(b).text() + member_obj_text(
            (
                *pfx,
                match value {
                    Some(m) => Some(m@),
                    None => None,
                },
            ),
            old(b).spec_empty(),
            old(b).spec_indent(),
        ),
        final(b).spec_indent() == old(b).spec_indent(),
        !final(b).spec_empty(),
{
    let ghost p: (Prefix, Option<RecView>) = (
        *pfx,
        match value {
            Some(m) => Some(m@),
            None => None,
        },
    );
    let mut obj = b.nested();
    let ptext = pfx.to_string();
    obj.member_str("prefix", ptext.as_str());
    let mut meta_body = obj.nested();
    if let Some(ext_rec) = value {
        push_meta_objs(&mut meta_body, ext_rec, None);
    }
    obj.member_array("meta", &meta_body);
    proof {
        assert(obj.text() =~= member_obj_members(p, old(b).spec_indent() + 1));
    }
    b.array_object(&obj);
    proof {
        assert(b.text() =~= old(b).text() + member_obj_text(
            p,
            old(b).spec_empty(),
            old(b).spec_indent(),
        ));
    }
}

/// Appends the elements of a `members` array to its body builder.
#[verifier::loop_isolation(false)]
#[verifier::rlimit(100)]
fn push_member_objs(b: &mut JsonBuilder, pairs: &RecordSet)
    requires
        old(b).spec_empty(),
        old(b).spec_indent() < 98,
    ensures
        final(b).text() == old(b).text() + member_objs(pairs@, old(b).spec_indent()),
        final(b).spec_indent() == old(b).spec_indent(),
{
    let ghost ind = old(b).spec_indent();
    let mut i: usize = 0;
    proof {
        assert(pairs@.subrange(0, 0) =~= Seq::<(Prefix, Option<RecView>)>::empty());
    }
    while i < pairs.len()
        invariant
            0 <= i <= pairs@.len(),
            b.spec_indent() == ind == old(b).spec_indent(),
            ind < 98,
            b.text() == old(b).text() + member_objs(pairs@.subrange(0, i as int), ind),
            b.spec_empty() <==> i == 0,
        decreases pairs@.len() - i,
    {
        let (pfx, value) = pairs.get(i);
        push_member_obj(b, pfx, value);
        proof {
            assert(pairs@.subrange(0, i + 1) =~= pairs@.subrange(0, i as int).push(
                pairs@[i as int],
            ));
            lemma_member_objs_step(pairs@.subrange(0, i as int), pairs@[i as int], ind);
            assert(b.text() == old(b).text() + member_objs(pairs@.subrange(0, i + 1), ind));
        }
        i = i + 1;
    }
    proof {
        assert(pairs@.subrange(0, pairs@.len() as int) =~= pairs@);
    }
}

/// The members of one relation object: its kind and its members array.
pub open spec fn relation_members_text(
    label: Seq<char>,
    members: Seq<(Prefix, Option<RecView>)>,
) -> Seq<char> {
    key_seq(true, 4, "type"@) + seq!['"'] + json_escape(label) + seq!['"'] + key_seq(
        false,
        4,
        "members"@,
    ) + "[\n"@ + member_objs(members, 5) + seq!['\n'] + indent_seq(4) + seq![']']
}

/// One relation object as an element of the relations array.
pub open spec fn relation_obj_text(
    label: Seq<char>,
    members: Seq<(Prefix, Option<RecView>)>,
    first: bool,
) -> Seq<char> {
    sep(first) + indent_seq(3) + "{\n"@ + relation_members_text(label, members) + seq!['\n']
        + indent_seq(3) + seq!['}']
}

/// Appends one relation object to the relations array body.
#[verifier::rlimit(100)]
fn push_relation_obj(relations: &mut JsonBuilder, label: &str, pairs: &RecordSet)
    requires
        old(relations).spec_indent() == 3,
    ensures
        final(relations).text() == old(relations).text() + relation_obj_text(
            label@,
            pairs@,
            old(relations).spec_empty(),
        ),
        final(relations).spec_indent() == 3,
        !final(relations).spec_empty(),
{
    let mut rel = relations.nested();
    rel.member_str("type", label);
    let mut members = rel.nested();
    push_member_objs(&mut members, pairs);
    rel.member_array("members", &members);
    proof {
        assert(rel.text() =~= relation_members_text(label@, pairs@));
    }
    relations.array_object(&rel);
    proof {
        assert(relations.text() =~= old(relations).text() + relation_obj_text(
            label@,
            pairs@,
            old(relations).spec_empty(),
        ));
    }
}

/// The three relation objects of a prefix query: the same-group set, the
/// covering ancestors and the contained descendants.
pub open spec fn relations_text(
    related: Seq<(Prefix, Option<RecView>)>,
    less: Seq<(Prefix, Option<RecView>)>,
    more: Seq<(Prefix, Option<RecView>)>,
) -> Seq<char> {
    relation_obj_text("same-org"@, related, true) + relation_obj_text("less-specific"@, less, false)
        + relation_obj_text("more-specific"@, more, false)
}

/// The stored items of the query's family.
pub open spec fn family_items(s4: Seq<Item>, s6: Seq<Item>, q: Prefix) -> Seq<Item> {
    match q.addr {
        crate::addr::Addr::V4(_) => s4,
        crate::addr::Addr::V6(_) => s6,
    }
}

/// The less-specifics a query reports: empty unless requested.
pub open spec fn spec_shown_less(s: Seq<Item>, q: Prefix, options: MatchOptions) -> Seq<
    (Prefix, Option<RecView>),
> {
    if options.include_less_specifics {
        less_seq(s, q, q.len, match_excl(spec_match_prefix(s, q, options.match_type), q))
    } else {
        Seq::empty()
    }
}

/// The more-specifics a query reports: empty unless requested.
pub open spec fn spec_shown_more(s: Seq<Item>, q: Prefix, options: MatchOptions) -> Seq<
    (Prefix, Option<RecView>),
> {
    if options.include_more_specifics {
        more_seq(s, q)
    } else {
        Seq::empty()
    }
}

/// The match-kind label the primary match's origin source carries: whether
/// the returned prefix is the query itself or a covering ancestor.
pub open spec fn primary_label(q: Prefix, p: Prefix) -> Seq<char> {
    if q.len == p.len {
        "exact-match"@
    } else {
        "less-specific"@
    }
}

/// The leading members of the result object: the primary match and its
/// sources, or the not-found members.
pub open spec fn result_primary_text(s: Seq<Item>, q: Prefix, options: MatchOptions) -> Seq<char> {
    match spec_match_item(s, q, options.match_type) {
        Some(it) => key_seq(true, 2, "prefix"@) + seq!['"'] + json_escape(prefix_text(it.prefix))
            + seq!['"'] + key_seq(false, 2, "meta"@) + "[\n"@ + meta_objs(
            it.rec,
            Some(primary_label(q, it.prefix)),
            3,
        ) + seq!['\n'] + indent_seq(2) + seq![']'],
        None => key_seq(true, 2, "prefix"@) + json_escape("null"@) + key_seq(false, 2, "type"@)
            + seq!['"'] + json_escape(match_type_label(MatchType::EmptyMatch)) + seq!['"'] + key_seq(
            false,
            2,
            "meta"@,
        ) + json_escape("[]"@) + key_seq(false, 2, "members"@) + json_escape("[]"@),
    }
}

/// The relations member of the result object: present exactly when the
/// query has a primary match whose anchor resolves.
pub open spec fn relations_tail_text(
    s4: Seq<Item>,
    s6: Seq<Item>,
    q: Prefix,
    options: MatchOptions,
) -> Seq<char> {
    let s = family_items(s4, s6, q);
    match spec_match_item(s, q, options.match_type) {
        Some(it) => {
            let less = spec_shown_less(s, q, options);
            match crate::query::spec_anchor(Some(it.rec), less) {
                Some(a) => key_seq(false, 2, "relations"@) + "[\n"@ + relations_text(
                    related_seq(s4, a.group_id) + related_seq(s6, a.group_id),
                    less,
                    spec_shown_more(s, q, options),
                ) + seq!['\n'] + indent_seq(2) + seq![']'],
                None => Seq::empty(),
            }
        },
        None => Seq::empty(),
    }
}

/// The members of the result object.
pub open spec fn result_members_text(
    s4: Seq<Item>,
    s6: Seq<Item>,
    q: Prefix,
    options: MatchOptions,
) -> Seq<char> {
    result_primary_text(family_items(s4, s6, q), q, options) + relations_tail_text(
        s4,
        s6,
        q,
        options,
    )
}

/// The members of the whole answer document.
pub open spec fn top_members_text(
    s4: Seq<Item>,
    s6: Seq<Item>,
    q: Prefix,
    options: MatchOptions,
) -> Seq<char> {
    key_seq(true, 1, "type"@) + seq!['"'] + json_escape(match_type_label(options.match_type))
        + seq!['"'] + key_seq(false, 1, "prefix"@) + seq!['"'] + json_escape(prefix_text(q))
        + seq!['"'] + key_seq(false, 1, "result"@) + "{\n"@ + result_members_text(
        s4,
        s6,
        q,
        options,
    ) + seq!['\n'] + indent_seq(1) + seq!['}']
}

/// The whole answer document of a prefix query: the requested match kind,
/// the query prefix, and a result object holding the primary match with
/// its sources and the same-org, less-specific and more-specific
/// relations.
pub open spec fn match_output_text(
    s4: Seq<Item>,
    s6: Seq<Item>,
    q: Prefix,
    options: MatchOptions,
) -> Seq<char> {
    "{\n"@ + top_members_text(s4, s6, q, options) + "\n}"@
}

/// Appends the leading members of the result object: the primary match
/// with its sources, or the not-found members.
#[verifier::rlimit(100)]
fn push_primary_members(
    result_body: &mut JsonBuilder,
    recs: &QueryResult,
    prefix: Prefix,
    Ghost(s): Ghost<Seq<Item>>,
    Ghost(options): Ghost<MatchOptions>,
)
    requires
        old(result_body).spec_empty(),
        old(result_body).spec_indent() == 2,
        recs.prefix == spec_match_prefix(s, prefix, options.match_type),
        match spec_match_item(s, prefix, options.match_type) {
            Some(it) => recs.prefix_meta matches Some(m) && m@ == it.rec,
            None => recs.prefix_meta is None,
        },
        recs.match_type == (if spec_match_item(s, prefix, options.match_type) is Some {
            options.match_type
        } else {
            MatchType::EmptyMatch
        }),
    ensures
        final(result_body).text() == old(result_body).text() + result_primary_text(
            s,
            prefix,
            options,
        ),
        final(result_body).spec_indent() == 2,
        !final(result_body).spec_empty(),
{
    match &recs.prefix {
        Some(pfx) => {
            let ptext2 = pfx.to_string();
            result_body.member_str("prefix", ptext2.as_str());
            if let Some(ext_rec) = &recs.prefix_meta {
                let label = if prefix.len == pfx.len {
                    "exact-match"
                } else {
                    "less-specific"
                };
                proof {
                    assert(label@ == primary_label(prefix, *pfx));
                }
                let mut meta_body = result_body.nested();
                push_meta_objs(&mut meta_body, ext_rec, Some(label));
                result_body.member_array("meta", &meta_body);
            }
        },
        None => {
            result_body.member_raw("prefix", "null");
            let mtl2 = recs.match_type.to_string();
            result_body.member_str("type", mtl2.as_str());
            result_body.member_raw("meta", "[]");
            result_body.member_raw("members", "[]");
        },
    }
    proof {
        assert(result_body.text() =~= old(result_body).text() + result_primary_text(
            s,
            prefix,
            options,
        ));
    }
}

/// Appends the members of the result object: the primary match (or the
/// not-found members) and, when the anchor resolves, the relations.
#[verifier::rlimit(100)]
fn push_result_members(
    result_body: &mut JsonBuilder,
    store: &Store,
    recs: &QueryResult,
    prefix: Prefix,
    match_options: &MatchOptions,
)
    requires
        store.wf(),
        match_result_ok(store.items_for(prefix), prefix, *match_options, *recs),
        old(result_body).spec_empty(),
        old(result_body).spec_indent() == 2,
    ensures
        final(result_body).text() == old(result_body).text() + result_members_text(
            store.spec_v4(),
            store.spec_v6(),
            prefix,
            *match_options,
        ),
        final(result_body).spec_indent() == 2,
{
    let ghost s = store.items_for(prefix);
    proof {
        lemma_match_determined(s, prefix, *match_options, *recs);
        assert(family_items(store.spec_v4(), store.spec_v6(), prefix) == s);
        if !match_options.include_less_specifics {
            assert(recs.less_specifics@ =~= spec_shown_less(s, prefix, *match_options));
        }
        if !match_options.include_more_specifics {
            assert(recs.more_specifics@ =~= spec_shown_more(s, prefix, *match_options));
        }
    }
    push_primary_members(result_body, recs, prefix, Ghost(s), Ghost(*match_options));
    if recs.prefix_meta.is_some() {
        let anchor = crate::query::resolve_anchor(&recs.prefix_meta, &recs.less_specifics);
        match anchor {
            Some(lmp_rel_rec) => {
                let rel_rec = store.get_related_prefixes(&lmp_rel_rec);
                let mut relations = result_body.nested();
                push_relation_obj(&mut relations, "same-org", &rel_rec);
                push_relation_obj(&mut relations, "less-specific", &recs.less_specifics);
                push_relation_obj(&mut relations, "more-specific", &recs.more_specifics);
                proof {
                    assert(relations.text() =~= relations_text(
                        rel_rec@,
                        recs.less_specifics@,
                        recs.more_specifics@,
                    ));
                }
                result_body.member_array("relations", &relations);
                proof {
                    assert(result_body.text() =~= old(result_body).text() + (result_primary_text(
                        s,
                        prefix,
                        *match_options,
                    ) + relations_tail_text(
                        store.spec_v4(),
                        store.spec_v6(),
                        prefix,
                        *match_options,
                    )));
                }
            },
            None => {
                proof {
                    assert(relations_tail_text(
                        store.spec_v4(),
                        store.spec_v6(),
                        prefix,
                        *match_options,
                    ) =~= Seq::<char>::empty());
                    assert(result_body.text() =~= old(result_body).text() + (result_primary_text(
                        s,
                        prefix,
                        *match_options,
                    ) + relations_tail_text(
                        store.spec_v4(),
                        store.spec_v6(),
                        prefix,
                        *match_options,
                    )));
                }
            },
        }
    } else {
        proof {
            assert(relations_tail_text(store.spec_v4(), store.spec_v6(), prefix, *match_options)
                =~= Seq::<char>::empty());
            assert(result_body.text() =~= old(result_body).text() + (result_primary_text(
                s,
                prefix,
                *match_options,
            ) + relations_tail_text(store.spec_v4(), store.spec_v6(), prefix, *match_options)));
        }
    }
}

/// Answers one prefix query end to end and renders the answer: the exact
/// text is [`match_output_text`] over the store's contents.
#[verifier::rlimit(100)]
pub fn match_prefix_output(store: &Store, prefix: Prefix, match_options: &MatchOptions) -> (r:
    String)
    requires
        store.wf(),
    ensures
        r@ == match_output_text(store.spec_v4(), store.spec_v6(), prefix, *match_options),
{
    let recs = store.match_longest_prefix(prefix, match_options);
    let mut builder = JsonBuilder::new();
    let mtl = match_options.match_type.to_string();
    builder.member_str("type", mtl.as_str());
    let ptext = prefix.to_string();
    builder.member_str("prefix", ptext.as_str());
    let mut result_body = builder.nested();
    push_result_members(&mut result_body, store, &recs, prefix, match_options);
    builder.member_object("result", &result_body);
    proof {
        assert(builder.text() =~= top_members_text(
            store.spec_v4(),
            store.spec_v6(),
            prefix,
            *match_options,
        ));
    }
    JsonBuilder::build(builder)
}

/// The whole answer document of a search keyed on origin numbers: the
/// search kind, the numbers asked for, and one relation listing every
/// stored prefix whose origin list names any of them.
pub open spec fn asn_search_text(
    s4: Seq<Item>,
    s6: Seq<Item>,
    asns: Seq<u32>,
    options: SearchByAsnOptions,
) -> Seq<char> {
    "{\n"@ + (key_seq(true, 1, "type"@) + seq!['"'] + json_escape(
        search_type_label(options.search_type),
    ) + seq!['"'] + key_seq(false, 1, "asns"@) + "[\n"@ + asn_elems(asns, 2) + seq!['\n']
        + indent_seq(1) + seq![']'] + key_seq(false, 1, "meta"@) + json_escape("null"@) + key_seq(
        false,
        1,
        "result"@,
    ) + "{\n"@ + (key_seq(true, 2, "relations"@) + "[\n"@ + relation_obj_text(
        "bgp-origin-asn"@,
        asn_match_seq(s4, asns) + asn_match_seq(s6, asns),
        true,
    ) + seq!['\n'] + indent_seq(2) + seq![']']) + seq!['\n'] + indent_seq(1) + seq!['}'])
        + "\n}"@
}

/// Searches the store by origin numbers and renders the answer: the exact
/// text is [`asn_search_text`] over the store's contents.
#[verifier::rlimit(100)]
pub fn search_by_bgp_asn_output(
    store: &Store,
    asns: Vec<Asn>,
    search_options: &SearchByAsnOptions,
) -> (r: String)
    ensures
        r@ == asn_search_text(
            store.spec_v4(),
            store.spec_v6(),
            crate::meta::asn_views(asns@),
            *search_options,
        ),
{
    let ghost vals = crate::meta::asn_views(asns@);
    let recs = store.get_prefixes_for_bgp_asn(&asns, search_options);
    let mut builder = JsonBuilder::new();
    let st = search_options.search_type.to_string();
    builder.member_str("type", st.as_str());
    let mut asns_body = builder.nested();
    let arr = AsnArray(asns);
    push_asn_elems(&mut asns_body, &arr);
    builder.member_array("asns", &asns_body);
    builder.member_raw("meta", "null");
    let mut result_body = builder.nested();
    let mut relations = result_body.nested();
    push_relation_obj(&mut relations, "bgp-origin-asn", &recs.prefixes);
    result_body.member_array("relations", &relations);
    builder.member_object("result", &result_body);
    let r = JsonBuilder::build(builder);
    proof {
        assert(r@ =~= asn_search_text(store.spec_v4(), store.spec_v6(), vals, *search_options));
    }
    r
}

} // verus!
