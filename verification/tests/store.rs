use roto_api::{
    lookup_related_prefixes_for_lmp_in, resolve_anchor, Addr, Asn, AsnArray, ExtPrefixRecord,
    InsertError, MatchOptions, MatchType, Prefix, Rir, RirDelExtRecord, RisWhoisRecord,
    SearchByAsnOptions, SearchType, Store,
};

fn options(match_type: MatchType) -> MatchOptions {
    MatchOptions {
        match_type,
        include_less_specifics: true,
        include_more_specifics: true,
    }
}

fn alloc_record(group: &str, rir: Rir) -> ExtPrefixRecord {
    ExtPrefixRecord(Some(RirDelExtRecord::new(group.to_string(), rir)), None)
}

fn origin_record(asn: &str) -> ExtPrefixRecord {
    ExtPrefixRecord(
        None,
        Some(RisWhoisRecord {
            origin_asns: AsnArray(vec![Asn::from_str(asn).unwrap()]),
        }),
    )
}

fn v4(addr: u32, len: u8) -> Prefix {
    Prefix::new(Addr::V4(addr), len)
}

#[test]
fn longest_match_picks_the_deepest_covering_prefix() {
    let mut store = Store::default();
    store.insert(v4(0x0A000000, 8), alloc_record("G", Rir::Arin)).unwrap();
    store.insert(v4(0x0A000000, 16), alloc_record("G", Rir::Arin)).unwrap();
    store.insert(v4(0x0A000000, 24), alloc_record("G", Rir::Arin)).unwrap();

    let recs = store.match_longest_prefix(v4(0x0A000001, 32), &options(MatchType::LongestMatch));
    assert_eq!(recs.prefix, Some(v4(0x0A000000, 24)));
    assert_eq!(recs.match_type, MatchType::LongestMatch);
}

#[test]
fn less_specifics_come_least_specific_first() {
    let mut store = Store::default();
    store.insert(v4(0x0A000000, 16), alloc_record("G", Rir::Arin)).unwrap();
    store.insert(v4(0x0A000000, 8), alloc_record("G", Rir::Arin)).unwrap();
    store.insert(v4(0x0A000000, 24), alloc_record("G", Rir::Arin)).unwrap();

    let recs = store.match_longest_prefix(v4(0x0A000001, 32), &options(MatchType::LongestMatch));
    let less = recs.less_specifics.iter();
    assert_eq!(less.len(), 2);
    assert_eq!(less[0].0, v4(0x0A000000, 8));
    assert_eq!(less[1].0, v4(0x0A000000, 16));
    assert!(less[0].0.len < less[1].0.len);
}

#[test]
fn merge_keeps_one_allocation_record_after_repeat_insert() {
    let mut store = Store::default();
    store.insert(v4(0xC0000200, 24), alloc_record("G1", Rir::Arin)).unwrap();
    store.insert(v4(0xC0000200, 24), alloc_record("G1", Rir::Arin)).unwrap();

    assert_eq!(store.prefix_counts(), (1, 0));
    let recs = store.match_longest_prefix(v4(0xC0000200, 24), &options(MatchType::ExactMatch));
    let meta = recs.prefix_meta.unwrap();
    let alloc = meta.0.unwrap();
    assert_eq!(alloc.group_id, "G1");
    assert!(meta.1.is_none());
}

#[test]
fn merge_accumulates_origin_asns_in_order() {
    let mut store = Store::default();
    store.insert(v4(0xC0000200, 25), origin_record("64500")).unwrap();
    store.insert(v4(0xC0000200, 25), origin_record("64501")).unwrap();

    assert_eq!(store.prefix_counts(), (1, 0));
    let recs = store.match_longest_prefix(v4(0xC0000200, 25), &options(MatchType::ExactMatch));
    let meta = recs.prefix_meta.unwrap();
    let origins = meta.1.unwrap().origin_asns;
    let values: Vec<u32> = origins.0.iter().map(|a| a.value()).collect();
    assert_eq!(values, vec![64500, 64501]);
}

#[test]
fn merge_replaces_allocation_and_keeps_origins() {
    let mut store = Store::default();
    store.insert(v4(0xC0000200, 24), alloc_record("OLD", Rir::RipeNcc)).unwrap();
    store.insert(v4(0xC0000200, 24), origin_record("64500")).unwrap();
    store.insert(v4(0xC0000200, 24), alloc_record("NEW", Rir::Arin)).unwrap();

    let recs = store.match_longest_prefix(v4(0xC0000200, 24), &options(MatchType::ExactMatch));
    let meta = recs.prefix_meta.unwrap();
    assert_eq!(meta.0.as_ref().unwrap().group_id, "NEW");
    assert_eq!(meta.0.as_ref().unwrap().rir, Rir::Arin);
    let values: Vec<u32> = meta.1.unwrap().origin_asns.0.iter().map(|a| a.value()).collect();
    assert_eq!(values, vec![64500]);
}

#[test]
fn exact_match_round_trip_returns_the_record() {
    let mut store = Store::default();
    store.insert(v4(0x0A000000, 8), alloc_record("G9", Rir::Apnic)).unwrap();

    let recs = store.match_longest_prefix(v4(0x0A000000, 8), &options(MatchType::ExactMatch));
    assert_eq!(recs.prefix, Some(v4(0x0A000000, 8)));
    assert_eq!(recs.match_type, MatchType::ExactMatch);
    let meta = recs.prefix_meta.unwrap();
    assert_eq!(meta.0.unwrap().group_id, "G9");
    assert!(meta.1.is_none());
}

#[test]
fn scenario_anchor_falls_back_to_the_covering_allocation() {
    let mut store = Store::default();
    store.insert(v4(0xC0000200, 24), alloc_record("G1", Rir::Arin)).unwrap();
    store.insert(v4(0xC0000200, 25), origin_record("64500")).unwrap();

    let recs = store.match_longest_prefix(v4(0xC000020A, 32), &options(MatchType::LongestMatch));
    assert_eq!(recs.prefix, Some(v4(0xC0000200, 25)));
    let meta = recs.prefix_meta.clone().unwrap();
    let values: Vec<u32> =
        meta.1.as_ref().unwrap().origin_asns.0.iter().map(|a| a.value()).collect();
    assert_eq!(values, vec![64500]);

    let less = recs.less_specifics.iter();
    assert_eq!(less.len(), 1);
    assert_eq!(less[0].0, v4(0xC0000200, 24));

    let anchor = resolve_anchor(&recs.prefix_meta, &recs.less_specifics).unwrap();
    assert_eq!(anchor.group_id, "G1");
    assert_eq!(anchor.rir, Rir::Arin);
}

#[test]
fn scenario_same_group_query_returns_both_prefixes() {
    let mut store = Store::default();
    store.insert(v4(0x0A000000, 8), alloc_record("G2", Rir::RipeNcc)).unwrap();
    store.insert(v4(0x0A010000, 16), alloc_record("G2", Rir::RipeNcc)).unwrap();
    store.insert(v4(0xC0000200, 24), alloc_record("OTHER", Rir::Arin)).unwrap();

    let rec = RirDelExtRecord::new("G2".to_string(), Rir::RipeNcc);
    let related = store.get_related_prefixes(&rec).iter();
    let prefixes: Vec<Prefix> = related.iter().map(|p| p.0).collect();
    assert_eq!(prefixes, vec![v4(0x0A000000, 8), v4(0x0A010000, 16)]);
}

#[test]
fn scenario_no_covering_prefix_is_not_found_not_an_error() {
    let mut store = Store::default();
    store.insert(v4(0x0A000000, 8), alloc_record("G", Rir::Arin)).unwrap();

    let recs = store.match_longest_prefix(v4(0xCB007105, 32), &options(MatchType::LongestMatch));
    assert!(recs.prefix.is_none());
    assert!(recs.prefix_meta.is_none());
    assert_eq!(recs.match_type, MatchType::EmptyMatch);
    assert!(recs.less_specifics.is_empty());
    assert!(recs.more_specifics.is_empty());
    assert!(resolve_anchor(&recs.prefix_meta, &recs.less_specifics).is_none());
}

#[test]
fn more_specifics_are_the_contained_prefixes() {
    let mut store = Store::default();
    store.insert(v4(0x0A000000, 16), alloc_record("A", Rir::Arin)).unwrap();
    store.insert(v4(0x0A000100, 24), alloc_record("B", Rir::Arin)).unwrap();
    store.insert(v4(0x0B000000, 16), alloc_record("C", Rir::Arin)).unwrap();

    let recs = store.match_longest_prefix(v4(0x0A000000, 8), &options(MatchType::LongestMatch));
    assert!(recs.prefix.is_none());
    let more = recs.more_specifics.iter();
    let prefixes: Vec<Prefix> = more.iter().map(|p| p.0).collect();
    assert_eq!(prefixes, vec![v4(0x0A000000, 16), v4(0x0A000100, 24)]);
}

#[test]
fn insert_rejects_a_length_beyond_the_family_width() {
    let mut store = Store::default();
    let err = store.insert(v4(0x0A000000, 33), alloc_record("G", Rir::Arin));
    assert_eq!(err, Err(InsertError::LengthOutOfRange));
    assert_eq!(store.prefix_counts(), (0, 0));
}

#[test]
fn both_families_are_kept_apart() {
    let mut store = Store::default();
    store.insert(v4(0x0A000000, 8), alloc_record("G4", Rir::Arin)).unwrap();
    let p6 = Prefix::new(Addr::V6(0x20010DB8_0000_0000_0000_0000_0000_0000u128), 32);
    store.insert(p6, alloc_record("G6", Rir::RipeNcc)).unwrap();
    assert_eq!(store.prefix_counts(), (1, 1));

    let q6 = Prefix::new(Addr::V6(0x20010DB8_0000_0000_0000_0000_0000_0001u128), 128);
    let recs = store.match_longest_prefix(q6, &options(MatchType::LongestMatch));
    assert_eq!(recs.prefix, Some(p6));
}

#[test]
fn matching_ignores_bits_beyond_the_prefix_length() {
    let mut store = Store::default();
    store.insert(v4(0x0A0000FF, 8), alloc_record("G", Rir::Arin)).unwrap();
    store.insert(v4(0x0A000001, 8), origin_record("64500")).unwrap();

    assert_eq!(store.prefix_counts(), (1, 0));
    let recs = store.match_longest_prefix(v4(0x0A123456, 24), &options(MatchType::LongestMatch));
    assert_eq!(recs.prefix, Some(v4(0x0A0000FF, 8)));
    let meta = recs.prefix_meta.unwrap();
    assert!(meta.0.is_some());
    assert!(meta.1.is_some());
}

#[test]
fn search_by_origin_asn_finds_intersecting_prefixes() {
    let mut store = Store::default();
    store.insert(v4(0xC0000200, 25), origin_record("64500")).unwrap();
    store.insert(v4(0x0A000000, 8), origin_record("64501")).unwrap();
    store.insert(v4(0x0B000000, 8), alloc_record("G", Rir::Arin)).unwrap();

    let opts = SearchByAsnOptions { search_type: SearchType::PrefixesByBgpAsn };
    let hits = store
        .get_prefixes_for_bgp_asn(&vec![Asn::from_str("64500").unwrap()], &opts)
        .prefixes
        .iter();
    let prefixes: Vec<Prefix> = hits.iter().map(|p| p.0).collect();
    assert_eq!(prefixes, vec![v4(0xC0000200, 25)]);

    let none = store
        .get_prefixes_for_bgp_asn(&vec![Asn::from_str("65000").unwrap()], &opts)
        .prefixes
        .iter();
    assert!(none.is_empty());
}

#[test]
fn record_set_reverse_reverses_the_order() {
    let mut store = Store::default();
    store.insert(v4(0x0A000000, 8), alloc_record("A", Rir::Arin)).unwrap();
    store.insert(v4(0x0A000000, 16), alloc_record("B", Rir::Arin)).unwrap();
    store.insert(v4(0x0A000000, 24), alloc_record("C", Rir::Arin)).unwrap();

    let recs = store.match_longest_prefix(v4(0x0A000001, 32), &options(MatchType::LongestMatch));
    let less = recs.less_specifics;
    assert_eq!(less.len(), 2);
    let reversed = less.reverse().iter();
    assert_eq!(reversed[0].0, v4(0x0A000000, 16));
    assert_eq!(reversed[1].0, v4(0x0A000000, 8));
}

#[test]
fn lookup_picks_the_most_specific_allocation_in_a_set() {
    let mut store = Store::default();
    store.insert(v4(0x0A000000, 8), alloc_record("WIDE", Rir::Arin)).unwrap();
    store.insert(v4(0x0A000000, 16), origin_record("64500")).unwrap();
    store.insert(v4(0x0A000000, 24), alloc_record("NARROW", Rir::Arin)).unwrap();

    let recs = store.match_longest_prefix(v4(0x0A000001, 32), &options(MatchType::LongestMatch));
    let hit = lookup_related_prefixes_for_lmp_in(&recs.less_specifics).unwrap();
    assert_eq!(hit.0, v4(0x0A000000, 8));
    assert_eq!(hit.1.group_id, "WIDE");
}

#[test]
fn a_query_length_beyond_the_family_width_is_answered_as_capped() {
    let mut store = Store::default();
    store.insert(v4(0x0A000000, 8), alloc_record("G", Rir::Arin)).unwrap();

    // no stored prefix is longer than the family width, so the covering
    // ancestors of such a query are the same as for a full-width query
    let recs = store.match_longest_prefix(v4(0x0A000001, 40), &options(MatchType::LongestMatch));
    assert_eq!(recs.prefix, Some(v4(0x0A000000, 8)));
    assert_eq!(recs.match_type, MatchType::LongestMatch);

    let exact = store.match_longest_prefix(v4(0x0A000001, 40), &options(MatchType::ExactMatch));
    assert!(exact.prefix.is_none());
    assert_eq!(exact.match_type, MatchType::EmptyMatch);
}
