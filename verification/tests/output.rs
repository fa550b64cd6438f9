use roto_api::{
    alloc_row_plan, match_prefix_output, ris_row_plan, search_by_bgp_asn_output, Addr,
    AllocRowPlan, Asn, AsnArray, ExtPrefixRecord, MatchOptions, MatchType, Prefix, Rir,
    RirDelExtRecord, RisWhoisRecord, SearchByAsnOptions, SearchType, Store,
};

fn options() -> MatchOptions {
    MatchOptions {
        match_type: MatchType::LongestMatch,
        include_less_specifics: true,
        include_more_specifics: true,
    }
}

fn row(fields: &[&str]) -> Vec<String> {
    fields.iter().map(|f| f.to_string()).collect()
}

#[test]
fn no_match_renders_the_not_found_document() {
    let store = Store::default();
    let out = match_prefix_output(&store, Prefix::new(Addr::V4(0xCB007105), 32), &options());
    let expected = "{\n   \"type\": \"longest-match\",\n   \"prefix\": \"203.0.113.5/32\",\n   \"result\": {\n      \"prefix\": null,\n      \"type\": \"empty-match\",\n      \"meta\": [],\n      \"members\": []\n   }\n}";
    assert_eq!(out, expected);
}

#[test]
fn a_match_renders_its_sources_and_relations() {
    let mut store = Store::default();
    store
        .insert(
            Prefix::new(Addr::V4(0xC0000200), 24),
            ExtPrefixRecord(Some(RirDelExtRecord::new("G1".to_string(), Rir::Arin)), None),
        )
        .unwrap();
    store
        .insert(
            Prefix::new(Addr::V4(0xC0000200), 25),
            ExtPrefixRecord(
                None,
                Some(RisWhoisRecord {
                    origin_asns: AsnArray(vec![Asn::from_str("64500").unwrap()]),
                }),
            ),
        )
        .unwrap();

    let out = match_prefix_output(&store, Prefix::new(Addr::V4(0xC000020A), 32), &options());
    assert!(out.contains("\"prefix\": \"192.0.2.10/32\""));
    assert!(out.contains("\"prefix\": \"192.0.2.0/25\""));
    assert!(out.contains("\"sourceType\": \"bgp\""));
    assert!(out.contains("\"AS64500\""));
    assert!(out.contains("\"type\": \"less-specific\""));
    assert!(out.contains("\"type\": \"same-org\""));
    assert!(out.contains("\"prefix\": \"192.0.2.0/24\""));
    assert!(out.contains("\"sourceID\": \"arin\""));
    assert!(out.contains("\"type\": \"more-specific\""));
}

#[test]
fn an_exact_hit_is_labelled_exact_match() {
    let mut store = Store::default();
    store
        .insert(
            Prefix::new(Addr::V4(0xC0000200), 25),
            ExtPrefixRecord(
                Some(RirDelExtRecord::new("G1".to_string(), Rir::Arin)),
                Some(RisWhoisRecord {
                    origin_asns: AsnArray(vec![Asn::from_str("64500").unwrap()]),
                }),
            ),
        )
        .unwrap();

    let out = match_prefix_output(&store, Prefix::new(Addr::V4(0xC0000200), 25), &options());
    assert!(out.contains("\"type\": \"exact-match\""));
    assert!(out.contains("\"type\": \"same-org\""));
}

#[test]
fn asn_search_renders_the_empty_document() {
    let store = Store::default();
    let opts = SearchByAsnOptions { search_type: SearchType::PrefixesByBgpAsn };
    let out = search_by_bgp_asn_output(&store, vec![Asn::from_str("1").unwrap()], &opts);
    let expected = "{\n   \"type\": \"prefixes-by-bgp-asn\",\n   \"asns\": [\n      \"AS1\"\n   ],\n   \"meta\": null,\n   \"result\": {\n      \"relations\": [\n         {\n            \"type\": \"bgp-origin-asn\",\n            \"members\": [\n\n            ]\n         }\n      ]\n   }\n}";
    assert_eq!(out, expected);
}

#[test]
fn asn_search_lists_matching_prefixes() {
    let mut store = Store::default();
    store
        .insert(
            Prefix::new(Addr::V4(0xC0000200), 25),
            ExtPrefixRecord(
                None,
                Some(RisWhoisRecord {
                    origin_asns: AsnArray(vec![Asn::from_str("64500").unwrap()]),
                }),
            ),
        )
        .unwrap();
    let opts = SearchByAsnOptions { search_type: SearchType::PrefixesByBgpAsn };
    let out = search_by_bgp_asn_output(&store, vec![Asn::from_str("64500").unwrap()], &opts);
    assert!(out.contains("\"prefix\": \"192.0.2.0/25\""));
    assert!(out.contains("\"type\": \"bgp-origin-asn\""));
}

#[test]
fn allocation_rows_are_classified_by_the_dataset_rules() {
    let plan = alloc_row_plan(&row(&[
        "arin", "US", "ipv4", "192.0.2.0", "256", "20210601", "allocated", "G1",
    ]))
    .unwrap();
    match plan {
        AllocRowPlan::V4 { len, meta } => {
            assert_eq!(len, 24);
            let alloc = meta.0.unwrap();
            assert_eq!(alloc.group_id, "G1");
            assert_eq!(alloc.rir, Rir::Arin);
            assert!(meta.1.is_none());
        }
        _ => panic!("expected an insert in the 32-bit family"),
    }

    let plan6 = alloc_row_plan(&row(&[
        "ripencc", "NL", "ipv6", "2001:db8::", "32", "20210601", "allocated", "G2",
    ]))
    .unwrap();
    match plan6 {
        AllocRowPlan::V6 { len, meta } => {
            assert_eq!(len, 32);
            assert_eq!(meta.0.unwrap().rir, Rir::RipeNcc);
        }
        _ => panic!("expected an insert in the 128-bit family"),
    }
}

#[test]
fn allocation_rows_outside_the_rules_are_skipped_or_rejected() {
    assert!(matches!(alloc_row_plan(&row(&["# a comment"])), Ok(AllocRowPlan::Skip)));
    assert!(matches!(
        alloc_row_plan(&row(&["arin", "*", "ipv4", "*", "1000", "summary"])),
        Ok(AllocRowPlan::Skip)
    ));
    assert!(matches!(
        alloc_row_plan(&row(&[
            "arin", "US", "ipv4", "192.0.2.0", "256", "20210601", "reserved", "G1",
        ])),
        Ok(AllocRowPlan::Skip)
    ));
    assert!(matches!(
        alloc_row_plan(&row(&[
            "arin", "US", "ipv4", "192.0.2.0", "256", "20210601", "available", "G1",
        ])),
        Ok(AllocRowPlan::Skip)
    ));
    // no group identifier
    assert!(matches!(
        alloc_row_plan(&row(&["arin", "US", "ipv4", "192.0.2.0", "256", "20210601", "allocated"])),
        Ok(AllocRowPlan::Skip)
    ));
    // a kind the store does not hold
    assert!(matches!(
        alloc_row_plan(&row(&["arin", "US", "asn", "64500", "1", "20210601", "allocated", "G1"])),
        Ok(AllocRowPlan::Skip)
    ));
    // an unparseable count is malformed
    assert!(alloc_row_plan(&row(&[
        "arin", "US", "ipv4", "192.0.2.0", "lots", "20210601", "allocated", "G1",
    ]))
    .is_err());
    // a row too short to classify is malformed
    assert!(alloc_row_plan(&row(&["arin", "US", "ipv4"])).is_err());
}

#[test]
fn origin_rows_carry_one_number_each() {
    let (len, meta) = ris_row_plan("25", "64500").unwrap();
    assert_eq!(len, 25);
    assert!(meta.0.is_none());
    let values: Vec<u32> = meta.1.unwrap().origin_asns.0.iter().map(|a| a.value()).collect();
    assert_eq!(values, vec![64500]);

    assert!(ris_row_plan("256", "64500").is_err());
    assert!(ris_row_plan("x", "64500").is_err());
    assert!(ris_row_plan("25", "x").is_err());
}

#[test]
fn loading_rows_end_to_end_builds_a_queryable_store() {
    let mut store = Store::default();
    let rows = vec![
        row(&["#version", "2"]),
        row(&["arin", "US", "ipv4", "10.0.0.0", "16777216", "20210601", "allocated", "G2"]),
        row(&["arin", "US", "ipv4", "10.1.0.0", "65536", "20210601", "allocated", "G2"]),
    ];
    for r in rows {
        match alloc_row_plan(&r).unwrap() {
            AllocRowPlan::Skip => {}
            AllocRowPlan::V4 { len, meta } => {
                // the caller parses the start address; these rows are fixed
                let addr = if r[3] == "10.0.0.0" { 0x0A000000u32 } else { 0x0A010000u32 };
                store.insert(Prefix::new(Addr::V4(addr), len), meta).unwrap();
            }
            AllocRowPlan::V6 { .. } => panic!("unexpected family"),
        }
    }
    let (len, meta) = ris_row_plan("8", "64500").unwrap();
    store.insert(Prefix::new(Addr::V4(0x0A000000), len), meta).unwrap();

    assert_eq!(store.prefix_counts(), (2, 0));
    let rec = RirDelExtRecord::new("G2".to_string(), Rir::Arin);
    let related = store.get_related_prefixes(&rec).iter();
    assert_eq!(related.len(), 2);

    let recs = store.match_longest_prefix(Prefix::new(Addr::V4(0x0A000001), 32), &options());
    assert_eq!(recs.prefix, Some(Prefix::new(Addr::V4(0x0A000000), 8)));
    let meta = recs.prefix_meta.unwrap();
    assert_eq!(meta.0.unwrap().group_id, "G2");
    let values: Vec<u32> = meta.1.unwrap().origin_asns.0.iter().map(|a| a.value()).collect();
    assert_eq!(values, vec![64500]);
}
