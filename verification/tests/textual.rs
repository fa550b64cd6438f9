use roto_api::{Addr, Asn, MatchType, Prefix, Rir, SearchType, TimeStamp, TimeStamps};
use roto_api::json::JsonBuilder;
use roto_api::text::{parse_u64_dec, str_eq, u64_to_string};

#[test]
fn asn_parses_plain_decimal_numbers() {
    assert_eq!(Asn::from_str("0").unwrap().value(), 0);
    assert_eq!(Asn::from_str("64500").unwrap().value(), 64500);
    assert_eq!(Asn::from_str("4294967295").unwrap().value(), u32::MAX);
}

#[test]
fn asn_rejects_junk_and_overflow() {
    assert!(Asn::from_str("").is_err());
    assert!(Asn::from_str("AS64500").is_err());
    assert!(Asn::from_str("64 500").is_err());
    assert!(Asn::from_str("-1").is_err());
    assert!(Asn::from_str("4294967296").is_err());
}

#[test]
fn asn_renders_with_its_prefix_letters() {
    assert_eq!(Asn::from_str("64500").unwrap().to_string(), "AS64500");
    assert_eq!(Asn::from_str("0").unwrap().to_string(), "AS0");
}

#[test]
fn u64_decimal_rendering_is_exact() {
    assert_eq!(u64_to_string(0), "0");
    assert_eq!(u64_to_string(7), "7");
    assert_eq!(u64_to_string(12345), "12345");
    assert_eq!(u64_to_string(u64::MAX), "18446744073709551615");
}

#[test]
fn u64_decimal_parsing_is_exact() {
    assert_eq!(parse_u64_dec("0"), Some(0));
    assert_eq!(parse_u64_dec("18446744073709551615"), Some(u64::MAX));
    assert_eq!(parse_u64_dec("18446744073709551616"), None);
    assert_eq!(parse_u64_dec(""), None);
    assert_eq!(parse_u64_dec("12x"), None);
}

#[test]
fn str_eq_compares_characters() {
    assert!(str_eq("summary", "summary"));
    assert!(!str_eq("summary", "summarY"));
    assert!(!str_eq("", "a"));
}

#[test]
fn v4_addresses_render_as_dotted_quads() {
    assert_eq!(Addr::V4(0xC0000200).to_string(), "192.0.2.0");
    assert_eq!(Addr::V4(0).to_string(), "0.0.0.0");
    assert_eq!(Addr::V4(u32::MAX).to_string(), "255.255.255.255");
}

#[test]
fn v6_addresses_render_in_compressed_form() {
    let a = Addr::V6(0x20010DB8_0000_0000_0000_0000_0000_0001u128);
    assert_eq!(a.to_string(), "2001:db8::1");
    assert_eq!(Addr::V6(0).to_string(), "::");
    assert_eq!(Addr::V6(1).to_string(), "::1");
    assert_eq!(Addr::V6(u128::MAX).to_string(), "ffff:ffff:ffff:ffff:ffff:ffff:ffff:ffff");
}

#[test]
fn v6_compression_picks_the_leftmost_longest_zero_run() {
    // a single zero group is not compressed
    let single = Addr::V6(0x0001_0000_0002_0003_0004_0005_0006_0007u128);
    assert_eq!(single.to_string(), "1:0:2:3:4:5:6:7");
    // two runs of equal length: the leftmost is compressed
    let tie = Addr::V6(0x0001_0000_0000_0002_0000_0000_0003_0004u128);
    assert_eq!(tie.to_string(), "1::2:0:0:3:4");
    // a longer run further right wins
    let longer = Addr::V6(0x0001_0000_0000_0002_0000_0000_0000_0003u128);
    assert_eq!(longer.to_string(), "1:0:0:2::3");
}

#[test]
fn v6_mapped_addresses_render_in_the_mapped_form() {
    let mapped = Addr::V6(0x0000_0000_0000_0000_0000_FFFF_C000_0200u128);
    assert_eq!(mapped.to_string(), "::ffff:192.0.2.0");
}

#[test]
fn prefixes_render_with_their_length() {
    assert_eq!(Prefix::new(Addr::V4(0x0A000000), 8).to_string(), "10.0.0.0/8");
}

#[test]
fn registry_names_and_identifiers() {
    assert_eq!(Rir::match_from_str("afrinic"), Rir::Afrinic);
    assert_eq!(Rir::match_from_str("apnic"), Rir::Apnic);
    assert_eq!(Rir::match_from_str("arin"), Rir::Arin);
    assert_eq!(Rir::match_from_str("lacnic"), Rir::Lacnic);
    assert_eq!(Rir::match_from_str("ripencc"), Rir::RipeNcc);
    assert_eq!(Rir::match_from_str("somewhere"), Rir::Unknown);

    assert_eq!(Rir::RipeNcc.to_json_id(), "ripe");
    assert_eq!(Rir::Unknown.to_json_id(), "riswhois");
    assert_eq!(Rir::RipeNcc.to_string(), "RIPE NCC");
    assert_eq!(Rir::Arin.to_string(), "ARIN");
}

#[test]
fn match_and_search_labels() {
    assert_eq!(MatchType::LongestMatch.to_string(), "longest-match");
    assert_eq!(MatchType::ExactMatch.to_string(), "exact-match");
    assert_eq!(MatchType::EmptyMatch.to_string(), "empty-match");
    assert_eq!(SearchType::PrefixesByBgpAsn.to_string(), "prefixes-by-bgp-asn");
}

#[test]
fn json_builder_writes_members_and_indentation() {
    let mut body = JsonBuilder::new();
    body.member_str("a", "b");
    body.member_raw("n", "7");
    assert_eq!(JsonBuilder::build(body), "{\n   \"a\": \"b\",\n   \"n\": 7\n}");
}

#[test]
fn json_builder_escapes_quotes_and_backslashes() {
    let mut body = JsonBuilder::new();
    body.member_str("k", "a\"b\\c");
    assert_eq!(JsonBuilder::build(body), "{\n   \"k\": \"a\\\"b\\\\c\"\n}");
}

#[test]
fn json_builder_nests_objects_and_arrays() {
    let mut body = JsonBuilder::new();
    let mut inner = body.nested();
    inner.member_str("x", "y");
    body.member_object("obj", &inner);
    let mut arr = body.nested();
    arr.array_str("e1");
    arr.array_raw("2");
    let mut sub = arr.nested();
    sub.array_str("z");
    arr.array_array(&sub);
    body.member_array("arr", &arr);
    assert_eq!(
        JsonBuilder::build(body),
        "{\n   \"obj\": {\n      \"x\": \"y\"\n   },\n   \"arr\": [\n      \"e1\",\n      2,\n      [\n         \"z\"\n      ]\n   ]\n}"
    );
}

#[test]
fn timestamps_replace_per_source_and_render() {
    let mut ts = TimeStamps::default();
    ts.push(TimeStamp(Rir::Arin, 6, "2021-05-31T00:00:00+00:00".to_string()));
    ts.push(TimeStamp(Rir::Arin, 7, "2021-06-01T10:52:46+00:00".to_string()));
    ts.push(TimeStamp(Rir::Unknown, 3, "2021-06-02T00:00:00+00:00".to_string()));
    assert!(ts.afrinic.is_none());
    assert_eq!(ts.arin.as_ref().unwrap().1, 7);

    let rendered = ts.to_jsonstring();
    let expected = "{\n   \"sources\": [\n      {\n         \"type\": \"rir-alloc\",\n         \"id\": \"arin\",\n         \"serial\": 7,\n         \"lastUpdated\": \"2021-06-01T10:52:46+00:00\"\n      },\n      {\n         \"type\": \"bgp\",\n         \"id\": \"riswhois\",\n         \"serial\": 3,\n         \"lastUpdated\": \"2021-06-02T00:00:00+00:00\"\n      }\n   ]\n}";
    assert_eq!(rendered, expected);
}

#[test]
fn timestamp_rows_are_read_with_the_real_calendar() {
    let ts = TimeStamp::from_row("arin", "7", "Tue, 01 Jun 2021 10:52:46 +0000").unwrap();
    assert_eq!(ts.0, Rir::Arin);
    assert_eq!(ts.1, 7);
    assert_eq!(ts.2, "2021-06-01T10:52:46+00:00");
    assert_eq!(ts.to_string(), "ARIN 7 2021-06-01T10:52:46+00:00");

    assert!(TimeStamp::from_row("arin", "x", "Tue, 01 Jun 2021 10:52:46 +0000").is_none());
    assert!(TimeStamp::from_row("arin", "7", "not a date").is_none());
}

#[test]
fn v4_parsing_round_trips_with_rendering() {
    assert_eq!(roto_api::parse_v4("192.0.2.0"), Some(0xC0000200));
    assert_eq!(roto_api::parse_v4("0.0.0.0"), Some(0));
    assert_eq!(roto_api::parse_v4("255.255.255.255"), Some(u32::MAX));
    assert_eq!(roto_api::parse_v4("10.1.2.3"), Some(0x0A010203));
    let a = 0xCB007105u32;
    assert_eq!(roto_api::parse_v4(&Addr::V4(a).to_string()), Some(a));
}

#[test]
fn v4_parsing_rejects_anything_else() {
    assert_eq!(roto_api::parse_v4(""), None);
    assert_eq!(roto_api::parse_v4("192.0.2"), None);
    assert_eq!(roto_api::parse_v4("192.0.2.0.1"), None);
    assert_eq!(roto_api::parse_v4("192.0.2."), None);
    assert_eq!(roto_api::parse_v4("256.0.0.1"), None);
    assert_eq!(roto_api::parse_v4("01.2.3.4"), None);
    assert_eq!(roto_api::parse_v4("1.2.3.x"), None);
    assert_eq!(roto_api::parse_v4("2001:db8::1"), None);
}
