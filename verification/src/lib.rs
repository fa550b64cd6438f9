//! Enrichment store for IP address space: CIDR prefixes annotated with
//! regional-registry allocation records and observed BGP origin ASNs,
//! queried by longest-prefix match together with their covering ancestors,
//! contained descendants and administratively related prefixes.

use vstd::prelude::*;

pub mod addr;
pub mod json;
pub mod laws;
pub mod load;
pub mod meta;
pub mod query;
pub mod records;
pub mod render;
pub mod store;
pub mod table;
pub mod text;
pub mod time;

pub use addr::parse_v4;
pub use addr::Addr;
pub use addr::Prefix;
pub use json::JsonBuilder;
pub use load::alloc_row_plan;
pub use load::ris_row_plan;
pub use load::AllocRowPlan;
pub use meta::Asn;
pub use meta::AsnArray;
pub use meta::ExtPrefixRecord;
pub use meta::MalformedInput;
pub use meta::Rir;
pub use meta::RirDelExtRecord;
pub use meta::RisWhoisRecord;
pub use query::lookup_related_prefixes_for_lmp_in;
pub use query::resolve_anchor;
pub use records::InsertError;
pub use records::MatchOptions;
pub use records::MatchType;
pub use records::QueryResult;
pub use records::RecordSet;
pub use render::match_prefix_output;
pub use render::search_by_bgp_asn_output;
pub use store::AsnQueryResult;
pub use store::SearchByAsnOptions;
pub use store::SearchType;
pub use store::Store;
pub use time::TimeStamp;
pub use time::TimeStamps;

verus! {

/// Width in bits of the IPv4 address family.
pub const V4_WIDTH: u8 = 32;

/// Width in bits of the IPv6 address family.
pub const V6_WIDTH: u8 = 128;

} // verus!
