//! Query options, result shapes and the errors of the store.

use vstd::prelude::*;

use crate::addr::Prefix;
use crate::meta::{ExtPrefixRecord, RecView};

verus! {

/// How the primary match of a query is selected.
#[derive(Clone, Copy, Debug, PartialEq, Eq, Structural)]
pub enum MatchType {
    /// Only a record stored at exactly the query prefix.
    ExactMatch,
    /// The deepest record on the path from the root to the query prefix.
    LongestMatch,
    /// No primary match; only the requested enumerations.
    EmptyMatch,
}

/// The label a match type carries in rendered output.
pub open spec fn match_type_label(t: MatchType) -> Seq<char> {
    match t {
        MatchType::ExactMatch => "exact-match"@,
        MatchType::LongestMatch => "longest-match"@,
        MatchType::EmptyMatch => "empty-match"@,
    }
}

impl MatchType {
    /// The label this match type carries in rendered output.
    pub fn to_string(self) -> (r: String)
        ensures
            r@ == match_type_label(self),
    {
        match self {
            MatchType::ExactMatch => "exact-match".to_owned(),
            MatchType::LongestMatch => "longest-match".to_owned(),
            MatchType::EmptyMatch => "empty-match".to_owned(),
        }
    }
}

/// What a query should match and which enumerations it should collect.
#[derive(Clone, Copy, Debug, PartialEq, Eq, Structural)]
pub struct MatchOptions {
    pub match_type: MatchType,
    pub include_less_specifics: bool,
    pub include_more_specifics: bool,
}

/// The error of an insert whose prefix length exceeds the bit width of its
/// address family.
#[derive(Clone, Copy, Debug, PartialEq, Eq, Structural)]
pub enum InsertError {
    LengthOutOfRange,
}

/// The mathematical value of one returned pair: the prefix and the value
/// of its record, if any.
pub open spec fn pair_view(p: (Prefix, Option<ExtPrefixRecord>)) -> (Prefix, Option<RecView>) {
    (
        p.0,
        match p.1 {
            Some(m) => Some(m@),
            None => None,
        },
    )
}

/// An ordered sequence of prefixes, each with its record. The order is
/// significant: callers rely on it.
#[derive(Debug)]
pub struct RecordSet {
    pairs: Vec<(Prefix, Option<ExtPrefixRecord>)>,
}

impl View for RecordSet {
    type V = Seq<(Prefix, Option<RecView>)>;

    closed spec fn view(&self) -> Seq<(Prefix, Option<RecView>)> {
        self.pairs@.map_values(|p: (Prefix, Option<ExtPrefixRecord>)| pair_view(p))
    }
}

impl RecordSet {
    pub(crate) fn from_pairs(pairs: Vec<(Prefix, Option<ExtPrefixRecord>)>) -> (r: Self)
        ensures
            r@ == pairs@.map_values(|p: (Prefix, Option<ExtPrefixRecord>)| pair_view(p)),
    {
        RecordSet { pairs }
    }

    /// A sequence with no pairs at all.
    pub fn empty() -> (r: Self)
        ensures
            r@ =~= Seq::<(Prefix, Option<RecView>)>::empty(),
    {
        RecordSet { pairs: Vec::new() }
    }

    pub fn is_empty(&self) -> (r: bool)
        ensures
            r == (self@.len() == 0),
    {
        self.pairs.is_empty()
    }

    /// The number of pairs.
    pub fn len(&self) -> (r: usize)
        ensures
            r == self@.len(),
    {
        self.pairs.len()
    }

    /// The pairs, in order, as one freshly cloned vector.
    pub fn iter(&self) -> (r: Vec<(Prefix, Option<ExtPrefixRecord>)>)
        ensures
            r@.map_values(|p: (Prefix, Option<ExtPrefixRecord>)| pair_view(p)) == self@,
            r@.len() == self@.len(),
    {
        let mut out: Vec<(Prefix, Option<ExtPrefixRecord>)> = Vec::new();
        let mut i: usize = 0;
        while i < self.pairs.len()
            invariant
                0 <= i <= self.pairs.len(),
                out@.len() == i,
                forall|j: int|
                    0 <= j < i ==> pair_view(#[trigger] out@[j]) == pair_view(self.pairs@[j]),
            decreases self.pairs.len() - i,
        {
            let (p, m) = &self.pairs[i];
            let mc = match m {
                Some(rec) => Some(rec.clone()),
                None => None,
            };
            out.push((*p, mc));
            i = i + 1;
        }
        proof {
            assert(out@.map_values(|p: (Prefix, Option<ExtPrefixRecord>)| pair_view(p)) =~= self@);
        }
        out
    }

    /// The pair at the given position.
    pub fn get(&self, i: usize) -> (r: &(Prefix, Option<ExtPrefixRecord>))
        requires
            i < self@.len(),
        ensures
            pair_view(*r) == self@[i as int],
    {
        &self.pairs[i]
    }

    /// The same pairs in the opposite order.
    pub fn reverse(self) -> (r: RecordSet)
        ensures
            r@ == self@.reverse(),
    {
        let n = self.pairs.len();
        let mut out: Vec<(Prefix, Option<ExtPrefixRecord>)> = Vec::new();
        let mut i: usize = n;
        while i > 0
            invariant
                0 <= i <= n == self.pairs.len(),
                out@.len() == n - i,
                forall|j: int|
                    0 <= j < n - i ==> pair_view(#[trigger] out@[j]) == pair_view(
                        self.pairs@[n - 1 - j],
                    ),
            decreases i,
        {
            i = i - 1;
            let (p, m) = &self.pairs[i];
            let mc = match m {
                Some(rec) => Some(rec.clone()),
                None => None,
            };
            out.push((*p, mc));
        }
        let r = RecordSet { pairs: out };
        proof {
            assert(r@ =~= self@.reverse());
        }
        r
    }
}

/// The answer of one query: the primary match (if any) with its record,
/// the kind of match that produced it, and the requested enumerations.
#[derive(Debug)]
pub struct QueryResult {
    pub prefix: Option<Prefix>,
    pub prefix_meta: Option<ExtPrefixRecord>,
    pub match_type: MatchType,
    pub less_specifics: RecordSet,
    pub more_specifics: RecordSet,
}

} // verus!
