//! Anchor resolution: which allocation record drives the same-group
//! relation lookup for a query.
//!
//! If the primary match carries an allocation record, that record is the
//! anchor; otherwise the less-specifics are scanned from most specific to
//! least specific and the first allocation record found is taken. If none
//! is found, there is no relation set.

use vstd::prelude::*;

use crate::addr::Prefix;
use crate::meta::{AllocView, ExtPrefixRecord, RecView, RirDelExtRecord};
use crate::records::RecordSet;

verus! {

/// The allocation record of one returned pair, if any.
pub open spec fn pair_alloc(p: (Prefix, Option<RecView>)) -> Option<AllocView> {
    match p.1 {
        Some(rv) => rv.alloc,
        None => None,
    }
}

/// The first allocation record found scanning the pairs from the end.
pub open spec fn rev_first_alloc(s: Seq<(Prefix, Option<RecView>)>) -> Option<AllocView>
    decreases s.len(),
{
    if s.len() == 0 {
        None
    } else {
        match pair_alloc(s.last()) {
            Some(a) => Some(a),
            None => rev_first_alloc(s.drop_last()),
        }
    }
}

/// The anchor of a query: the primary match's own allocation record, else
/// the most specific covering ancestor's; none without a primary match.
pub open spec fn spec_anchor(
    meta: Option<RecView>,
    less: Seq<(Prefix, Option<RecView>)>,
) -> Option<AllocView> {
    match meta {
        Some(rv) => match rv.alloc {
            Some(a) => Some(a),
            None => rev_first_alloc(less),
        },
        None => None,
    }
}

/// Resolves the anchor of a query from the primary match's record and the
/// less-specifics, scanning the latter from most to least specific.
#[verifier::loop_isolation(false)]
pub fn resolve_anchor(prefix_meta: &Option<ExtPrefixRecord>, less: &RecordSet) -> (r: Option<
    RirDelExtRecord,
>)
    ensures
        r matches Some(a) ==> spec_anchor(
            match *prefix_meta {
                Some(m) => Some(m@),
                None => None,
            },
            less@,
        ) == Some(a@),
        r is None ==> spec_anchor(
            match *prefix_meta {
                Some(m) => Some(m@),
                None => None,
            },
            less@,
        ) is None,
{
    match prefix_meta {
        None => None,
        Some(m) => {
            match &m.0 {
                Some(a) => Some(a.clone()),
                None => {
                    let mut i: usize = less.len();
                    proof {
                        assert(less@.subrange(0, less@.len() as int) =~= less@);
                    }
                    while i > 0
                        invariant
                            0 <= i <= less@.len(),
                            rev_first_alloc(less@) == rev_first_alloc(
                                less@.subrange(0, i as int),
                            ),
                        decreases i,
                    {
                        i = i - 1;
                        let (_, rec) = less.get(i);
                        if let Some(rec) = rec {
                            if let Some(alloc) = &rec.0 {
                                proof {
                                    assert(less@.subrange(0, i + 1).last() == less@[i as int]);
                                    assert(pair_alloc(less@[i as int]) == Some(alloc@));
                                    assert(rev_first_alloc(less@.subrange(0, i + 1)) == Some(
                                        alloc@,
                                    ));
                                }
                                return Some(alloc.clone());
                            }
                        }
                        proof {
                            assert(less@.subrange(0, i + 1).last() == less@[i as int]);
                            assert(less@.subrange(0, i + 1).drop_last() =~= less@.subrange(
                                0,
                                i as int,
                            ));
                            assert(pair_alloc(less@[i as int]) is None);
                        }
                    }
                    proof {
                        assert(less@.subrange(0, 0) =~= Seq::<(Prefix, Option<RecView>)>::empty());
                    }
                    None
                },
            }
        },
    }
}

/// The pair with the greatest prefix length among those carrying an
/// allocation record — the last such pair when several share that length.
pub open spec fn anchor_in(s: Seq<(Prefix, Option<RecView>)>) -> Option<(Prefix, AllocView)>
    decreases s.len(),
{
    if s.len() == 0 {
        None
    } else {
        let rest = anchor_in(s.drop_last());
        match pair_alloc(s.last()) {
            Some(a) => match rest {
                Some(pa) => if pa.0.len > s.last().0.len {
                    Some(pa)
                } else {
                    Some((s.last().0, a))
                },
                None => Some((s.last().0, a)),
            },
            None => rest,
        }
    }
}

/// The most specific pair of the set that carries an allocation record,
/// with that record; the last one when several share the greatest length.
pub fn lookup_related_prefixes_for_lmp_in(rec: &RecordSet) -> (r: Option<(Prefix, RirDelExtRecord)>)
    ensures
        r matches Some((p, a)) ==> anchor_in(rec@) == Some((p, a@)),
        r is None <==> anchor_in(rec@) is None,
{
    let mut best: Option<(Prefix, RirDelExtRecord)> = None;
    let mut i: usize = 0;
    while i < rec.len()
        invariant
            0 <= i <= rec@.len(),
            match best {
                Some((p, a)) => anchor_in(rec@.subrange(0, i as int)) == Some((p, a@)),
                None => anchor_in(rec@.subrange(0, i as int)) is None,
            },
        decreases rec@.len() - i,
    {
        let (p, m) = rec.get(i);
        let mut hit: Option<RirDelExtRecord> = None;
        if let Some(m) = m {
            if let Some(a) = &m.0 {
                hit = Some(a.clone());
            }
        }
        proof {
            assert(rec@.subrange(0, i + 1).last() == rec@[i as int]);
            assert(rec@.subrange(0, i + 1).drop_last() =~= rec@.subrange(0, i as int));
            match &hit {
                Some(a) => assert(pair_alloc(rec@[i as int]) == Some(a@)),
                None => assert(pair_alloc(rec@[i as int]) is None),
            }
        }
        if let Some(a) = hit {
            let take = match &best {
                Some((bp, _)) => bp.len <= p.len,
                None => true,
            };
            if take {
                best = Some((*p, a));
            }
        }
        i = i + 1;
    }
    proof {
        assert(rec@.subrange(0, rec@.len() as int) =~= rec@);
    }
    best
}

} // verus!
