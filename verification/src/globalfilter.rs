//! Global filters: boolean rules over a request, compiled from configuration.

use crate::interface::SimpleAction;
use crate::netaddr::{AddrRange, IpAddress, IpNetwork};
use crate::pattern::{compiles, regex_compiles};
use crate::raw::Relation;
use crate::request::RequestInfo;
use crate::location::LocationView;
use crate::tagging::{entry_result, entry_results, folded, MatchView};
use crate::tags::TagsView;
use vstd::prelude::*;

verus! {

/// A predicate on one text: it holds where the text equals `exact`, or where the
/// pattern `re`, if there is one, matches the text.
#[derive(Debug)]
pub struct SingleEntry {
    pub exact: String,
    pub re: Option<String>,
}

/// A predicate on the value found under `key`.
#[derive(Debug)]
pub struct PairEntry {
    pub key: String,
    pub exact: String,
    pub re: Option<String>,
}

/// The pattern to try beside the exact text: the text itself where it compiles as a
/// regular expression, none otherwise.
pub open spec fn pattern_of(input: Seq<char>) -> Option<Seq<char>> {
    if regex_compiles(input) {
        Some(input)
    } else {
        None
    }
}

/// The text of an optional pattern.
pub open spec fn pattern_text(re: Option<String>) -> Option<Seq<char>> {
    match re {
        Some(p) => Some(p@),
        None => None,
    }
}

fn pattern_for(input: &str) -> (re: Option<String>)
    ensures
        pattern_text(re) == pattern_of(input@),
{
    if compiles(input) {
        Some(input.to_string())
    } else {
        None
    }
}

impl SingleEntry {
    /// The predicate that `input` stands for: the text itself, and as a pattern too where
    /// it compiles.
    pub fn new(input: &str) -> (e: Self)
        ensures
            e.exact@ == input@,
            pattern_text(e.re) == pattern_of(input@),
    {
        SingleEntry { exact: input.to_string(), re: pattern_for(input) }
    }
}

impl PairEntry {
    /// The predicate that `input` stands for on the value under `key`.
    pub fn new(key: &str, input: &str) -> (e: Self)
        ensures
            e.key@ == key@,
            e.exact@ == input@,
            pattern_text(e.re) == pattern_of(input@),
    {
        PairEntry { key: key.to_string(), exact: input.to_string(), re: pattern_for(input) }
    }
}

/// A leaf predicate.
#[derive(Debug)]
pub enum GlobalFilterEntryE {
    Ip(IpAddress),
    Network(IpNetwork),
    Range4(AddrRange),
    Range6(AddrRange),
    Path(SingleEntry),
    Query(SingleEntry),
    Uri(SingleEntry),
    Country(SingleEntry),
    Region(SingleEntry),
    SubRegion(SingleEntry),
    Method(SingleEntry),
    Asn(u32),
    Company(SingleEntry),
    Authority(SingleEntry),
    Tag(SingleEntry),
    Header(PairEntry),
    Args(PairEntry),
    Cookies(PairEntry),
}

/// A leaf of a filter: a predicate, taken as it is or negated.
#[derive(Debug)]
pub struct GlobalFilterEntry {
    pub negated: bool,
    pub entry: GlobalFilterEntryE,
}

/// The inner level of a filter: leaves combined under one relation.
#[derive(Debug)]
pub struct GlobalFilterSSection {
    pub relation: Relation,
    pub entries: Vec<GlobalFilterEntry>,
}

/// A filter: subsections combined under one relation, with the tags to set and the
/// action to take where it matches.
#[derive(Debug)]
pub struct GlobalFilterSection {
    pub id: String,
    pub tags: Vec<String>,
    pub relation: Relation,
    pub sections: Vec<GlobalFilterSSection>,
    pub action: Option<SimpleAction>,
    pub name: String,
}

/// Whether the leaves of `entries`, combined under `rel`, match the request.
pub open spec fn entries_match(
    rel: Relation,
    rinfo: &RequestInfo,
    tags: TagsView,
    entries: Seq<GlobalFilterEntry>,
) -> bool {
    folded(rel, entry_results(rinfo, tags, entries)).matching
}

/// The evidence that the leaves of `entries` give for the request.
pub open spec fn entries_evidence(
    rel: Relation,
    rinfo: &RequestInfo,
    tags: TagsView,
    entries: Seq<GlobalFilterEntry>,
) -> Set<LocationView> {
    folded(rel, entry_results(rinfo, tags, entries)).matched
}

/// Two outcomes combined under `rel`.
pub open spec fn combined(rel: Relation, a: bool, b: bool) -> bool {
    match rel {
        Relation::And => a && b,
        Relation::Or => a || b,
    }
}

/// Whether a leaf is a predicate on the address of the request alone.
pub open spec fn is_address_leaf(e: &GlobalFilterEntry) -> bool {
    e.entry is Ip || e.entry is Network || e.entry is Range4 || e.entry is Range6
}

/// Whether a leaf is a predicate on a range of addresses.
pub open spec fn is_range_leaf(e: &GlobalFilterEntry) -> bool {
    e.entry is Range4 || e.entry is Range6
}

/// The leaves of `entries` that are not predicates on the address, in order.
pub open spec fn other_leaves(entries: Seq<GlobalFilterEntry>) -> Seq<GlobalFilterEntry>
    decreases entries.len(),
{
    if entries.len() == 0 {
        Seq::empty()
    } else if is_address_leaf(&entries.last()) {
        other_leaves(entries.drop_last())
    } else {
        other_leaves(entries.drop_last()).push(entries.last())
    }
}

/// The family of an address leaf: whether it is a predicate on IPv6 addresses.
pub open spec fn family_of(e: &GlobalFilterEntry) -> Option<bool> {
    match e.entry {
        GlobalFilterEntryE::Ip(IpAddress::V4(_)) => Some(false),
        GlobalFilterEntryE::Ip(IpAddress::V6(_)) => Some(true),
        GlobalFilterEntryE::Network(IpNetwork::V4(_)) => Some(false),
        GlobalFilterEntryE::Network(IpNetwork::V6(_)) => Some(true),
        GlobalFilterEntryE::Range4(_) => Some(false),
        GlobalFilterEntryE::Range6(_) => Some(true),
        _ => None,
    }
}

/// Whether `entries` has an address leaf of the family and the sign asked for.
pub open spec fn has_family_leaf(entries: Seq<GlobalFilterEntry>, v6: bool, negated: bool) -> bool
    decreases entries.len(),
{
    if entries.len() == 0 {
        false
    } else {
        has_family_leaf(entries.drop_last(), v6, negated) || (family_of(&entries.last()) == Some(
            v6,
        ) && entries.last().negated == negated)
    }
}

/// How many range leaves stand for the address leaves of one family: under `And` one,
/// where there is any such leaf; under `Or` one for the leaves taken as they are and one
/// for the negated ones.
pub open spec fn range_leaves(rel: Relation, pos: bool, neg: bool) -> nat {
    match rel {
        Relation::And => if pos || neg {
            1
        } else {
            0
        },
        Relation::Or => (if pos {
            1nat
        } else {
            0nat
        }) + (if neg {
            1nat
        } else {
            0nat
        }),
    }
}

/// The address of the request as a number, where it is of the family asked for.
pub open spec fn family_address(ip: Option<IpAddress>, v6: bool) -> Option<u128> {
    match ip {
        Some(IpAddress::V4(a)) => if v6 {
            None
        } else {
            Some(a as u128)
        },
        Some(IpAddress::V6(a)) => if v6 {
            Some(a)
        } else {
            None
        },
        None => None,
    }
}

/// Whether `addr` is there and `range` holds it.
pub open spec fn inside(addr: Option<u128>, range: &AddrRange) -> bool {
    addr matches Some(x) && range.holds(x)
}

/// What the address leaves of one family amount to, once gathered: `pos` stands for the
/// leaves taken as they are, `neg` for the negated ones.
///
/// Under `And` every leaf has to match: the address lies in `pos` and not in `neg`.
/// Under `Or` one leaf has to match: the address lies in `pos` or not in `neg`.
pub open spec fn gathered(
    rel: Relation,
    pos: Option<AddrRange>,
    neg: Option<AddrRange>,
    addr: Option<u128>,
) -> bool {
    match rel {
        Relation::And => (pos matches Some(p) ==> inside(addr, &p)) && (neg matches Some(n)
            ==> !inside(addr, &n)),
        Relation::Or => (pos matches Some(p) && inside(addr, &p)) || (neg matches Some(n)
            && !inside(addr, &n)),
    }
}

/// Whether the address lies in one of the two ranges gathered of a family.
pub open spec fn touched(pos: Option<AddrRange>, neg: Option<AddrRange>, addr: Option<u128>) -> bool {
    (pos matches Some(p) && inside(addr, &p)) || (neg matches Some(n) && inside(addr, &n))
}

/// The evidence of a leaf on a range of addresses: the address, where the range holds it.
pub open spec fn range_evidence(hit: bool) -> Set<LocationView> {
    if hit {
        set![LocationView::Ip]
    } else {
        Set::empty()
    }
}

/// How the evidence of a subsection may change when its address leaves are gathered:
/// none is added, and none is lost but the address.
pub open spec fn evidence_kept(
    rel: Relation,
    rinfo: &RequestInfo,
    tags: TagsView,
    before: Seq<GlobalFilterEntry>,
    after: Seq<GlobalFilterEntry>,
) -> bool {
    &&& entries_evidence(rel, rinfo, tags, after).subset_of(
        entries_evidence(rel, rinfo, tags, before),
    )
    &&& entries_evidence(rel, rinfo, tags, before).subset_of(
        entries_evidence(rel, rinfo, tags, after).insert(LocationView::Ip),
    )
}

/// One more leaf in a list combines with the leaves before it, and adds its evidence
/// to theirs.
pub proof fn lemma_entries_push(
    rel: Relation,
    rinfo: &RequestInfo,
    tags: TagsView,
    entries: Seq<GlobalFilterEntry>,
    e: GlobalFilterEntry,
)
    ensures
        entries_match(rel, rinfo, tags, entries.push(e)) == combined(
            rel,
            entries_match(rel, rinfo, tags, entries),
            entry_result(rinfo, tags, &e).matching,
        ),
        entries_evidence(rel, rinfo, tags, entries.push(e)) == entries_evidence(
            rel,
            rinfo,
            tags,
            entries,
        ).union(entry_result(rinfo, tags, &e).matched),
{
    let all = entry_results(rinfo, tags, entries.push(e));
    assert(all.drop_last() =~= entry_results(rinfo, tags, entries));
    assert(all.last() == entry_result(rinfo, tags, &e));
}

/// Takes one more leaf of a family into what was gathered of it. The leaf holds of the
/// addresses in `range` and is negated or not.
fn gather(
    rel: Relation,
    negated: bool,
    pos: Option<AddrRange>,
    neg: Option<AddrRange>,
    range: AddrRange,
) -> (r: (Option<AddrRange>, Option<AddrRange>))
    ensures
        forall|addr: Option<u128>| #[trigger]
            gathered(rel, r.0, r.1, addr) == combined(
                rel,
                gathered(rel, pos, neg, addr),
                inside(addr, &range) != negated,
            ),
        forall|addr: Option<u128>| #[trigger]
            touched(r.0, r.1, addr) ==> touched(pos, neg, addr) || inside(addr, &range),
        r.0 is Some <==> pos is Some || !negated,
        r.1 is Some <==> neg is Some || negated,
{
    let (same, other) = if negated {
        (neg, pos)
    } else {
        (pos, neg)
    };
    // Leaves that agree in sign narrow each other under `And` when taken as they are and
    // under `Or` when negated; otherwise they widen each other.
    let narrows = match rel {
        Relation::And => !negated,
        Relation::Or => negated,
    };
    let joined = match same {
        None => range,
        Some(known) => if narrows {
            known.intersect(&range)
        } else {
            known.merge(&range)
        },
    };
    let r = if negated {
        (other, Some(joined))
    } else {
        (Some(joined), other)
    };
    assert forall|addr: Option<u128>|
        #![trigger gathered(rel, r.0, r.1, addr)]
        #![trigger touched(r.0, r.1, addr)]
        gathered(rel, r.0, r.1, addr) == combined(
            rel,
            gathered(rel, pos, neg, addr),
            inside(addr, &range) != negated,
        ) && (touched(r.0, r.1, addr) ==> touched(pos, neg, addr) || inside(addr, &range)) by {
        match addr {
            Some(x) => {
                assert(joined.holds(x) == match same {
                    None => range.holds(x),
                    Some(known) => if narrows {
                        known.holds(x) && range.holds(x)
                    } else {
                        known.holds(x) || range.holds(x)
                    },
                });
            },
            None => {},
        }
    }
    r
}

/// The leaf that holds of the addresses of `range`, in the family asked for.
fn range_entry(negated: bool, range: AddrRange, v6: bool) -> (e: GlobalFilterEntry)
    ensures
        is_range_leaf(&e),
        forall|rinfo: &RequestInfo, tags: TagsView| #[trigger]
            entry_result(rinfo, tags, &e) == (MatchView {
                matched: range_evidence(
                    inside(family_address(rinfo.rinfo.geoip.ip, v6), &range),
                ),
                matching: inside(family_address(rinfo.rinfo.geoip.ip, v6), &range) != negated,
            }),
{
    if v6 {
        GlobalFilterEntry { negated, entry: GlobalFilterEntryE::Range6(range) }
    } else {
        GlobalFilterEntry { negated, entry: GlobalFilterEntryE::Range4(range) }
    }
}

/// What adding the leaves for one family does to a list: the leaves combine with the
/// list as what was gathered does, and give the address as evidence only where it lies
/// in what was gathered.
pub open spec fn emitted(
    rel: Relation,
    rinfo: &RequestInfo,
    tags: TagsView,
    before: Seq<GlobalFilterEntry>,
    after: Seq<GlobalFilterEntry>,
    pos: Option<AddrRange>,
    neg: Option<AddrRange>,
    v6: bool,
) -> bool {
    let addr = family_address(rinfo.rinfo.geoip.ip, v6);
    &&& entries_match(rel, rinfo, tags, after) == combined(
        rel,
        entries_match(rel, rinfo, tags, before),
        gathered(rel, pos, neg, addr),
    )
    &&& entries_evidence(rel, rinfo, tags, before).subset_of(
        entries_evidence(rel, rinfo, tags, after),
    )
    &&& entries_evidence(rel, rinfo, tags, after).subset_of(
        entries_evidence(rel, rinfo, tags, before).union(range_evidence(touched(pos, neg, addr))),
    )
}

/// What one more leaf on a range of addresses does to a list.
pub open spec fn added(
    rel: Relation,
    rinfo: &RequestInfo,
    tags: TagsView,
    before: Seq<GlobalFilterEntry>,
    after: Seq<GlobalFilterEntry>,
    negated: bool,
    range: &AddrRange,
    v6: bool,
) -> bool {
    let hit = inside(family_address(rinfo.rinfo.geoip.ip, v6), range);
    &&& entries_match(rel, rinfo, tags, after) == combined(
        rel,
        entries_match(rel, rinfo, tags, before),
        hit != negated,
    )
    &&& entries_evidence(rel, rinfo, tags, after) == entries_evidence(
        rel,
        rinfo,
        tags,
        before,
    ).union(range_evidence(hit))
}

/// Adds one leaf on a range of addresses to `out`.
fn emit_one(
    rel: Relation,
    out: &mut Vec<GlobalFilterEntry>,
    negated: bool,
    range: AddrRange,
    v6: bool,
)
    ensures
        final(out)@.len() == old(out)@.len() + 1,
        final(out)@.take(old(out)@.len() as int) == old(out)@,
        is_range_leaf(&final(out)@.last()),
        forall|rinfo: &RequestInfo, tags: TagsView| #[trigger]
            added(rel, rinfo, tags, old(out)@, final(out)@, negated, &range, v6),
{
    let e = range_entry(negated, range, v6);
    out.push(e);
    assert(out@.take(old(out)@.len() as int) =~= old(out)@);
    assert forall|rinfo: &RequestInfo, tags: TagsView| #[trigger]
        added(rel, rinfo, tags, old(out)@, out@, negated, &range, v6) by {
        lemma_entries_push(rel, rinfo, tags, old(out)@, e);
        assert(entry_result(rinfo, tags, &e).matching == (inside(
            family_address(rinfo.rinfo.geoip.ip, v6),
            &range,
        ) != negated));
    }
}

/// Adds to `out` the leaves that stand for what was gathered of one family.
fn emit(
    rel: Relation,
    out: &mut Vec<GlobalFilterEntry>,
    pos: Option<AddrRange>,
    neg: Option<AddrRange>,
    v6: bool,
)
    ensures
        final(out)@.len() == old(out)@.len() + range_leaves(rel, pos is Some, neg is Some),
        final(out)@.take(old(out)@.len() as int) == old(out)@,
        forall|i: int|
            old(out)@.len() <= i < final(out)@.len() ==> is_range_leaf(&#[trigger] final(out)@[i]),
        forall|rinfo: &RequestInfo, tags: TagsView| #[trigger]
            emitted(rel, rinfo, tags, old(out)@, final(out)@, pos, neg, v6),
{
    let ghost start = out@;
    match rel {
        Relation::And => match (pos, neg) {
            (Some(p), Some(n)) => {
                let range = p.exclude(&n);
                emit_one(rel, out, false, range, v6);
                assert forall|rinfo: &RequestInfo, tags: TagsView| #[trigger]
                    emitted(rel, rinfo, tags, start, out@, pos, neg, v6) by {
                    assert(added(rel, rinfo, tags, start, out@, false, &range, v6));
                }
            },
            (Some(p), None) => {
                emit_one(rel, out, false, p, v6);
                assert forall|rinfo: &RequestInfo, tags: TagsView| #[trigger]
                    emitted(rel, rinfo, tags, start, out@, pos, neg, v6) by {
                    assert(added(rel, rinfo, tags, start, out@, false, &p, v6));
                }
            },
            (None, Some(n)) => {
                emit_one(rel, out, true, n, v6);
                assert forall|rinfo: &RequestInfo, tags: TagsView| #[trigger]
                    emitted(rel, rinfo, tags, start, out@, pos, neg, v6) by {
                    assert(added(rel, rinfo, tags, start, out@, true, &n, v6));
                }
            },
            (None, None) => {
                assert(out@.take(start.len() as int) =~= start);
            },
        },
        Relation::Or => {
            match pos {
                Some(p) => {
                    emit_one(rel, out, false, p, v6);
                },
                None => {
                    assert(out@.take(start.len() as int) =~= start);
                },
            }
            let ghost mid = out@;
            assert forall|rinfo: &RequestInfo, tags: TagsView| #[trigger]
                emitted(rel, rinfo, tags, start, mid, pos, None, v6) by {
                match pos {
                    Some(p) => {
                        assert(added(rel, rinfo, tags, start, mid, false, &p, v6));
                    },
                    None => {},
                }
            }
            match neg {
                Some(n) => {
                    emit_one(rel, out, true, n, v6);
                    assert(out@.take(start.len() as int) =~= out@.take(mid.len() as int).take(
                        start.len() as int,
                    ));
                },
                None => {},
            }
            assert forall|rinfo: &RequestInfo, tags: TagsView| #[trigger]
                emitted(rel, rinfo, tags, start, out@, pos, neg, v6) by {
                assert(emitted(rel, rinfo, tags, start, mid, pos, None, v6));
                match neg {
                    Some(n) => {
                        assert(added(rel, rinfo, tags, mid, out@, true, &n, v6));
                    },
                    None => {},
                }
            }
            assert forall|i: int| start.len() <= i < out@.len() implies is_range_leaf(
                &#[trigger] out@[i],
            ) by {
                if i < mid.len() {
                    assert(out@[i] == out@.take(mid.len() as int)[i]);
                    assert(mid.last() == mid[mid.len() - 1]);
                } else {
                    assert(out@.last() == out@[out@.len() - 1]);
                }
            }
        },
    }
    assert forall|i: int| start.len() <= i < out@.len() implies is_range_leaf(
        &#[trigger] out@[i],
    ) by {
        if rel is And {
            assert(out@.last() == out@[out@.len() - 1]);
        }
    }
}

/// The span of one number.
fn one_address(x: u128) -> (r: AddrRange)
    ensures
        forall|y: u128| #[trigger] r.holds(y) <==> y == x,
{
    let mut r = AddrRange::new();
    r.add(x, x);
    r
}

/// What holds while the leaves of a subsection are gathered: of the leaves `seen` so
/// far, those that are no address leaves are in `other`, and the address leaves are
/// gathered in the four ranges.
pub open spec fn gathering(
    rel: Relation,
    rinfo: &RequestInfo,
    tags: TagsView,
    seen: Seq<GlobalFilterEntry>,
    other: Seq<GlobalFilterEntry>,
    pos4: Option<AddrRange>,
    neg4: Option<AddrRange>,
    pos6: Option<AddrRange>,
    neg6: Option<AddrRange>,
) -> bool {
    let a4 = family_address(rinfo.rinfo.geoip.ip, false);
    let a6 = family_address(rinfo.rinfo.geoip.ip, true);
    &&& entries_match(rel, rinfo, tags, seen) == combined(
        rel,
        combined(rel, entries_match(rel, rinfo, tags, other), gathered(rel, pos4, neg4, a4)),
        gathered(rel, pos6, neg6, a6),
    )
    &&& evidence_kept(rel, rinfo, tags, seen, other)
    &&& touched(pos4, neg4, a4) ==> entries_evidence(rel, rinfo, tags, seen).contains(
        LocationView::Ip,
    )
    &&& touched(pos6, neg6, a6) ==> entries_evidence(rel, rinfo, tags, seen).contains(
        LocationView::Ip,
    )
}

/// Gathers the address leaves of a subsection.
///
/// The leaves on single addresses, networks and address ranges are replaced by at most
/// two range leaves for each family, which stand for all of them; the other leaves are
/// kept as they are, in their order, and come first. Under `And` the ranges taken as
/// they are are intersected and the negated ones are subtracted from the result; under
/// `Or` the ranges taken as they are are united, and the negated ones intersected.
///
/// For every request and every set of tags, the subsection matches after this exactly
/// when it matched before. Its evidence is what it was before, but that the address may
/// be missing from it.
pub fn optimize_ipranges(rel: Relation, unoptimized: Vec<GlobalFilterEntry>) -> (r: Vec<
    GlobalFilterEntry,
>)
    ensures
        forall|rinfo: &RequestInfo, tags: TagsView| #[trigger]
            entries_match(rel, rinfo, tags, r@) == entries_match(rel, rinfo, tags, unoptimized@),
        forall|rinfo: &RequestInfo, tags: TagsView| #[trigger]
            evidence_kept(rel, rinfo, tags, unoptimized@, r@),
        r@.take(other_leaves(unoptimized@).len() as int) == other_leaves(unoptimized@),
        r@.len() == other_leaves(unoptimized@).len() + range_leaves(
            rel,
            has_family_leaf(unoptimized@, false, false),
            has_family_leaf(unoptimized@, false, true),
        ) + range_leaves(
            rel,
            has_family_leaf(unoptimized@, true, false),
            has_family_leaf(unoptimized@, true, true),
        ),
        forall|i: int|
            other_leaves(unoptimized@).len() <= i < r@.len() ==> is_range_leaf(&#[trigger] r@[i]),
{
    let ghost all = unoptimized@;
    let mut other: Vec<GlobalFilterEntry> = Vec::new();
    let mut pos4: Option<AddrRange> = None;
    let mut neg4: Option<AddrRange> = None;
    let mut pos6: Option<AddrRange> = None;
    let mut neg6: Option<AddrRange> = None;
    proof {
        assert(all.take(0) =~= Seq::<GlobalFilterEntry>::empty());
        assert(other@ =~= other_leaves(all.take(0)));
    }
    for e in it: unoptimized.into_iter()
        invariant
            it.seq() == all,
            other@ == other_leaves(all.take(it.index() as int)),
            pos4 is Some <==> has_family_leaf(all.take(it.index() as int), false, false),
            neg4 is Some <==> has_family_leaf(all.take(it.index() as int), false, true),
            pos6 is Some <==> has_family_leaf(all.take(it.index() as int), true, false),
            neg6 is Some <==> has_family_leaf(all.take(it.index() as int), true, true),
            forall|rinfo: &RequestInfo, tags: TagsView| #[trigger]
                gathering(
                    rel,
                    rinfo,
                    tags,
                    all.take(it.index() as int),
                    other@,
                    pos4,
                    neg4,
                    pos6,
                    neg6,
                ),
    {
        let ghost i = it.index() as int;
        let ghost before = other@;
        let ghost (was_pos4, was_neg4, was_pos6, was_neg6) = (pos4, neg4, pos6, neg6);
        let ghost leaf = e;
        proof {
            assert(all.take(i + 1) =~= all.take(i).push(leaf));
            assert(all.take(i + 1).drop_last() =~= all.take(i));
        }
        let GlobalFilterEntry { negated, entry } = e;
        // the addresses that an address leaf holds of, and whether they are IPv6
        let family = match entry {
            GlobalFilterEntryE::Ip(IpAddress::V4(a)) => Ok((one_address(a as u128), false)),
            GlobalFilterEntryE::Ip(IpAddress::V6(a)) => Ok((one_address(a), true)),
            GlobalFilterEntryE::Network(IpNetwork::V4(n)) => {
                let mut range = AddrRange::new();
                range.add(n.network() as u128, n.broadcast() as u128);
                Ok((range, false))
            },
            GlobalFilterEntryE::Network(IpNetwork::V6(n)) => {
                let mut range = AddrRange::new();
                range.add(n.network(), n.broadcast());
                Ok((range, true))
            },
            GlobalFilterEntryE::Range4(range) => Ok((range, false)),
            GlobalFilterEntryE::Range6(range) => Ok((range, true)),
            kept => Err(kept),
        };
        match family {
            Ok((range, v6)) => {
                assert(is_address_leaf(&leaf));
                assert(family_of(&leaf) == Some(v6));
                assert forall|rinfo: &RequestInfo, tags: TagsView|
                    entry_result(rinfo, tags, &leaf) == (MatchView {
                        matched: range_evidence(
                            inside(family_address(rinfo.rinfo.geoip.ip, v6), &range),
                        ),
                        matching: inside(family_address(rinfo.rinfo.geoip.ip, v6), &range)
                            != negated,
                    }) by {
                }
                if v6 {
                    let (p, n) = gather(rel, negated, pos6, neg6, range);
                    pos6 = p;
                    neg6 = n;
                } else {
                    let (p, n) = gather(rel, negated, pos4, neg4, range);
                    pos4 = p;
                    neg4 = n;
                }
                assert forall|rinfo: &RequestInfo, tags: TagsView| #[trigger]
                    gathering(rel, rinfo, tags, all.take(i + 1), other@, pos4, neg4, pos6, neg6) by {
                    lemma_entries_push(rel, rinfo, tags, all.take(i), leaf);
                    let a4 = family_address(rinfo.rinfo.geoip.ip, false);
                    let a6 = family_address(rinfo.rinfo.geoip.ip, true);
                    assert(gathering(rel, rinfo, tags, all.take(i), before, was_pos4, was_neg4, was_pos6, was_neg6));
                    if v6 {
                        assert(gathered(rel, pos6, neg6, a6) == combined(
                            rel,
                            gathered(rel, was_pos6, was_neg6, a6),
                            inside(a6, &range) != negated,
                        ));
                        assert(touched(pos6, neg6, a6) ==> touched(was_pos6, was_neg6, a6) || inside(
                            a6,
                            &range,
                        ));
                    } else {
                        assert(gathered(rel, pos4, neg4, a4) == combined(
                            rel,
                            gathered(rel, was_pos4, was_neg4, a4),
                            inside(a4, &range) != negated,
                        ));
                        assert(touched(pos4, neg4, a4) ==> touched(was_pos4, was_neg4, a4) || inside(
                            a4,
                            &range,
                        ));
                    }
                }
            },
            Err(kept) => {
                let same = GlobalFilterEntry { negated, entry: kept };
                assert(same == leaf);
                assert(!is_address_leaf(&leaf));
                assert(family_of(&leaf) is None);
                other.push(same);
                assert forall|rinfo: &RequestInfo, tags: TagsView| #[trigger]
                    gathering(rel, rinfo, tags, all.take(i + 1), other@, pos4, neg4, pos6, neg6) by {
                    lemma_entries_push(rel, rinfo, tags, all.take(i), leaf);
                    lemma_entries_push(rel, rinfo, tags, before, leaf);
                    assert(gathering(rel, rinfo, tags, all.take(i), before, was_pos4, was_neg4, was_pos6, was_neg6));
                }
            },
        }
    }
    let ghost kept = other@;
    emit(rel, &mut other, pos4, neg4, false);
    let ghost with4 = other@;
    emit(rel, &mut other, pos6, neg6, true);
    proof {
        assert(all.take(all.len() as int) =~= all);
        assert(other@.take(kept.len() as int) =~= other@.take(with4.len() as int).take(
            kept.len() as int,
        ));
        assert forall|rinfo: &RequestInfo, tags: TagsView|
            #![trigger entries_match(rel, rinfo, tags, other@)]
            #![trigger evidence_kept(rel, rinfo, tags, all, other@)]
            entries_match(rel, rinfo, tags, other@) == entries_match(rel, rinfo, tags, all)
                && evidence_kept(rel, rinfo, tags, all, other@) by {
            assert(gathering(rel, rinfo, tags, all, kept, pos4, neg4, pos6, neg6));
            assert(emitted(rel, rinfo, tags, kept, with4, pos4, neg4, false));
            assert(emitted(rel, rinfo, tags, with4, other@, pos6, neg6, true));
        }
        assert forall|i: int| kept.len() <= i < other@.len() implies is_range_leaf(
            &#[trigger] other@[i],
        ) by {
            if i < with4.len() {
                assert(other@[i] == other@.take(with4.len() as int)[i]);
            }
        }
    }
    other
}

} // verus!
