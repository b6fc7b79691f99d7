//! Baseline tags and the evaluation of the global filters against one request.

use crate::globalfilter::{
    GlobalFilterEntry, GlobalFilterEntryE, GlobalFilterSSection, GlobalFilterSection, PairEntry,
    SingleEntry,
};
use crate::interface::{SimpleActionT, SimpleActionTView, SimpleDecision, SimpleDecisionView};
use crate::location::{Location, LocationSet, LocationView};
use crate::netaddr::IpAddress;
use crate::pattern::{is_match, regex_is_match};
use crate::raw::{RawActionType, Relation};
use crate::reasons::{reasons_view, BlockReason, BlockReasonView, Initiator};
use crate::request::{RequestField, RequestInfo};
use crate::stats::{BStageMapped, BStageSecpol, StatsCollect};
use crate::strings::{decimal, decimal_string, lowercase, str_eq, texts};
use crate::tags::{add_all, add_locations, lemma_add_all_sets, qualified, Tags, TagsView};
use vstd::prelude::*;

verus! {

/// The outcome of matching a filter node: whether it matched, and where.
#[derive(Debug)]
pub struct MatchResult {
    pub matched: LocationSet,
    pub matching: bool,
}

/// What a [`MatchResult`] says.
pub struct MatchView {
    pub matched: Set<LocationView>,
    pub matching: bool,
}

impl View for MatchResult {
    type V = MatchView;

    open spec fn view(&self) -> MatchView {
        MatchView { matched: self.matched@, matching: self.matching }
    }
}

/// What a list of outcomes says.
pub open spec fn match_views(s: Seq<MatchResult>) -> Seq<MatchView> {
    Seq::new(s.len(), |i: int| s[i]@)
}

/// The outcomes of the children of a node, combined under its relation.
///
/// Under `And` the node matches where every child does, and so it does without
/// children; under `Or` it matches where some child does, and so it does not without
/// children. The locations are those of all children.
pub open spec fn folded(rel: Relation, results: Seq<MatchView>) -> MatchView
    decreases results.len(),
{
    if results.len() == 0 {
        MatchView { matched: Set::empty(), matching: rel is And }
    } else {
        let front = folded(rel, results.drop_last());
        MatchView {
            matched: front.matched.union(results.last().matched),
            matching: match rel {
                Relation::And => front.matching && results.last().matching,
                Relation::Or => front.matching || results.last().matching,
            },
        }
    }
}

/// Whether `text` equals `exact` or is matched by the pattern `re`.
pub open spec fn text_matches(exact: Seq<char>, re: Option<String>, text: Seq<char>) -> bool {
    exact == text || (re matches Some(p) && regex_is_match(p@, text))
}

/// The locations of an optional set.
pub open spec fn opt_locations(o: Option<LocationSet>) -> Option<Set<LocationView>> {
    match o {
        Some(s) => Some(s@),
        None => None,
    }
}

/// The evidence that `loc` gives where `hit` holds.
pub open spec fn evidence(loc: LocationView, hit: bool) -> Option<Set<LocationView>> {
    if hit {
        Some(set![loc])
    } else {
        None
    }
}

/// Whether the field has a value under the key of `pr` that `pr` accepts.
pub open spec fn pair_matches(pr: &PairEntry, field: Map<Seq<char>, Seq<char>>) -> bool {
    field.contains_key(pr.key@) && text_matches(pr.exact@, pr.re, field[pr.key@])
}

/// The evidence of a leaf predicate, where it holds of the request.
pub open spec fn entry_evidence(rinfo: &RequestInfo, tags: TagsView, entry: &GlobalFilterEntryE) -> Option<
    Set<LocationView>,
> {
    let geoip = rinfo.rinfo.geoip;
    match entry {
        GlobalFilterEntryE::Ip(addr) => evidence(LocationView::Ip, geoip.ip == Some(*addr)),
        GlobalFilterEntryE::Network(net) => evidence(
            LocationView::Ip,
            geoip.ip matches Some(ip) && net.spec_contains(ip),
        ),
        GlobalFilterEntryE::Range4(range) => evidence(
            LocationView::Ip,
            geoip.ip matches Some(IpAddress::V4(a)) && range.holds(a as u128),
        ),
        GlobalFilterEntryE::Range6(range) => evidence(
            LocationView::Ip,
            geoip.ip matches Some(IpAddress::V6(a)) && range.holds(a),
        ),
        GlobalFilterEntryE::Path(p) => evidence(
            LocationView::Path,
            text_matches(p.exact@, p.re, rinfo.rinfo.qinfo.qpath@),
        ),
        GlobalFilterEntryE::Query(p) => evidence(
            LocationView::Path,
            text_matches(p.exact@, p.re, rinfo.rinfo.qinfo.query@),
        ),
        GlobalFilterEntryE::Uri(p) => evidence(
            LocationView::Uri,
            text_matches(p.exact@, p.re, rinfo.rinfo.qinfo.uri@),
        ),
        GlobalFilterEntryE::Country(p) => evidence(
            LocationView::Ip,
            geoip.country_iso matches Some(c) && text_matches(p.exact@, p.re, lowercase(c@)),
        ),
        GlobalFilterEntryE::Region(p) => evidence(
            LocationView::Ip,
            geoip.region matches Some(c) && text_matches(p.exact@, p.re, lowercase(c@)),
        ),
        GlobalFilterEntryE::SubRegion(p) => evidence(
            LocationView::Ip,
            geoip.subregion matches Some(c) && text_matches(p.exact@, p.re, lowercase(c@)),
        ),
        GlobalFilterEntryE::Method(p) => evidence(
            LocationView::Request,
            text_matches(p.exact@, p.re, rinfo.rinfo.meta.method@),
        ),
        GlobalFilterEntryE::Header(p) => evidence(
            LocationView::HeaderValue(p.key@, rinfo.headers@[p.key@]),
            pair_matches(p, rinfo.headers@),
        ),
        GlobalFilterEntryE::Args(p) => evidence(
            LocationView::UriArgumentValue(p.key@, rinfo.rinfo.qinfo.args@[p.key@]),
            pair_matches(p, rinfo.rinfo.qinfo.args@),
        ),
        GlobalFilterEntryE::Cookies(p) => evidence(
            LocationView::CookieValue(p.key@, rinfo.cookies@[p.key@]),
            pair_matches(p, rinfo.cookies@),
        ),
        GlobalFilterEntryE::Asn(asn) => evidence(LocationView::Ip, geoip.asn == Some(*asn)),
        GlobalFilterEntryE::Company(p) => evidence(
            LocationView::Ip,
            geoip.company matches Some(c) && text_matches(p.exact@, p.re, c@),
        ),
        GlobalFilterEntryE::Authority(p) => evidence(
            LocationView::Request,
            text_matches(p.exact@, p.re, rinfo.rinfo.host@),
        ),
        GlobalFilterEntryE::Tag(p) => if tags.contains_key(p.exact@) {
            Some(tags[p.exact@])
        } else {
            None
        },
    }
}

/// The outcome of a leaf.
///
/// Where the predicate holds, the leaf carries its evidence and matches unless it is
/// negated. Where it does not hold, the leaf carries no evidence and matches exactly if
/// it is negated.
pub open spec fn entry_result(rinfo: &RequestInfo, tags: TagsView, sub: &GlobalFilterEntry) -> MatchView {
    match entry_evidence(rinfo, tags, &sub.entry) {
        Some(matched) => MatchView { matched, matching: !sub.negated },
        None => MatchView { matched: Set::empty(), matching: sub.negated },
    }
}

/// The outcomes of the leaves of `entries`, in order.
pub open spec fn entry_results(rinfo: &RequestInfo, tags: TagsView, entries: Seq<GlobalFilterEntry>) -> Seq<
    MatchView,
> {
    Seq::new(entries.len(), |i: int| entry_result(rinfo, tags, &entries[i]))
}

/// The outcome of a subsection.
pub open spec fn subsection_result(rinfo: &RequestInfo, tags: TagsView, sub: &GlobalFilterSSection) -> MatchView {
    folded(sub.relation, entry_results(rinfo, tags, sub.entries@))
}

/// The outcomes of the subsections of `subs`, in order.
pub open spec fn subsection_results(
    rinfo: &RequestInfo,
    tags: TagsView,
    subs: Seq<GlobalFilterSSection>,
) -> Seq<MatchView> {
    Seq::new(subs.len(), |i: int| subsection_result(rinfo, tags, &subs[i]))
}

/// The outcome of a section.
pub open spec fn section_result(rinfo: &RequestInfo, tags: TagsView, section: &GlobalFilterSection) -> MatchView {
    folded(section.relation, subsection_results(rinfo, tags, section.sections@))
}

/// A node without children matches under `And` and does not match under `Or`; it has no
/// locations either way.
pub proof fn lemma_relation_without_children(rel: Relation)
    ensures
        folded(Relation::And, Seq::empty()).matching,
        !folded(Relation::Or, Seq::empty()).matching,
        folded(rel, Seq::empty()).matched == Set::<LocationView>::empty(),
{
}

/// A negated leaf whose predicate does not hold matches, and gives no evidence.
pub proof fn lemma_negated_miss(rinfo: &RequestInfo, tags: TagsView, sub: &GlobalFilterEntry)
    requires
        sub.negated,
        entry_evidence(rinfo, tags, &sub.entry) is None,
    ensures
        entry_result(rinfo, tags, sub).matching,
        entry_result(rinfo, tags, sub).matched == Set::<LocationView>::empty(),
{
}

/// Combines the outcomes that `check` gives for the elements of `elems` under `rel`.
pub fn check_relation<A, F>(
    rinfo: &RequestInfo,
    tags: &Tags,
    rel: Relation,
    elems: &[A],
    check: F,
) -> (r: MatchResult) where F: Fn(&RequestInfo, &Tags, &A) -> MatchResult
    requires
        forall|i: int| 0 <= i < elems@.len() ==> call_requires(check, (rinfo, tags, &elems@[i])),
    ensures
        exists|ms: Seq<MatchResult>|
            {
                &&& ms.len() == elems@.len()
                &&& forall|i: int|
                    0 <= i < elems@.len() ==> call_ensures(
                        check,
                        (rinfo, tags, &elems@[i]),
                        #[trigger] ms[i],
                    )
                &&& r@ == folded(rel, #[trigger] match_views(ms))
            },
        elems@.len() == 0 ==> r@ == (MatchView { matched: Set::empty(), matching: rel is And }),
{
    let mut matched = LocationSet::new();
    let mut matching = match rel {
        Relation::And => true,
        Relation::Or => false,
    };
    let ghost mut ms: Seq<MatchResult> = Seq::empty();
    let mut i: usize = 0;
    proof {
        assert(match_views(ms) =~= Seq::empty());
    }
    while i < elems.len()
        invariant
            i <= elems@.len(),
            ms.len() == i,
            forall|j: int| 0 <= j < elems@.len() ==> call_requires(check, (rinfo, tags, &elems@[j])),
            forall|j: int|
                0 <= j < i ==> call_ensures(check, (rinfo, tags, &elems@[j]), #[trigger] ms[j]),
            (MatchView { matched: matched@, matching }) == folded(rel, match_views(ms)),
        decreases elems@.len() - i,
    {
        let mtch = check(rinfo, tags, &elems[i]);
        proof {
            let next = ms.push(mtch);
            assert(match_views(next).drop_last() =~= match_views(ms));
            assert(match_views(next).last() == mtch@);
            ms = next;
        }
        matched.extend(&mtch.matched);
        matching = match rel {
            Relation::And => matching && mtch.matching,
            Relation::Or => matching || mtch.matching,
        };
        i += 1;
    }
    let r = MatchResult { matched, matching };
    proof {
        assert(r@ == folded(rel, match_views(ms)));
    }
    r
}

/// The evidence for a value under the key of `pr` that `pr` accepts; `locf` says where
/// such a value was found.
pub fn check_pair<F>(pr: &PairEntry, s: &RequestField, locf: F) -> (r: Option<LocationSet>) where
    F: Fn(&str) -> Location,

    requires
        forall|v: &str| call_requires(locf, (v,)),
    ensures
        match r {
            Some(locs) => pair_matches(pr, s@) && exists|v: &str, l: Location|
                v@ == s@[pr.key@] && #[trigger] call_ensures(locf, (v,), l) && locs@ == set![l@],
            None => !pair_matches(pr, s@),
        },
{
    match s.get(pr.key.as_str()) {
        Some(v) => {
            if str_eq(pr.exact.as_str(), v.as_str()) || (match &pr.re {
                Some(re) => is_match(re.as_str(), v.as_str()),
                None => false,
            }) {
                let value = v.as_str();
                let l = locf(value);
                let ghost found = l;
                let locs = LocationSet::single(l);
                assert(locs@ =~= set![found@]);
                assert(call_ensures(locf, (value,), found));
                Some(locs)
            } else {
                None
            }
        },
        None => None,
    }
}

/// The evidence `loc` where `pr` accepts the text `s`.
pub fn check_single(pr: &SingleEntry, s: &str, loc: Location) -> (r: Option<LocationSet>)
    ensures
        opt_locations(r) == evidence(loc@, text_matches(pr.exact@, pr.re, s@)),
{
    if str_eq(pr.exact.as_str(), s) || (match &pr.re {
        Some(re) => is_match(re.as_str(), s),
        None => false,
    }) {
        let locs = LocationSet::single(loc);
        assert(locs@ =~= set![loc@]);
        Some(locs)
    } else {
        None
    }
}

fn flag(loc: Location, b: bool) -> (r: Option<LocationSet>)
    ensures
        opt_locations(r) == evidence(loc@, b),
{
    if b {
        let locs = LocationSet::single(loc);
        assert(locs@ =~= set![loc@]);
        Some(locs)
    } else {
        None
    }
}

fn check_lowercase(pr: &SingleEntry, value: &Option<String>) -> (r: Option<LocationSet>)
    ensures
        opt_locations(r) == evidence(
            LocationView::Ip,
            *value matches Some(c) && text_matches(pr.exact@, pr.re, lowercase(c@)),
        ),
{
    match value {
        Some(c) => {
            let lower = c.as_str().to_lowercase();
            check_single(pr, lower.as_str(), Location::Ip)
        },
        None => None,
    }
}

/// Matches one leaf against the request and the tags set so far.
pub fn check_entry(rinfo: &RequestInfo, tags: &Tags, sub: &GlobalFilterEntry) -> (r: MatchResult)
    ensures
        r@ == entry_result(rinfo, tags@, sub),
{
    let r = match &sub.entry {
        GlobalFilterEntryE::Ip(addr) => flag(
            Location::Ip,
            match rinfo.rinfo.geoip.ip {
                Some(i) => i == *addr,
                None => false,
            },
        ),
        GlobalFilterEntryE::Network(net) => flag(
            Location::Ip,
            match rinfo.rinfo.geoip.ip {
                Some(i) => net.contains(i),
                None => false,
            },
        ),
        GlobalFilterEntryE::Range4(net4) => flag(
            Location::Ip,
            match rinfo.rinfo.geoip.ip {
                Some(IpAddress::V4(ip4)) => net4.contains(ip4 as u128),
                _ => false,
            },
        ),
        GlobalFilterEntryE::Range6(net6) => flag(
            Location::Ip,
            match rinfo.rinfo.geoip.ip {
                Some(IpAddress::V6(ip6)) => net6.contains(ip6),
                _ => false,
            },
        ),
        GlobalFilterEntryE::Path(pth) => check_single(
            pth,
            rinfo.rinfo.qinfo.qpath.as_str(),
            Location::Path,
        ),
        GlobalFilterEntryE::Query(qry) => check_single(
            qry,
            rinfo.rinfo.qinfo.query.as_str(),
            Location::Path,
        ),
        GlobalFilterEntryE::Uri(uri) => check_single(
            uri,
            rinfo.rinfo.qinfo.uri.as_str(),
            Location::Uri,
        ),
        GlobalFilterEntryE::Country(cty) => check_lowercase(cty, &rinfo.rinfo.geoip.country_iso),
        GlobalFilterEntryE::Region(cty) => check_lowercase(cty, &rinfo.rinfo.geoip.region),
        GlobalFilterEntryE::SubRegion(cty) => check_lowercase(cty, &rinfo.rinfo.geoip.subregion),
        GlobalFilterEntryE::Method(mtd) => check_single(
            mtd,
            rinfo.rinfo.meta.method.as_str(),
            Location::Request,
        ),
        GlobalFilterEntryE::Header(hdr) => {
            let locf = |h: &str| -> (l: Location)
                ensures
                    l@ == LocationView::HeaderValue(hdr.key@, h@),
                { Location::HeaderValue(hdr.key.clone(), h.to_string()) };
            check_pair(hdr, &rinfo.headers, locf)
        },
        GlobalFilterEntryE::Args(arg) => {
            let locf = |a: &str| -> (l: Location)
                ensures
                    l@ == LocationView::UriArgumentValue(arg.key@, a@),
                { Location::UriArgumentValue(arg.key.clone(), a.to_string()) };
            check_pair(arg, &rinfo.rinfo.qinfo.args, locf)
        },
        GlobalFilterEntryE::Cookies(arg) => {
            let locf = |c: &str| -> (l: Location)
                ensures
                    l@ == LocationView::CookieValue(arg.key@, c@),
                { Location::CookieValue(arg.key.clone(), c.to_string()) };
            check_pair(arg, &rinfo.cookies, locf)
        },
        GlobalFilterEntryE::Asn(asn) => flag(
            Location::Ip,
            match rinfo.rinfo.geoip.asn {
                Some(casn) => casn == *asn,
                None => false,
            },
        ),
        GlobalFilterEntryE::Company(company) => match &rinfo.rinfo.geoip.company {
            Some(name) => check_single(company, name.as_str(), Location::Ip),
            None => None,
        },
        GlobalFilterEntryE::Authority(at) => check_single(
            at,
            rinfo.rinfo.host.as_str(),
            Location::Request,
        ),
        GlobalFilterEntryE::Tag(tg) => match tags.get(tg.exact.as_str()) {
            Some(locs) => Some(locs.clone()),
            None => None,
        },
    };
    assert(opt_locations(r) == entry_evidence(rinfo, tags@, &sub.entry));
    match r {
        Some(matched) => MatchResult { matched, matching: !sub.negated },
        None => MatchResult { matched: LocationSet::new(), matching: sub.negated },
    }
}

/// Matches one subsection against the request and the tags set so far.
pub fn check_subsection(rinfo: &RequestInfo, tags: &Tags, sub: &GlobalFilterSSection) -> (r:
    MatchResult)
    ensures
        r@ == subsection_result(rinfo, tags@, sub),
{
    let r = check_relation(rinfo, tags, sub.relation, sub.entries.as_slice(), check_entry);
    proof {
        let ms = choose|ms: Seq<MatchResult>|
            {
                &&& ms.len() == sub.entries@.len()
                &&& forall|i: int|
                    0 <= i < sub.entries@.len() ==> call_ensures(
                        check_entry,
                        (rinfo, tags, &sub.entries@[i]),
                        #[trigger] ms[i],
                    )
                &&& r@ == folded(sub.relation, #[trigger] match_views(ms))
            };
        assert(match_views(ms) =~= entry_results(rinfo, tags@, sub.entries@));
    }
    r
}

/// `tags` with the tag `id:value` set, justified by `loc`.
pub open spec fn tagged(tags: TagsView, id: Seq<char>, value: Seq<char>, loc: LocationView) -> TagsView {
    add_locations(tags, qualified(id, value), set![loc])
}

/// The text of an optional value, `nil` where there is none.
pub open spec fn or_nil(o: Option<String>) -> Seq<char> {
    match o {
        Some(s) => s@,
        None => "nil"@,
    }
}

/// The tags that every request gets before any filter is looked at: `human` or `bot`,
/// the number of headers, cookies and arguments, the host, the address, and what is
/// known of the place and the network the request came from.
///
/// The numbers are those of the entries of the fields: the number of names, where a
/// field names none twice.
pub open spec fn baseline_tags(is_human: bool, rinfo: &RequestInfo) -> TagsView {
    let geoip = rinfo.rinfo.geoip;
    let request = LocationView::Request;
    let t = add_locations(
        Map::empty(),
        if is_human {
            "human"@
        } else {
            "bot"@
        },
        set![request],
    );
    let t = tagged(
        t,
        "headers"@,
        decimal(rinfo.headers.entries@.len()),
        LocationView::Headers,
    );
    let t = tagged(
        t,
        "cookies"@,
        decimal(rinfo.cookies.entries@.len()),
        LocationView::Cookies,
    );
    let t = tagged(t, "args"@, decimal(rinfo.rinfo.qinfo.args.entries@.len()), request);
    let t = tagged(t, "host"@, rinfo.rinfo.host@, request);
    let t = tagged(t, "ip"@, geoip.ipstr@, request);
    let t = tagged(t, "geo-continent-name"@, or_nil(geoip.continent_name), request);
    let t = tagged(t, "geo-continent-code"@, or_nil(geoip.continent_code), request);
    let t = tagged(t, "geo-city"@, or_nil(geoip.city_name), request);
    let t = tagged(t, "geo-country"@, or_nil(geoip.country_name), request);
    let t = tagged(t, "geo-region"@, or_nil(geoip.region), request);
    let t = tagged(t, "geo-subregion"@, or_nil(geoip.subregion), request);
    tagged(
        t,
        "geo-asn"@,
        match geoip.asn {
            Some(n) => decimal(n as nat),
            None => "nil"@,
        },
        request,
    )
}

/// Whether a matching section with this action ends the evaluation: every action does,
/// but one that monitors, and a challenge for a request already classified as human.
pub open spec fn enforced(action: SimpleActionTView, is_human: bool) -> bool {
    !(action is Monitor || (action is Challenge && is_human))
}

/// The reason that a section leaves where its action is enforced.
pub open spec fn section_reason(section: &GlobalFilterSection) -> BlockReasonView {
    BlockReasonView {
        id: section.id@,
        name: section.name@,
        initiator: Initiator::GlobalFilter,
        location: LocationView::Request,
        extra_locations: Seq::empty(),
        action: RawActionType::Custom,
        extra: None,
    }
}

/// The outcome of the evaluation of the global filters.
pub struct TagOutcome {
    pub tags: TagsView,
    pub decision: SimpleDecisionView,
    pub matched: nat,
}

/// Evaluates `sections` in order, starting from `tags` with `matched` sections counted.
///
/// A section that matches is counted and sets its tags, justified by the locations of
/// its match. Where its action is enforced, the evaluation ends with that action and the
/// reason of the section; later sections are not looked at. Where no section enforces an
/// action, the request passes.
pub open spec fn scanned(
    rinfo: &RequestInfo,
    is_human: bool,
    sections: Seq<GlobalFilterSection>,
    tags: TagsView,
    matched: nat,
) -> TagOutcome
    decreases sections.len(),
{
    if sections.len() == 0 {
        TagOutcome { tags, decision: SimpleDecisionView::Pass, matched }
    } else {
        let section = sections.first();
        let outcome = section_result(rinfo, tags, &section);
        if outcome.matching {
            let tagged = add_all(tags, texts(section.tags@), outcome.matched);
            match section.action {
                Some(a) if enforced(a@.atype, is_human) => TagOutcome {
                    tags: tagged,
                    decision: SimpleDecisionView::Action(a@, seq![section_reason(&section)]),
                    matched: matched + 1,
                },
                _ => scanned(rinfo, is_human, sections.drop_first(), tagged, matched + 1),
            }
        } else {
            scanned(rinfo, is_human, sections.drop_first(), tags, matched)
        }
    }
}

/// A section that holds one leaf, a predicate on a header taken as it is, acts on every
/// request whose header the predicate accepts: the evaluation ends there with the action
/// of the section and its one reason, and every tag of the section is set, justified by
/// the header. This holds under either relation, whatever sections follow, provided the
/// action is one that is enforced.
pub proof fn lemma_header_section_acts(
    rinfo: &RequestInfo,
    is_human: bool,
    section: GlobalFilterSection,
    rest: Seq<GlobalFilterSection>,
    tags: TagsView,
    matched: nat,
)
    requires
        section.sections@.len() == 1,
        section.sections@[0].entries@.len() == 1,
        !section.sections@[0].entries@[0].negated,
        section.sections@[0].entries@[0].entry matches GlobalFilterEntryE::Header(p)
            && pair_matches(&p, rinfo.headers@),
        section.action matches Some(a) && enforced(a@.atype, is_human),
    ensures
        ({
            let p = section.sections@[0].entries@[0].entry->Header_0;
            let header = LocationView::HeaderValue(p.key@, rinfo.headers@[p.key@]);
            let outcome = scanned(rinfo, is_human, seq![section] + rest, tags, matched);
            &&& outcome.decision == SimpleDecisionView::Action(
                section.action->0@,
                seq![section_reason(&section)],
            )
            &&& outcome.tags == add_all(tags, texts(section.tags@), set![header])
            &&& outcome.matched == matched + 1
            &&& forall|i: int|
                0 <= i < section.tags@.len() ==> outcome.tags.contains_key(
                    (#[trigger] section.tags@[i])@,
                ) && outcome.tags[section.tags@[i]@].contains(header)
        }),
{
    let p = section.sections@[0].entries@[0].entry->Header_0;
    let header = LocationView::HeaderValue(p.key@, rinfo.headers@[p.key@]);
    let sub = section.sections@[0];
    let leaves = entry_results(rinfo, tags, sub.entries@);
    let subs = subsection_results(rinfo, tags, section.sections@);
    reveal_with_fuel(folded, 2);
    assert(leaves.drop_last() =~= Seq::<MatchView>::empty());
    assert(leaves.last() == entry_result(rinfo, tags, &sub.entries@[0]));
    let leaf = folded(sub.relation, leaves);
    assert(leaf.matching);
    assert(leaf.matched =~= set![header]);
    assert(subs.drop_last() =~= Seq::<MatchView>::empty());
    assert(subs.last() == subsection_result(rinfo, tags, &sub));
    let whole = section_result(rinfo, tags, &section);
    assert(whole.matching);
    assert(whole.matched =~= set![header]);
    let all = seq![section] + rest;
    assert(all.first() == section);
    let names = texts(section.tags@);
    assert forall|i: int| 0 <= i < section.tags@.len() implies add_all(
        tags,
        names,
        set![header],
    ).contains_key((#[trigger] section.tags@[i])@) && add_all(tags, names, set![header])[section.tags@[i]@].contains(
        header,
    ) by {
        lemma_add_all_sets(tags, names, set![header], i);
        assert(names[i] == section.tags@[i]@);
    }
}

fn or_nil_str(o: &Option<String>) -> (s: &str)
    ensures
        s@ == or_nil(*o),
{
    match o {
        Some(s) => s.as_str(),
        None => "nil",
    }
}

fn baseline(is_human: bool, rinfo: &RequestInfo) -> (tags: Tags)
    ensures
        tags@ == baseline_tags(is_human, rinfo),
        tags.wf(),
{
    let mut tags = Tags::new();
    if is_human {
        tags.insert("human", Location::Request);
    } else {
        tags.insert("bot", Location::Request);
    }
    tags.insert_qualified(
        "headers",
        decimal_string(rinfo.headers.len() as u64).as_str(),
        Location::Headers,
    );
    tags.insert_qualified(
        "cookies",
        decimal_string(rinfo.cookies.len() as u64).as_str(),
        Location::Cookies,
    );
    tags.insert_qualified(
        "args",
        decimal_string(rinfo.rinfo.qinfo.args.len() as u64).as_str(),
        Location::Request,
    );
    tags.insert_qualified("host", rinfo.rinfo.host.as_str(), Location::Request);
    tags.insert_qualified("ip", rinfo.rinfo.geoip.ipstr.as_str(), Location::Request);
    tags.insert_qualified(
        "geo-continent-name",
        or_nil_str(&rinfo.rinfo.geoip.continent_name),
        Location::Request,
    );
    tags.insert_qualified(
        "geo-continent-code",
        or_nil_str(&rinfo.rinfo.geoip.continent_code),
        Location::Request,
    );
    tags.insert_qualified("geo-city", or_nil_str(&rinfo.rinfo.geoip.city_name), Location::Request);
    tags.insert_qualified(
        "geo-country",
        or_nil_str(&rinfo.rinfo.geoip.country_name),
        Location::Request,
    );
    tags.insert_qualified("geo-region", or_nil_str(&rinfo.rinfo.geoip.region), Location::Request);
    tags.insert_qualified(
        "geo-subregion",
        or_nil_str(&rinfo.rinfo.geoip.subregion),
        Location::Request,
    );
    match rinfo.rinfo.geoip.asn {
        None => {
            tags.insert_qualified("geo-asn", "nil", Location::Request);
        },
        Some(asn) => {
            let sasn = decimal_string(asn as u64);
            tags.insert_qualified("geo-asn", sasn.as_str(), Location::Request);
        },
    }
    tags
}

/// Tags a request and evaluates the global filters against it.
///
/// Gives the tags, the decision of the filters and the counters of the next stage: how
/// many sections there are and how many of them matched.
pub fn tag_request(
    stats: StatsCollect<BStageSecpol>,
    is_human: bool,
    globalfilters: &[GlobalFilterSection],
    rinfo: &RequestInfo,
) -> (r: (Tags, SimpleDecision, StatsCollect<BStageMapped>))
    ensures
        ({
            let outcome = scanned(
                rinfo,
                is_human,
                globalfilters@,
                baseline_tags(is_human, rinfo),
                0,
            );
            &&& r.0@ == outcome.tags
            &&& r.1@ == outcome.decision
            &&& r.2.revision == stats.revision
            &&& r.2.stage == (BStageMapped {
                secpol: stats.stage.secpol,
                globalfilters_total: globalfilters@.len() as usize,
                globalfilters_active: outcome.matched as usize,
            })
            &&& outcome.matched <= globalfilters@.len()
        }),
        r.0.wf(),
{
    let mut tags = baseline(is_human, rinfo);
    let ghost all = globalfilters@;
    let ghost goal = scanned(rinfo, is_human, all, baseline_tags(is_human, rinfo), 0);
    let mut matched: usize = 0;
    let mut i: usize = 0;
    assert(all.skip(0) =~= all);
    while i < globalfilters.len()
        invariant
            i <= all.len(),
            all == globalfilters@,
            matched <= i,
            tags.wf(),
            goal == scanned(rinfo, is_human, all, baseline_tags(is_human, rinfo), 0),
            goal == scanned(rinfo, is_human, all.skip(i as int), tags@, matched as nat),
        decreases all.len() - i,
    {
        let psection = &globalfilters[i];
        proof {
            assert(all.skip(i as int).first() == all[i as int]);
            assert(all.skip(i as int).drop_first() =~= all.skip(i + 1));
        }
        let mtch = check_relation(
            rinfo,
            &tags,
            psection.relation,
            psection.sections.as_slice(),
            check_subsection,
        );
        proof {
            let ms = choose|ms: Seq<MatchResult>|
                {
                    &&& ms.len() == psection.sections@.len()
                    &&& forall|j: int|
                        0 <= j < psection.sections@.len() ==> call_ensures(
                            check_subsection,
                            (rinfo, &tags, &psection.sections@[j]),
                            #[trigger] ms[j],
                        )
                    &&& mtch@ == folded(psection.relation, #[trigger] match_views(ms))
                };
            assert(match_views(ms) =~= subsection_results(rinfo, tags@, psection.sections@));
            assert(mtch@ == section_result(rinfo, tags@, psection));
        }
        if mtch.matching {
            matched += 1;
            tags.insert_all(&psection.tags, &mtch.matched);
            if let Some(a) = &psection.action {
                let monitors = matches!(a.atype, SimpleActionT::Monitor) || (matches!(
                    a.atype,
                    SimpleActionT::Challenge { .. }
                ) && is_human);
                if !monitors {
                    let reason = BlockReason::global_filter(
                        psection.id.clone(),
                        psection.name.clone(),
                    );
                    let mut reasons: Vec<BlockReason> = Vec::new();
                    reasons.push(reason);
                    let decision = SimpleDecision::Action(a.clone(), reasons);
                    assert(reasons_view(reasons@) =~= seq![section_reason(psection)]);
                    proof {
                        lemma_scanned_bound(rinfo, is_human, all, baseline_tags(is_human, rinfo), 0);
                    }
                    return (tags, decision, stats.mapped(globalfilters.len(), matched));
                }
            }
        }
        i += 1;
    }
    proof {
        lemma_scanned_bound(rinfo, is_human, all, baseline_tags(is_human, rinfo), 0);
    }
    (tags, SimpleDecision::Pass, stats.mapped(globalfilters.len(), matched))
}

/// No more sections are counted than there are.
pub proof fn lemma_scanned_bound(
    rinfo: &RequestInfo,
    is_human: bool,
    sections: Seq<GlobalFilterSection>,
    tags: TagsView,
    matched: nat,
)
    ensures
        matched <= scanned(rinfo, is_human, sections, tags, matched).matched <= matched
            + sections.len(),
    decreases sections.len(),
{
    if sections.len() > 0 {
        let section = sections.first();
        let outcome = section_result(rinfo, tags, &section);
        if outcome.matching {
            let tagged = add_all(tags, texts(section.tags@), outcome.matched);
            lemma_scanned_bound(rinfo, is_human, sections.drop_first(), tagged, matched + 1);
        } else {
            lemma_scanned_bound(rinfo, is_human, sections.drop_first(), tags, matched);
        }
    }
}

} // verus!
