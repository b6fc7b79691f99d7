use curiefense::collections::StrMap;
use curiefense::globalfilter::{
    optimize_ipranges, GlobalFilterEntry, GlobalFilterEntryE, GlobalFilterSSection,
    GlobalFilterSection, PairEntry, SingleEntry,
};
use curiefense::grasshopper::{DummyGrasshopper, GHMode, PrecisionLevel};
use curiefense::interface::{ActionType, SimpleAction, SimpleActionT, SimpleDecision};
use curiefense::location::{Location, LocationSet};
use curiefense::logs::Logs;
use curiefense::netaddr::{AddrRange, IpAddress, IpNetwork, Net4, Net6};
use curiefense::raw::{RawActionType, Relation};
use curiefense::reasons::Initiator;
use curiefense::request::{
    GeoIp, QueryInfo, RInfo, RequestInfo, RequestMeta, SecurityPolicy, Timestamp,
};
use curiefense::stats::{BStageSecpol, SecpolStats, StatsCollect};
use curiefense::tagging::{
    check_entry, check_pair, check_relation, check_single, check_subsection, tag_request,
    MatchResult,
};
use curiefense::tags::Tags;

fn field(pairs: &[(&str, &str)]) -> StrMap<String> {
    let mut m = StrMap::new();
    for (k, v) in pairs {
        m.insert(k.to_string(), v.to_string());
    }
    m
}

fn parse_v4(s: &str) -> u32 {
    let mut n: u32 = 0;
    let mut count = 0;
    for part in s.split('.') {
        let b: u8 = part.parse().unwrap();
        n = (n << 8) | u32::from(b);
        count += 1;
    }
    assert_eq!(count, 4);
    n
}

fn parse_ip(s: &str) -> IpAddress {
    IpAddress::V4(parse_v4(s))
}

fn parse_net(s: &str) -> IpNetwork {
    match s.split_once('/') {
        Some((addr, len)) => IpNetwork::V4(Net4 { addr: parse_v4(addr), prefix_len: len.parse().unwrap() }),
        None => IpNetwork::V4(Net4 { addr: parse_v4(s), prefix_len: 32 }),
    }
}

fn mk_rinfo() -> RequestInfo {
    let headers = field(&[
        ("content-type", "/sson"),
        ("x-forwarded-for", "52.78.12.56"),
        ("x-forwarded-proto", "http"),
        ("x-request-id", "af36dcec-524d-4d21-b90e-22d5798a6300"),
        ("accept", "*/*"),
        ("user-agent", "curl/7.58.0"),
        ("x-envoy-internal", "true"),
    ]);
    let path = "/adminl%20e?lol=boo&bar=bze&%20encoded=%20%20%20";
    RequestInfo {
        timestamp: Timestamp { secs: 1_600_000_000, nanos: 0 },
        cookies: StrMap::new(),
        headers,
        rinfo: RInfo {
            meta: RequestMeta {
                authority: Some("localhost:30081".to_string()),
                method: "GET".to_string(),
                path: path.to_string(),
                requestid: None,
            },
            geoip: GeoIp {
                ipstr: "52.78.12.56".to_string(),
                ip: Some(parse_ip("52.78.12.56")),
                location: None,
                city_name: None,
                country_iso: Some("KR".to_string()),
                country_name: Some("South Korea".to_string()),
                continent_name: None,
                continent_code: None,
                region: None,
                subregion: None,
                asn: Some(16509),
                company: Some("Amazon".to_string()),
                as_name: None,
                as_domain: None,
                as_type: None,
                company_country: None,
                company_domain: None,
                company_type: None,
                mobile_carrier_name: None,
                mobile_country: None,
                mobile_mcc: None,
                mobile_mnc: None,
            },
            qinfo: QueryInfo {
                qpath: "/adminl%20e".to_string(),
                query: "lol=boo&bar=bze&%20encoded=%20%20%20".to_string(),
                uri: "/adminl e?lol=boo&bar=bze& encoded=   ".to_string(),
                args: field(&[("lol", "boo"), ("bar", "bze"), (" encoded", "   ")]),
                path_as_map: field(&[("path", "/adminl%20e"), ("part1", "adminl%20e")]),
            },
            host: "localhost:30081".to_string(),
            secpolicy: SecurityPolicy {
                policy_id: "__default__".to_string(),
                entry_id: "__default__".to_string(),
            },
            container_name: None,
        },
        session: String::new(),
        session_ids: StrMap::new(),
        plugins: StrMap::new(),
    }
}

fn t_check_entry(negated: bool, entry: GlobalFilterEntryE) -> MatchResult {
    check_entry(&mk_rinfo(), &Tags::new(), &GlobalFilterEntry { negated, entry })
}

fn single_re(input: &str) -> SingleEntry {
    SingleEntry::new(input)
}

fn double_re(key: &str, input: &str) -> PairEntry {
    PairEntry::new(key, input)
}

#[test]
fn check_entry_ip_in() {
    let r = t_check_entry(false, GlobalFilterEntryE::Ip(parse_ip("52.78.12.56")));
    assert!(r.matching);
}

#[test]
fn check_entry_ip_in_neg() {
    let r = t_check_entry(true, GlobalFilterEntryE::Ip(parse_ip("52.78.12.56")));
    assert!(!r.matching);
}

#[test]
fn check_entry_ip_out() {
    let r = t_check_entry(false, GlobalFilterEntryE::Ip(parse_ip("52.78.12.57")));
    assert!(!r.matching);
}

#[test]
fn check_path_in() {
    let r = t_check_entry(false, GlobalFilterEntryE::Path(single_re(".*adminl%20e.*")));
    assert!(r.matching);
}

#[test]
fn check_path_in_not_partial_match() {
    let r = t_check_entry(false, GlobalFilterEntryE::Path(single_re("adminl%20e")));
    assert!(r.matching);
}

#[test]
fn check_path_out() {
    let r = t_check_entry(false, GlobalFilterEntryE::Path(single_re(".*adminl e.*")));
    assert!(!r.matching);
}

#[test]
fn check_headers_exact() {
    let r = t_check_entry(false, GlobalFilterEntryE::Header(double_re("accept", "*/*")));
    assert!(r.matching);
}

#[test]
fn check_headers_match() {
    let r = t_check_entry(false, GlobalFilterEntryE::Header(double_re("user-agent", "^curl.*")));
    assert!(r.matching);
}

fn mk_globalfilterentries(lst: &[&str]) -> Vec<GlobalFilterEntry> {
    lst.iter()
        .map(|e| match e.strip_prefix('!') {
            None => GlobalFilterEntry { negated: false, entry: GlobalFilterEntryE::Network(parse_net(e)) },
            Some(sub) => GlobalFilterEntry { negated: true, entry: GlobalFilterEntryE::Network(parse_net(sub)) },
        })
        .collect()
}

fn optimize(rel: Relation, input: &[&str]) -> GlobalFilterSSection {
    GlobalFilterSSection { relation: rel, entries: optimize_ipranges(rel, mk_globalfilterentries(input)) }
}

fn check_iprange(rel: Relation, input: &[&str], samples: &[(&str, bool)]) {
    let entries = mk_globalfilterentries(input);
    let ssection = GlobalFilterSSection { entries, relation: rel };
    let optimized = optimize(rel, input);
    let tags = Tags::new();

    let mut ri = mk_rinfo();
    for (ip, expected) in samples {
        ri.rinfo.geoip.ip = Some(parse_ip(ip));
        println!("UN {} {:?}", ip, ssection);
        assert_eq!(check_subsection(&ri, &tags, &ssection).matching, *expected);
        println!("OP {} {:?}", ip, optimized);
        assert_eq!(check_subsection(&ri, &tags, &optimized).matching, *expected);
    }
}

#[test]
fn ipranges_simple() {
    let entries = ["192.168.1.0/24"];
    let samples = [
        ("10.0.4.1", false),
        ("192.168.0.23", false),
        ("192.168.1.23", true),
        ("192.170.2.45", false),
    ];
    check_iprange(Relation::And, &entries, &samples);
}

#[test]
fn ipranges_intersected() {
    let entries = ["192.168.0.0/23", "192.168.1.0/24"];
    let samples = [
        ("10.0.4.1", false),
        ("192.168.0.23", false),
        ("192.168.1.23", true),
        ("192.170.2.45", false),
    ];
    check_iprange(Relation::And, &entries, &samples);
}

#[test]
fn ipranges_simple_substraction() {
    let entries = ["192.168.0.0/23", "!192.168.1.0/24"];
    let samples = [
        ("10.0.4.1", false),
        ("192.168.0.23", true),
        ("192.168.1.23", false),
        ("192.170.2.45", false),
    ];
    check_iprange(Relation::And, &entries, &samples);
}

#[test]
fn ipranges_simple_union() {
    let entries = ["192.168.0.0/24", "192.168.1.0/24"];
    let samples = [
        ("10.0.4.1", false),
        ("192.168.0.23", true),
        ("192.168.1.23", true),
        ("192.170.2.45", false),
    ];
    check_iprange(Relation::Or, &entries, &samples);
}

#[test]
fn ipranges_larger_union() {
    let entries = ["192.168.0.0/24", "192.168.2.0/24", "10.1.0.0/16", "10.4.0.0/16"];
    let samples = [
        ("10.4.4.1", true),
        ("10.2.2.1", false),
        ("192.168.0.23", true),
        ("192.168.1.23", false),
        ("192.170.2.45", false),
    ];
    check_iprange(Relation::Or, &entries, &samples);
}

#[test]
fn ipranges_negated_union() {
    // under Or, two negated networks match every address that is not in both
    let entries = ["!192.168.0.0/23", "!192.168.1.0/24"];
    let samples = [("10.0.4.1", true), ("192.168.0.23", true), ("192.168.1.23", false)];
    check_iprange(Relation::Or, &entries, &samples);
}

#[test]
fn ipranges_optimized_form() {
    // subtraction leaves one range leaf, taken as it is: 192.168.0.0 to 192.168.0.255
    let optimized = optimize(Relation::And, &["192.168.0.0/23", "!192.168.1.0/24"]);
    assert_eq!(optimized.entries.len(), 1);
    assert!(!optimized.entries[0].negated);
    match &optimized.entries[0].entry {
        GlobalFilterEntryE::Range4(r) => {
            assert_eq!(r.spans, vec![(0xc0a8_0000u128, 0xc0a8_00ffu128)]);
        }
        other => panic!("unexpected leaf {:?}", other),
    }
}

#[test]
fn ipranges_keep_other_leaves() {
    let entries = vec![
        GlobalFilterEntry { negated: false, entry: GlobalFilterEntryE::Network(parse_net("52.78.0.0/16")) },
        GlobalFilterEntry { negated: false, entry: GlobalFilterEntryE::Method(single_re("GET")) },
        GlobalFilterEntry { negated: true, entry: GlobalFilterEntryE::Ip(parse_ip("52.78.12.57")) },
        GlobalFilterEntry { negated: false, entry: GlobalFilterEntryE::Ip(IpAddress::V6(1)) },
    ];
    let out = optimize_ipranges(Relation::Or, entries);
    // the method leaf first, then IPv4 taken as it is, IPv4 negated, IPv6 taken as it is
    assert_eq!(out.len(), 4);
    assert!(matches!(out[0].entry, GlobalFilterEntryE::Method(_)));
    assert!(matches!(out[1].entry, GlobalFilterEntryE::Range4(_)) && !out[1].negated);
    assert!(matches!(out[2].entry, GlobalFilterEntryE::Range4(_)) && out[2].negated);
    assert!(matches!(out[3].entry, GlobalFilterEntryE::Range6(_)) && !out[3].negated);
    let sub = GlobalFilterSSection { relation: Relation::Or, entries: out };
    assert!(check_subsection(&mk_rinfo(), &Tags::new(), &sub).matching);
}

#[test]
fn ipranges_ipv6() {
    let net = Net6 { addr: 0x2001_0db8_0000_0000_0000_0000_0000_0000, prefix_len: 32 };
    let inside = IpAddress::V6(0x2001_0db8_ffff_0000_0000_0000_0000_0001);
    let outside = IpAddress::V6(0x2001_0db9_0000_0000_0000_0000_0000_0001);
    let mk = || vec![GlobalFilterEntry { negated: false, entry: GlobalFilterEntryE::Network(IpNetwork::V6(net)) }];
    let plain = GlobalFilterSSection { relation: Relation::And, entries: mk() };
    let optimized = GlobalFilterSSection { relation: Relation::And, entries: optimize_ipranges(Relation::And, mk()) };
    let tags = Tags::new();
    let mut ri = mk_rinfo();
    for (ip, expected) in [(inside, true), (outside, false), (parse_ip("10.0.0.1"), false)] {
        ri.rinfo.geoip.ip = Some(ip);
        assert_eq!(check_subsection(&ri, &tags, &plain).matching, expected);
        assert_eq!(check_subsection(&ri, &tags, &optimized).matching, expected);
    }
}

#[test]
fn network_bounds() {
    let n = Net4 { addr: parse_v4("192.168.1.77"), prefix_len: 24 };
    assert_eq!(n.network(), parse_v4("192.168.1.0"));
    assert_eq!(n.broadcast(), parse_v4("192.168.1.255"));
    assert!(n.contains(parse_v4("192.168.1.0")));
    assert!(n.contains(parse_v4("192.168.1.255")));
    assert!(!n.contains(parse_v4("192.168.2.0")));
    let all = Net4 { addr: parse_v4("10.1.2.3"), prefix_len: 0 };
    assert_eq!(all.network(), 0);
    assert_eq!(all.broadcast(), u32::MAX);
    let one = Net4 { addr: parse_v4("10.1.2.3"), prefix_len: 32 };
    assert_eq!(one.network(), one.broadcast());
    let six = Net6 { addr: 0xffu128 << 120, prefix_len: 8 };
    assert_eq!(six.network(), 0xffu128 << 120);
    assert_eq!(six.broadcast(), u128::MAX);
    assert!(!IpNetwork::V4(n).contains(IpAddress::V6(u128::from(parse_v4("192.168.1.5")))));
}

#[test]
fn address_range_operations() {
    let mut a = AddrRange::new();
    a.add(10, 20);
    a.add(30, 40);
    let mut b = AddrRange::new();
    b.add(15, 35);
    let both = a.intersect(&b);
    let either = a.merge(&b);
    let left = a.exclude(&b);
    for x in 0u128..50 {
        let in_a = (10..=20).contains(&x) || (30..=40).contains(&x);
        let in_b = (15..=35).contains(&x);
        assert_eq!(a.contains(x), in_a);
        assert_eq!(both.contains(x), in_a && in_b);
        assert_eq!(either.contains(x), in_a || in_b);
        assert_eq!(left.contains(x), in_a && !in_b);
    }
    assert_eq!(left.spans, vec![(10, 14), (36, 40)]);
    let mut full = AddrRange::new();
    full.add(0, u128::MAX);
    let rest = full.exclude_span(0, u128::MAX);
    assert!(rest.spans.is_empty());
    let edge = full.exclude_span(1, u128::MAX - 1);
    assert_eq!(edge.spans, vec![(0, 0), (u128::MAX, u128::MAX)]);
}

#[test]
fn negated_miss_has_no_evidence() {
    let r = t_check_entry(true, GlobalFilterEntryE::Ip(parse_ip("52.78.12.57")));
    assert!(r.matching);
    assert!(r.matched.is_empty());
    // a negated leaf whose predicate holds carries the evidence, and does not match
    let r = t_check_entry(true, GlobalFilterEntryE::Ip(parse_ip("52.78.12.56")));
    assert!(!r.matching);
    assert!(r.matched.contains(&Location::Ip));
}

#[test]
fn relation_without_children() {
    let none: Vec<GlobalFilterEntry> = Vec::new();
    let ri = mk_rinfo();
    let tags = Tags::new();
    let r = check_relation(&ri, &tags, Relation::And, &none, check_entry);
    assert!(r.matching);
    assert!(r.matched.is_empty());
    let r = check_relation(&ri, &tags, Relation::Or, &none, check_entry);
    assert!(!r.matching);
    assert!(r.matched.is_empty());
    let sub = GlobalFilterSSection { relation: Relation::And, entries: Vec::new() };
    assert!(check_subsection(&ri, &tags, &sub).matching);
    let sub = GlobalFilterSSection { relation: Relation::Or, entries: Vec::new() };
    assert!(!check_subsection(&ri, &tags, &sub).matching);
}

#[test]
fn relation_combines_children() {
    let mk = || {
        vec![
            GlobalFilterEntry { negated: false, entry: GlobalFilterEntryE::Method(single_re("GET")) },
            GlobalFilterEntry { negated: false, entry: GlobalFilterEntryE::Asn(1) },
        ]
    };
    let ri = mk_rinfo();
    let tags = Tags::new();
    let and = check_relation(&ri, &tags, Relation::And, &mk(), check_entry);
    assert!(!and.matching);
    assert!(and.matched.contains(&Location::Request));
    assert_eq!(and.matched.len(), 1);
    let or = check_relation(&ri, &tags, Relation::Or, &mk(), check_entry);
    assert!(or.matching);
}

#[test]
fn leaf_kinds() {
    let hit = |e: GlobalFilterEntryE| t_check_entry(false, e);
    assert!(hit(GlobalFilterEntryE::Network(parse_net("52.78.0.0/16"))).matching);
    assert!(!hit(GlobalFilterEntryE::Network(parse_net("52.79.0.0/16"))).matching);
    let mut r4 = AddrRange::new();
    r4.add(u128::from(parse_v4("52.78.12.0")), u128::from(parse_v4("52.78.12.255")));
    assert!(hit(GlobalFilterEntryE::Range4(r4.clone())).matching);
    assert!(!hit(GlobalFilterEntryE::Range6(r4)).matching);
    assert!(hit(GlobalFilterEntryE::Query(single_re("^lol=.*"))).matching);
    assert!(hit(GlobalFilterEntryE::Uri(single_re("/adminl e.*"))).matching);
    assert!(hit(GlobalFilterEntryE::Method(single_re("GET"))).matching);
    assert!(!hit(GlobalFilterEntryE::Method(single_re("POST"))).matching);
    assert!(hit(GlobalFilterEntryE::Asn(16509)).matching);
    assert!(!hit(GlobalFilterEntryE::Asn(16510)).matching);
    assert!(hit(GlobalFilterEntryE::Company(single_re("Amazon"))).matching);
    assert!(hit(GlobalFilterEntryE::Authority(single_re("localhost:30081"))).matching);
    assert!(hit(GlobalFilterEntryE::Args(double_re("lol", "boo"))).matching);
    assert!(!hit(GlobalFilterEntryE::Args(double_re("nope", "boo"))).matching);
    assert!(!hit(GlobalFilterEntryE::Cookies(double_re("lol", "boo"))).matching);
    assert!(!hit(GlobalFilterEntryE::Region(single_re("seoul"))).matching);
    assert!(!hit(GlobalFilterEntryE::SubRegion(single_re("seoul"))).matching);
}

#[test]
fn country_is_compared_in_lower_case() {
    let r = t_check_entry(false, GlobalFilterEntryE::Country(single_re("kr")));
    assert!(r.matching);
    assert!(r.matched.contains(&Location::Ip));
    // the exact text is compared as it is: the upper-case form only matches as a pattern
    let exact_only = SingleEntry { exact: "KR".to_string(), re: None };
    assert!(!t_check_entry(false, GlobalFilterEntryE::Country(exact_only)).matching);
}

#[test]
fn pattern_is_optional() {
    // "*/*" does not compile: only the exact text is compared
    let e = single_re("*/*");
    assert!(e.re.is_none());
    assert_eq!(e.exact, "*/*");
    let e = double_re("user-agent", "^curl.*");
    assert_eq!(e.re, Some("^curl.*".to_string()));
    let exact_only = PairEntry { key: "user-agent".to_string(), exact: "^curl.*".to_string(), re: None };
    assert!(!t_check_entry(false, GlobalFilterEntryE::Header(exact_only)).matching);
}

#[test]
fn header_evidence_names_the_value() {
    let r = t_check_entry(false, GlobalFilterEntryE::Header(double_re("user-agent", "^curl.*")));
    assert_eq!(r.matched.len(), 1);
    assert!(r.matched.contains(&Location::HeaderValue("user-agent".to_string(), "curl/7.58.0".to_string())));
    let r = t_check_entry(false, GlobalFilterEntryE::Args(double_re("bar", "bze")));
    assert!(r.matched.contains(&Location::UriArgumentValue("bar".to_string(), "bze".to_string())));
}

#[test]
fn check_single_and_pair() {
    let e = single_re("a+b");
    assert!(check_single(&e, "a+b", Location::Uri).is_some());
    assert!(check_single(&e, "xaaab", Location::Uri).is_some());
    assert!(check_single(&e, "ba+", Location::Uri).is_none());
    let locs = check_single(&e, "aab", Location::Uri).unwrap();
    assert!(locs.contains(&Location::Uri));
    let f = field(&[("k", "aab")]);
    let locs = check_pair(&double_re("k", "a+b"), &f, |v: &str| Location::CookieValue("k".to_string(), v.to_string()));
    assert!(locs.unwrap().contains(&Location::CookieValue("k".to_string(), "aab".to_string())));
    assert!(check_pair(&double_re("j", "a+b"), &f, |_: &str| Location::Cookies).is_none());
}

#[test]
fn tag_leaf_absorbs_evidence() {
    let mut tags = Tags::new();
    tags.insert("seen", Location::Uri);
    tags.insert("seen", Location::Path);
    let leaf = GlobalFilterEntry { negated: false, entry: GlobalFilterEntryE::Tag(single_re("seen")) };
    let r = check_entry(&mk_rinfo(), &tags, &leaf);
    assert!(r.matching);
    assert!(r.matched.contains(&Location::Uri));
    assert!(r.matched.contains(&Location::Path));
    assert_eq!(r.matched.len(), 2);
    let leaf = GlobalFilterEntry { negated: false, entry: GlobalFilterEntryE::Tag(single_re("se.*")) };
    assert!(!check_entry(&mk_rinfo(), &tags, &leaf).matching);
}

fn mk_stats() -> StatsCollect<BStageSecpol> {
    StatsCollect {
        revision: "rev1".to_string(),
        stage: BStageSecpol {
            secpol: SecpolStats {
                acl_enabled: true,
                content_filter_enabled: false,
                limit_amount: 3,
                globalfilters_amount: 2,
            },
        },
    }
}

fn curl_section(id: &str, tag: &str, action: Option<SimpleAction>) -> GlobalFilterSection {
    GlobalFilterSection {
        id: id.to_string(),
        tags: vec![tag.to_string()],
        relation: Relation::And,
        sections: vec![GlobalFilterSSection {
            relation: Relation::And,
            entries: vec![GlobalFilterEntry {
                negated: false,
                entry: GlobalFilterEntryE::Header(double_re("user-agent", "^curl.*")),
            }],
        }],
        action,
        name: format!("name of {}", id),
    }
}

fn custom(content: &str) -> SimpleAction {
    SimpleAction {
        atype: SimpleActionT::Custom { content: content.to_string() },
        headers: None,
        status: 503,
        extra_tags: None,
    }
}

#[test]
fn baseline_tags_are_set() {
    let (tags, decision, stats) = tag_request(mk_stats(), false, &[], &mk_rinfo());
    assert!(matches!(decision, SimpleDecision::Pass));
    for t in [
        "bot",
        "headers:7",
        "cookies:0",
        "args:3",
        "host:localhost:30081",
        "ip:52.78.12.56",
        "geo-continent-name:nil",
        "geo-continent-code:nil",
        "geo-city:nil",
        "geo-country:South Korea",
        "geo-region:nil",
        "geo-subregion:nil",
        "geo-asn:16509",
    ] {
        assert!(tags.contains(t), "missing {}", t);
    }
    assert_eq!(tags.len(), 13);
    assert!(!tags.contains("human"));
    assert!(tags.get("headers:7").unwrap().contains(&Location::Headers));
    assert!(tags.get("cookies:0").unwrap().contains(&Location::Cookies));
    assert!(tags.get("bot").unwrap().contains(&Location::Request));
    assert_eq!(stats.stage.globalfilters_total, 0);
    assert_eq!(stats.stage.globalfilters_active, 0);
    assert_eq!(stats.stage.secpol.limit_amount, 3);
    assert_eq!(stats.revision, "rev1");
    let (tags, _, _) = tag_request(mk_stats(), true, &[], &mk_rinfo());
    assert!(tags.contains("human"));
    assert!(!tags.contains("bot"));
}

#[test]
fn end_to_end_block() {
    let sections = vec![curl_section("gf1", "curl", Some(custom("blocked")))];
    let rinfo = mk_rinfo();
    let (mut tags, decision, stats) = tag_request(mk_stats(), false, &sections, &rinfo);
    assert_eq!(stats.stage.globalfilters_total, 1);
    assert_eq!(stats.stage.globalfilters_active, 1);
    let evidence = tags.get("curl").unwrap();
    assert!(evidence.contains(&Location::HeaderValue("user-agent".to_string(), "curl/7.58.0".to_string())));
    let (action, reasons) = match decision {
        SimpleDecision::Action(a, r) => (a, r),
        SimpleDecision::Pass => panic!("the filter did not act"),
    };
    let mut logs = Logs::new();
    let d = action.to_decision(&mut logs, PrecisionLevel::Invalid, None::<&DummyGrasshopper>, &rinfo, &mut tags, reasons);
    assert!(d.is_blocking());
    assert!(d.is_final());
    let a = d.maction.as_ref().unwrap();
    assert_eq!(a.content, "blocked");
    assert_eq!(a.atype, ActionType::Block);
    assert_eq!(a.status, 503);
    assert!(a.block_mode);
    assert_eq!(d.reasons.len(), 1);
    assert_eq!(d.reasons[0].initiator, Initiator::GlobalFilter);
    assert_eq!(d.reasons[0].id, "gf1");
    assert_eq!(d.reasons[0].name, "name of gf1");
    assert_eq!(d.reasons[0].location, Location::Request);
    assert_eq!(d.reasons[0].action, RawActionType::Custom);
    assert!(logs.logs.is_empty());
}

#[test]
fn enforced_action_stops_the_scan() {
    let monitor = SimpleAction { atype: SimpleActionT::Monitor, headers: None, status: 200, extra_tags: None };
    let challenge = SimpleAction {
        atype: SimpleActionT::Challenge { ch_level: GHMode::Active },
        headers: None,
        status: 247,
        extra_tags: None,
    };
    let mk = || {
        let mut miss = curl_section("gf0", "nobody", Some(custom("never")));
        miss.relation = Relation::Or;
        miss.sections = Vec::new();
        vec![
            miss,
            curl_section("gf1", "first", Some(SimpleAction { atype: SimpleActionT::Monitor, ..custom("") })),
            curl_section("gf2", "second", None),
            curl_section("gf3", "third", Some(SimpleAction { atype: SimpleActionT::Challenge { ch_level: GHMode::Active }, ..custom("") })),
            curl_section("gf4", "fourth", Some(custom("stop"))),
            curl_section("gf5", "fifth", Some(custom("late"))),
        ]
    };
    assert!(!monitor.is_blocking());
    assert!(challenge.is_blocking());
    // a human passes the challenge section and is stopped by the fourth
    let (tags, decision, stats) = tag_request(mk_stats(), true, &mk(), &mk_rinfo());
    assert_eq!(stats.stage.globalfilters_total, 6);
    assert_eq!(stats.stage.globalfilters_active, 4);
    for t in ["first", "second", "third", "fourth"] {
        assert!(tags.contains(t));
    }
    assert!(!tags.contains("fifth"));
    assert!(!tags.contains("nobody"));
    match decision {
        SimpleDecision::Action(a, reasons) => {
            assert!(matches!(a.atype, SimpleActionT::Custom { ref content } if content == "stop"));
            assert_eq!(reasons.len(), 1);
            assert_eq!(reasons[0].id, "gf4");
        }
        SimpleDecision::Pass => panic!("expected an action"),
    }
    // a bot is stopped by the challenge
    let (tags, decision, stats) = tag_request(mk_stats(), false, &mk(), &mk_rinfo());
    assert_eq!(stats.stage.globalfilters_active, 3);
    assert!(tags.contains("third"));
    assert!(!tags.contains("fourth"));
    match decision {
        SimpleDecision::Action(a, reasons) => {
            assert!(matches!(a.atype, SimpleActionT::Challenge { ch_level: GHMode::Active }));
            assert_eq!(reasons[0].id, "gf3");
        }
        SimpleDecision::Pass => panic!("expected an action"),
    }
}

#[test]
fn later_sections_see_earlier_tags() {
    let tagged = GlobalFilterSection {
        id: "gf2".to_string(),
        tags: vec!["derived".to_string()],
        relation: Relation::Or,
        sections: vec![GlobalFilterSSection {
            relation: Relation::Or,
            entries: vec![GlobalFilterEntry { negated: false, entry: GlobalFilterEntryE::Tag(single_re("curl")) }],
        }],
        action: None,
        name: "derived".to_string(),
    };
    let sections = vec![curl_section("gf1", "curl", None), tagged];
    let (tags, decision, stats) = tag_request(mk_stats(), false, &sections, &mk_rinfo());
    assert!(matches!(decision, SimpleDecision::Pass));
    assert_eq!(stats.stage.globalfilters_active, 2);
    let locs: &LocationSet = tags.get("derived").unwrap();
    assert!(locs.contains(&Location::HeaderValue("user-agent".to_string(), "curl/7.58.0".to_string())));
}
