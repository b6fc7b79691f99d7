use curiefense::audit::{jsonlog, jsonlog_rinfo, TriggerCounters};
use curiefense::collections::{StrMap, StrSet};
use curiefense::interface::{Action, ActionType, Decision};
use curiefense::location::{Location, LocationSet};
use curiefense::logs::Logs;
use curiefense::raw::RawActionType;
use curiefense::reasons::{BlockReason, Initiator, InitiatorKind};
use curiefense::request::{
    GeoIp, QueryInfo, RInfo, RequestInfo, RequestMeta, SecurityPolicy, Timestamp,
};
use curiefense::stats::{SecpolStats, Stats};
use curiefense::strings::{decimal_string, parse_u32};
use curiefense::tags::Tags;

fn field(pairs: &[(&str, &str)]) -> StrMap<String> {
    let mut m = StrMap::new();
    for (k, v) in pairs {
        m.insert(k.to_string(), v.to_string());
    }
    m
}

fn mk_rinfo(requestid: Option<&str>, plugins: StrMap<String>) -> RequestInfo {
    RequestInfo {
        timestamp: Timestamp { secs: 1_700_000_000, nanos: 5 },
        cookies: StrMap::new(),
        headers: StrMap::new(),
        rinfo: RInfo {
            meta: RequestMeta {
                authority: None,
                method: "POST".to_string(),
                path: "/".to_string(),
                requestid: requestid.map(|s| s.to_string()),
            },
            geoip: GeoIp {
                ipstr: "1.2.3.4".to_string(),
                ip: None,
                location: Some((1.5f64.to_bits(), (-2.25f64).to_bits())),
                city_name: None,
                country_iso: None,
                country_name: None,
                continent_name: None,
                continent_code: None,
                region: None,
                subregion: None,
                asn: None,
                company: None,
                as_name: None,
                as_domain: None,
                as_type: None,
                company_country: None,
                company_domain: None,
                company_type: None,
                mobile_carrier_name: None,
                mobile_country: None,
                mobile_mcc: None,
                mobile_mnc: None,
            },
            qinfo: QueryInfo {
                qpath: "/".to_string(),
                query: String::new(),
                uri: "/".to_string(),
                args: StrMap::new(),
                path_as_map: StrMap::new(),
            },
            host: "h".to_string(),
            secpolicy: SecurityPolicy { policy_id: "pol".to_string(), entry_id: "ent".to_string() },
            container_name: None,
        },
        session: String::new(),
        session_ids: StrMap::new(),
        plugins,
    }
}

fn mk_stats() -> Stats {
    Stats {
        revision: "r".to_string(),
        processing_stage: 4,
        secpol: SecpolStats { acl_enabled: true, content_filter_enabled: true, limit_amount: 1, globalfilters_amount: 2 },
        content_filter_total: 9,
        timing: vec![("secpol".to_string(), 12)],
    }
}

fn reason(id: &str, initiator: Initiator, action: RawActionType) -> BlockReason {
    BlockReason {
        id: id.to_string(),
        name: format!("rule {}", id),
        initiator,
        location: Location::Uri,
        extra_locations: vec![Location::Path],
        action,
        extra: Some("{\"k\":1}".to_string()),
    }
}

fn ids(v: &[BlockReason]) -> Vec<&str> {
    v.iter().map(|r| r.id.as_str()).collect()
}

fn mk_tags() -> Tags {
    let mut tags = Tags::new();
    tags.insert("bot", Location::Request);
    tags.insert("branch:main", Location::Request);
    tags.insert("branch:other", Location::Request);
    tags
}

#[test]
fn record_of_a_block() {
    let mut extra = StrSet::new();
    extra.insert("from-action".to_string());
    let mut action = Action::default();
    action.extra_tags = Some(extra);
    let dec = Decision::action(
        action,
        vec![
            reason("m", Initiator::Acl, RawActionType::Monitor),
            reason("c1", Initiator::ContentFilter { risk_level: 3 }, RawActionType::Custom),
            reason("g", Initiator::GlobalFilter, RawActionType::Custom),
            reason("l", Initiator::Limit { threshold: 2 }, RawActionType::Monitor),
            reason("c2", Initiator::ContentFilter { risk_level: 1 }, RawActionType::Monitor),
            reason("r", Initiator::Restriction, RawActionType::Monitor),
        ],
    );
    let rinfo = mk_rinfo(Some("from-request"), field(&[("p", "q")]));
    let stats = mk_stats();
    let logs = Logs::new();
    let proxy = field(&[("request_id", "from-proxy"), ("status", "200")]);
    let now = Timestamp { secs: 7, nanos: 8 };
    let rec = jsonlog_rinfo(&dec, &rinfo, Some(503), &mk_tags(), &stats, &logs, &proxy, &now);
    assert_eq!(rec.timestamp, now);
    assert_eq!(rec.request_id, Some("from-proxy".to_string()));
    assert!(rec.with_plugins);
    assert_eq!(rec.response_code, Some(503));
    assert_eq!(ids(&rec.acl_triggers), vec!["m"]);
    assert_eq!(ids(&rec.rl_triggers), vec!["l"]);
    assert_eq!(ids(&rec.gf_triggers), vec!["g"]);
    assert_eq!(ids(&rec.cf_triggers), vec!["c1", "c2"]);
    assert_eq!(ids(&rec.cf_restrict_triggers), vec!["r"]);
    assert_eq!(rec.trigger_counters, TriggerCounters { acl: 1, gf: 1, rl: 1, cf: 2, cf_restrict: 1 });
    // the first final reason is the one described
    assert_eq!(rec.reason, Some("content filter: rule c1".to_string()));
    assert_eq!(rec.branch, Some("main".to_string()));
    assert_eq!(rec.tags, vec!["bot", "branch:main", "branch:other", "from-action", "status:503", "status-class:5xx"]);
    assert_eq!(rec.cf_triggers[0].extra, Some("{\"k\":1}".to_string()));
    assert_eq!(rec.cf_triggers[0].extra_locations, vec![Location::Path]);
    assert_eq!(rec.rinfo.rinfo.geoip.location, Some((1.5f64.to_bits(), (-2.25f64).to_bits())));
    assert_eq!(rec.stats.content_filter_total, 9);
    assert_eq!(rec.proxy.len(), 2);
    assert!(rec.logs.logs.is_empty());
}

#[test]
fn record_of_a_monitor() {
    let mut action = Action::default();
    action.atype = ActionType::Monitor;
    let dec = Decision::action(action, vec![reason("m", Initiator::Acl, RawActionType::Monitor)]);
    let rinfo = mk_rinfo(Some("from-request"), StrMap::new());
    let stats = mk_stats();
    let logs = Logs::new();
    let proxy = StrMap::new();
    let now = Timestamp { secs: 7, nanos: 8 };
    let mut tags = Tags::new();
    tags.insert("branch", Location::Request);
    let rec = jsonlog_rinfo(&dec, &rinfo, Some(200), &tags, &stats, &logs, &proxy, &now);
    // the code is recorded, the tags do not tell of it; nothing is final, so no reason
    assert_eq!(rec.response_code, Some(200));
    assert_eq!(rec.tags, vec!["branch"]);
    assert_eq!(rec.reason, None);
    assert_eq!(rec.branch, None);
    assert_eq!(rec.request_id, Some("from-request".to_string()));
    assert!(!rec.with_plugins);
    assert_eq!(rec.trigger_counters, TriggerCounters { acl: 1, gf: 0, rl: 0, cf: 0, cf_restrict: 0 });
}

#[test]
fn record_of_a_pass() {
    let dec = Decision::pass(Vec::new());
    let rinfo = mk_rinfo(None, StrMap::new());
    let stats = mk_stats();
    let logs = Logs::new();
    let proxy = StrMap::new();
    let now = Timestamp { secs: 7, nanos: 8 };
    let rec = jsonlog_rinfo(&dec, &rinfo, None, &Tags::new(), &stats, &logs, &proxy, &now);
    assert_eq!(rec.request_id, None);
    assert!(rec.tags.is_empty());
    assert_eq!(rec.reason, None);
    let rec = jsonlog_rinfo(&dec, &rinfo, Some(404), &Tags::new(), &stats, &logs, &proxy, &now);
    assert_eq!(rec.tags, vec!["status:404", "status-class:4xx"]);
    let rec = jsonlog_rinfo(&dec, &rinfo, Some(7), &Tags::new(), &stats, &logs, &proxy, &now);
    assert_eq!(rec.tags, vec!["status:7", "status-class:0xx"]);
    // a skip is final through its reason
    let skip = Decision::skip("s".to_string(), "allow".to_string(), Initiator::Acl, Location::Ip);
    let rec = jsonlog_rinfo(&skip, &rinfo, None, &Tags::new(), &stats, &logs, &proxy, &now);
    assert_eq!(rec.reason, Some("acl: allow".to_string()));
}

#[test]
fn status_comes_from_the_proxy() {
    let dec = Decision::pass(Vec::new());
    let rinfo = mk_rinfo(None, StrMap::new());
    let stats = mk_stats();
    let logs = Logs::new();
    let now = Timestamp { secs: 7, nanos: 8 };
    let tags = Tags::new();
    let proxy = field(&[("status", "404")]);
    let (rec, stamp) = jsonlog(&dec, Some(&rinfo), None, &tags, &stats, &logs, &proxy, now);
    assert_eq!(stamp, Timestamp { secs: 1_700_000_000, nanos: 5 });
    let rec = rec.unwrap();
    assert_eq!(rec.timestamp, stamp);
    assert_eq!(rec.response_code, Some(404));
    assert_eq!(rec.tags, vec!["status:404", "status-class:4xx"]);
    // the code that is given counts before that of the proxy
    let (rec, _) = jsonlog(&dec, Some(&rinfo), Some(201), &tags, &stats, &logs, &proxy, now);
    assert_eq!(rec.unwrap().response_code, Some(201));
    let proxy = field(&[("status", "4o4")]);
    let (rec, _) = jsonlog(&dec, Some(&rinfo), None, &tags, &stats, &logs, &proxy, now);
    assert_eq!(rec.unwrap().response_code, None);
    let (rec, stamp) = jsonlog(&dec, None, Some(200), &tags, &stats, &logs, &proxy, now);
    assert!(rec.is_none());
    assert_eq!(stamp, now);
}

#[test]
fn reasons_by_engine() {
    let all = vec![
        reason("a", Initiator::Acl, RawActionType::Monitor),
        reason("b", Initiator::Limit { threshold: 1 }, RawActionType::Custom),
        reason("c", Initiator::Acl, RawActionType::Skip),
    ];
    assert_eq!(ids(&BlockReason::regroup(&all, InitiatorKind::Acl)), vec!["a", "c"]);
    assert_eq!(ids(&BlockReason::regroup(&all, InitiatorKind::RateLimit)), vec!["b"]);
    assert!(BlockReason::regroup(&all, InitiatorKind::Restriction).is_empty());
    assert_eq!(BlockReason::block_reason_desc(&all), Some("rate limit: rule b".to_string()));
    assert_eq!(BlockReason::block_reason_desc(&all[..1].to_vec()), None);
    assert_eq!(BlockReason::block_reason_desc(&Vec::new()), None);
    assert_eq!(InitiatorKind::GlobalFilter.label(), "global filter");
    assert_eq!(InitiatorKind::Restriction.label(), "restriction");
    assert_eq!(InitiatorKind::ContentFilter.label(), "content filter");
    let c = all[1].clone();
    assert_eq!((c.id.as_str(), c.initiator, c.action), ("b", Initiator::Limit { threshold: 1 }, RawActionType::Custom));
    assert_eq!(c.extra_locations, vec![Location::Path]);
}

#[test]
fn decimal_text() {
    assert_eq!(decimal_string(0), "0");
    assert_eq!(decimal_string(9), "9");
    assert_eq!(decimal_string(10), "10");
    assert_eq!(decimal_string(1234567890), "1234567890");
    assert_eq!(decimal_string(u64::MAX), "18446744073709551615");
    assert_eq!(curiefense::strings::joined("ab", "cd"), "abcd");
    assert_eq!(curiefense::strings::joined("", ""), "");
}

#[test]
fn tags_collect_locations() {
    let mut tags = Tags::new();
    tags.insert("t", Location::Ip);
    tags.insert("t", Location::Ip);
    tags.insert("t", Location::HeaderValue("a".to_string(), "b".to_string()));
    tags.insert_qualified("geo", "fr", Location::Request);
    assert_eq!(tags.len(), 2);
    assert!(tags.contains("geo:fr") && !tags.contains("geo"));
    let t = tags.get("t").unwrap();
    assert_eq!(t.len(), 2);
    assert!(t.contains(&Location::HeaderValue("a".to_string(), "b".to_string())));
    assert!(!t.contains(&Location::HeaderValue("a".to_string(), "c".to_string())));
    let mut more = LocationSet::new();
    more.insert(Location::Uri);
    more.insert(Location::Ip);
    tags.insert_all(&vec!["t".to_string(), "u".to_string()], &more);
    assert_eq!(tags.get("t").unwrap().len(), 3);
    assert_eq!(tags.get("u").unwrap().len(), 2);
    let copy = tags.clone();
    assert_eq!(copy.len(), 3);
    assert!(copy.get("u").unwrap().contains(&Location::Uri));
    let names: Vec<&str> = copy.map.entries.iter().map(|(k, _)| k.as_str()).collect();
    assert_eq!(names, vec!["t", "geo:fr", "u"]);
    assert_ne!(Location::Ip, Location::Path);
    assert_ne!(Location::CookieValue("a".to_string(), "b".to_string()), Location::HeaderValue("a".to_string(), "b".to_string()));
    assert_eq!(Location::Cookies.clone(), Location::Cookies);
}

#[test]
fn numbers_are_read() {
    assert_eq!(parse_u32("0"), Some(0));
    assert_eq!(parse_u32("404"), Some(404));
    assert_eq!(parse_u32("+7"), Some(7));
    assert_eq!(parse_u32("007"), Some(7));
    assert_eq!(parse_u32("4294967295"), Some(u32::MAX));
    assert_eq!(parse_u32("4294967296"), None);
    assert_eq!(parse_u32("99999999999999999999999"), None);
    assert_eq!(parse_u32(""), None);
    assert_eq!(parse_u32("+"), None);
    assert_eq!(parse_u32("-1"), None);
    assert_eq!(parse_u32("++1"), None);
    assert_eq!(parse_u32(" 1"), None);
    assert_eq!(parse_u32("1 "), None);
    assert_eq!(parse_u32("4o4"), None);
    assert_eq!(parse_u32("1_000"), None);
    assert_eq!(parse_u32("\u{663}"), None);
    // the same answers as the standard reader gives
    for text in ["0", "404", "+7", "007", "4294967295", "4294967296", "", "+", "-1", "++1", " 1", "4o4"] {
        assert_eq!(parse_u32(text), text.parse::<u32>().ok(), "on {:?}", text);
    }
}
