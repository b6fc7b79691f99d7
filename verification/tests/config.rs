use curiefense::collections::{StrMap, StrSet};
use curiefense::logs::{LogLevel, Logs};
use curiefense::raw::{RawWafEntryMatch, RawWafProfile, RawWafProperties, WafSignature};
use curiefense::waf::{
    convert_entry, convert_signature, mk_entry_match, mk_section, resolve_signatures, Section,
    SectionIdx, Transformation, WafError, WafProfile, WafSignatures,
};

fn entry(key: &str, reg: Option<&str>) -> RawWafEntryMatch {
    RawWafEntryMatch {
        key: key.to_string(),
        reg: reg.map(|s| s.to_string()),
        restrict: false,
        mask: None,
        exclusions: Vec::new(),
    }
}

fn props(names: Vec<RawWafEntryMatch>, regex: Vec<RawWafEntryMatch>) -> RawWafProperties {
    RawWafProperties { names, regex }
}

fn profile(id: &str, headers: RawWafProperties) -> RawWafProfile {
    RawWafProfile {
        id: id.to_string(),
        name: format!("profile {}", id),
        ignore_alphanum: false,
        max_header_length: 11,
        max_cookie_length: 12,
        max_arg_length: 13,
        max_headers_count: 21,
        max_cookies_count: 22,
        max_args_count: 23,
        args: props(Vec::new(), Vec::new()),
        headers,
        cookies: props(Vec::new(), Vec::new()),
        path: props(Vec::new(), Vec::new()),
    }
}

fn pattern_of(e: WafError) -> String {
    match e {
        WafError::InvalidPattern(p) => p,
    }
}

#[test]
fn section_access() {
    let mut s = Section { headers: 1, cookies: 2, args: 3, path: 4 };
    assert_eq!(*s.get(SectionIdx::Headers), 1);
    assert_eq!(*s.get(SectionIdx::Cookies), 2);
    assert_eq!(*s.get(SectionIdx::Args), 3);
    assert_eq!(*s.get(SectionIdx::Path), 4);
    *s.at(SectionIdx::Args) = 30;
    *s.at(SectionIdx::Path) += 1;
    assert_eq!((s.headers, s.cookies, s.args, s.path), (1, 2, 30, 5));
    let d: Section<u8> = Section::default();
    assert_eq!((d.headers, d.cookies, d.args, d.path), (0, 0, 0, 0));
}

#[test]
fn default_profile() {
    let p = WafProfile::default();
    assert_eq!(p.id, "__default__");
    assert_eq!(p.name, "default waf");
    assert!(p.ignore_alphanum);
    let bounds = |i: SectionIdx| (p.sections.get(i).max_count, p.sections.get(i).max_length);
    assert_eq!(bounds(SectionIdx::Headers), (42, 1024));
    assert_eq!(bounds(SectionIdx::Cookies), (42, 1024));
    assert_eq!(bounds(SectionIdx::Args), (512, 1024));
    assert_eq!(bounds(SectionIdx::Path), (42, 2048));
    for i in [SectionIdx::Headers, SectionIdx::Cookies, SectionIdx::Args, SectionIdx::Path] {
        assert!(p.sections.get(i).names.is_empty());
        assert!(p.sections.get(i).regex.is_empty());
    }
    assert_eq!(
        p.decoding,
        vec![
            Transformation::Base64Decode,
            Transformation::HtmlEntitiesDecode,
            Transformation::UnicodeDecode,
            Transformation::UrlDecode,
        ]
    );
}

#[test]
fn entry_match_patterns() {
    let (key, m) = mk_entry_match(&entry("k", None)).unwrap();
    assert_eq!(key, "k");
    assert!(m.reg.is_none() && !m.restrict && !m.mask);
    assert_eq!(m.exclusions.len(), 0);
    // an empty pattern is no pattern
    let (_, m) = mk_entry_match(&entry("k", Some(""))).unwrap();
    assert!(m.reg.is_none());
    let mut e = entry("k", Some("^[a-z]+$"));
    e.restrict = true;
    e.mask = Some(true);
    e.exclusions = vec!["100000".to_string(), "100001".to_string(), "100000".to_string()];
    let (_, m) = mk_entry_match(&e).unwrap();
    assert_eq!(m.reg, Some("^[a-z]+$".to_string()));
    assert!(m.restrict && m.mask);
    assert!(m.exclusions.contains("100000") && m.exclusions.contains("100001"));
    assert!(!m.exclusions.contains("100002"));
    assert_eq!(m.exclusions.len(), 2);
    let err = mk_entry_match(&entry("k", Some("(unclosed"))).unwrap_err();
    assert_eq!(pattern_of(err), "(unclosed");
}

#[test]
fn section_compilation() {
    let p = props(
        vec![entry("a", Some("x+")), entry("b", None), entry("a", Some("y+"))],
        vec![entry("^c.*", None), entry("^d.*", Some("z"))],
    );
    let s = mk_section(&p, 100, 7).unwrap();
    assert_eq!((s.max_length, s.max_count), (100, 7));
    assert_eq!(s.names.len(), 2);
    // the later matcher of a name counts
    assert_eq!(s.names.get("a").unwrap().reg, Some("y+".to_string()));
    assert!(s.names.get("b").unwrap().reg.is_none());
    let keys: Vec<&str> = s.regex.iter().map(|(k, _)| k.as_str()).collect();
    assert_eq!(keys, vec!["^c.*", "^d.*"]);
    assert_eq!(s.regex[1].1.reg, Some("z".to_string()));
    // the bounds stand without any matcher
    let s = mk_section(&props(Vec::new(), Vec::new()), 5, 6).unwrap();
    assert_eq!((s.max_length, s.max_count), (5, 6));
    // errors: names before patterns, in order; the key of a matcher by pattern is a pattern
    let bad = props(vec![entry("a", Some("x+")), entry("b", Some("[b"))], vec![entry("[c", None)]);
    assert_eq!(pattern_of(mk_section(&bad, 1, 1).unwrap_err()), "[b");
    let bad = props(vec![entry("a", Some("x+"))], vec![entry("ok", Some("[v")), entry("[c", None)]);
    assert_eq!(pattern_of(mk_section(&bad, 1, 1).unwrap_err()), "[v");
    let bad = props(vec![entry("[a", None)], vec![entry("ok", None), entry("[c", None)]);
    assert_eq!(pattern_of(mk_section(&bad, 1, 1).unwrap_err()), "[c");
}

#[test]
fn profile_conversion() {
    let mut raw = profile("first", props(vec![entry("h", Some("v"))], Vec::new()));
    raw.ignore_alphanum = true;
    let (id, p) = convert_entry(&raw).unwrap();
    assert_eq!(id, "first");
    assert_eq!(p.id, "first");
    assert_eq!(p.name, "profile first");
    assert!(p.ignore_alphanum);
    assert_eq!((p.sections.headers.max_length, p.sections.headers.max_count), (11, 21));
    assert_eq!((p.sections.cookies.max_length, p.sections.cookies.max_count), (12, 22));
    assert_eq!((p.sections.args.max_length, p.sections.args.max_count), (13, 23));
    // the path is held to the bounds of the arguments
    assert_eq!((p.sections.path.max_length, p.sections.path.max_count), (13, 23));
    assert_eq!(p.sections.headers.names.len(), 1);
    assert_eq!(
        p.decoding,
        vec![
            Transformation::Base64Decode,
            Transformation::UrlDecode,
            Transformation::HtmlEntitiesDecode,
            Transformation::UnicodeDecode,
        ]
    );
    let mut bad = profile("second", props(Vec::new(), Vec::new()));
    bad.path = props(vec![entry("x", Some("(p"))], Vec::new());
    bad.cookies = props(vec![entry("x", Some("(c"))], Vec::new());
    assert_eq!(pattern_of(convert_entry(&bad).unwrap_err()), "(c");
}

#[test]
fn profiles_are_accepted_one_by_one() {
    let raws = vec![
        profile("good", props(vec![entry("h", Some("v"))], Vec::new())),
        profile("bad", props(vec![entry("h", Some("(v"))], Vec::new())),
        profile("other", props(Vec::new(), vec![entry("^x", None)])),
        profile("worse", props(Vec::new(), vec![entry("*x", None)])),
        profile("good", props(Vec::new(), Vec::new())),
    ];
    let mut logs = Logs::new();
    logs.debug("before".to_string());
    let out = WafProfile::resolve(&mut logs, raws);
    assert_eq!(out.len(), 2);
    assert!(out.get("other").is_some());
    assert!(out.get("bad").is_none() && out.get("worse").is_none());
    // the later profile of an id counts
    assert!(out.get("good").unwrap().sections.headers.names.is_empty());
    let got: Vec<(LogLevel, &str)> = logs.logs.iter().map(|l| (l.level, l.message.as_str())).collect();
    assert_eq!(
        got,
        vec![
            (LogLevel::Debug, "before"),
            (LogLevel::Error, "waf id bad: invalid pattern (v"),
            (LogLevel::Error, "waf id worse: invalid pattern *x"),
        ]
    );
}

fn signature(id: &str, operand: &str) -> WafSignature {
    WafSignature {
        id: id.to_string(),
        name: format!("sig {}", id),
        msg: String::new(),
        operand: operand.to_string(),
        severity: 5,
        certainity: 5,
        category: "sqli".to_string(),
        subcategory: "blind".to_string(),
    }
}

#[test]
fn signatures_all_or_nothing() {
    assert!(WafSignatures::empty().ids.is_empty());
    let sigs = resolve_signatures(vec![signature("1", "union\\s+select"), signature("2", "a.b")]).unwrap();
    let ids: Vec<&str> = sigs.ids.iter().map(|s| s.id.as_str()).collect();
    assert_eq!(ids, vec!["1", "2"]);
    assert!(resolve_signatures(Vec::new()).unwrap().ids.is_empty());
    let err = resolve_signatures(vec![signature("1", "ok"), signature("2", "(bad"), signature("3", "[worse")]).unwrap_err();
    assert_eq!(pattern_of(err), "(bad");
    assert!(convert_signature(&signature("1", "^TEST$")).is_ok());
    assert_eq!(pattern_of(convert_signature(&signature("1", "+")).unwrap_err()), "+");
}

#[test]
fn string_map() {
    let mut m: StrMap<String> = StrMap::new();
    assert!(m.is_empty());
    m.insert("a".to_string(), "1".to_string());
    m.insert("b".to_string(), "2".to_string());
    m.insert("a".to_string(), "3".to_string());
    assert_eq!(m.len(), 2);
    assert_eq!(m.get("a"), Some(&"3".to_string()));
    assert_eq!(m.find("b"), Some(1));
    assert_eq!(m.find("c"), None);
    assert!(m.contains_key("b") && !m.contains_key("c"));
    m.insert_absent("b".to_string(), "9".to_string());
    m.insert_absent("c".to_string(), "4".to_string());
    assert_eq!(m.get("b"), Some(&"2".to_string()));
    assert_eq!(m.get("c"), Some(&"4".to_string()));
    let mut other: StrMap<String> = StrMap::new();
    other.insert("c".to_string(), "x".to_string());
    other.insert("d".to_string(), "y".to_string());
    m.absorb(other);
    let keys: Vec<&str> = m.entries.iter().map(|(k, _)| k.as_str()).collect();
    assert_eq!(keys, vec!["a", "b", "c", "d"]);
    assert_eq!(m.get("c"), Some(&"4".to_string()));
    assert_eq!(m.get("d"), Some(&"y".to_string()));
    let mut same: StrMap<String> = StrMap::new();
    for (k, v) in [("d", "y"), ("c", "4"), ("b", "2"), ("a", "3")] {
        same.insert(k.to_string(), v.to_string());
    }
    assert!(m.same(&same) && same.same(&m));
    assert!(m.same(&m.clone()));
    same.insert("a".to_string(), "0".to_string());
    assert!(!m.same(&same));
    assert!(StrMap::new().within(&m) && !m.within(&StrMap::new()));
    // where two entries name one key, the first counts
    let twice = StrMap { entries: vec![("k".to_string(), 1u8), ("k".to_string(), 2u8)] };
    assert_eq!(twice.get("k"), Some(&1));
    let mut s = StrSet::new();
    s.insert("x".to_string());
    s.insert("y".to_string());
    s.insert("x".to_string());
    assert_eq!(s.items, vec!["x".to_string(), "y".to_string()]);
    let c = s.clone();
    assert_eq!(c.items, s.items);
    assert!(c.contains("y") && !c.contains("z"));
    assert!(c.same(&s) && c.within(&s));
    let mut more = s.clone();
    more.insert("z".to_string());
    assert!(s.within(&more) && !more.within(&s) && !more.same(&s));
}
