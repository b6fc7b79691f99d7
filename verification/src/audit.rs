//! The audit record of one evaluation.
//!
//! The record says what is to be logged; how it is written out is left to the caller.

use crate::collections::StrMap;
use crate::interface::{ActionType, Decision, DecisionView};
use crate::logs::Logs;
use crate::reasons::{
    first_final_description, of_kind, reasons_view, BlockReason, BlockReasonView, InitiatorKind,
};
use crate::request::{opt_text, RequestInfo, Timestamp};
use crate::stats::Stats;
use crate::strings::{
    decimal, decimal_string, joined, lemma_texts_push, parse_u32, parsed_u32, strip_prefix, texts,
};
use crate::tags::Tags;
use vstd::prelude::*;

verus! {

/// How many reasons each rule engine left.
#[derive(Debug, Clone, Copy, PartialEq, Eq, Structural)]
pub struct TriggerCounters {
    pub acl: usize,
    pub gf: usize,
    pub rl: usize,
    pub cf: usize,
    pub cf_restrict: usize,
}

/// The audit record of one evaluation.
///
/// The request, the counters, the messages and the values of the proxy go into the
/// record as they are. The other fields are worked out from the decision and the tags.
#[derive(Debug)]
pub struct LogRecord<'a> {
    pub timestamp: Timestamp,
    pub rinfo: &'a RequestInfo,
    pub stats: &'a Stats,
    pub logs: &'a Logs,
    pub proxy: &'a StrMap<String>,
    /// The id that the proxy gives the request, or else the one the request came with.
    pub request_id: Option<String>,
    /// Whether the values of the plugins are part of the record: they are unless there
    /// are none.
    pub with_plugins: bool,
    pub response_code: Option<u32>,
    pub acl_triggers: Vec<BlockReason>,
    pub rl_triggers: Vec<BlockReason>,
    pub gf_triggers: Vec<BlockReason>,
    pub cf_triggers: Vec<BlockReason>,
    pub cf_restrict_triggers: Vec<BlockReason>,
    pub trigger_counters: TriggerCounters,
    /// Why the request was stopped, for a decision that is final.
    pub reason: Option<String>,
    /// The branch that the request was tagged with.
    pub branch: Option<String>,
    pub tags: Vec<String>,
}

/// The fields of a [`LogRecord`] that are worked out.
pub struct LogRecordView {
    pub timestamp: Timestamp,
    pub request_id: Option<Seq<char>>,
    pub with_plugins: bool,
    pub response_code: Option<u32>,
    pub acl_triggers: Seq<BlockReasonView>,
    pub rl_triggers: Seq<BlockReasonView>,
    pub gf_triggers: Seq<BlockReasonView>,
    pub cf_triggers: Seq<BlockReasonView>,
    pub cf_restrict_triggers: Seq<BlockReasonView>,
    pub trigger_counters: TriggerCounters,
    pub reason: Option<Seq<char>>,
    pub branch: Option<Seq<char>>,
    pub tags: Seq<Seq<char>>,
}

impl<'a> View for LogRecord<'a> {
    type V = LogRecordView;

    open spec fn view(&self) -> LogRecordView {
        LogRecordView {
            timestamp: self.timestamp,
            request_id: opt_text(self.request_id),
            with_plugins: self.with_plugins,
            response_code: self.response_code,
            acl_triggers: reasons_view(self.acl_triggers@),
            rl_triggers: reasons_view(self.rl_triggers@),
            gf_triggers: reasons_view(self.gf_triggers@),
            cf_triggers: reasons_view(self.cf_triggers@),
            cf_restrict_triggers: reasons_view(self.cf_restrict_triggers@),
            trigger_counters: self.trigger_counters,
            reason: opt_text(self.reason),
            branch: opt_text(self.branch),
            tags: texts(self.tags@),
        }
    }
}

/// The names of the tags, in the order they were set.
pub open spec fn tag_names(tags: &Tags) -> Seq<Seq<char>> {
    Seq::new(tags.map.entries@.len(), |i: int| tags.map.entries@[i].0@)
}

/// What follows `branch:` in the first name that starts with it.
pub open spec fn branch_of(names: Seq<Seq<char>>) -> Option<Seq<char>>
    decreases names.len(),
{
    if names.len() == 0 {
        None
    } else if "branch:"@.is_prefix_of(names.first()) {
        Some(names.first().skip("branch:"@.len() as int))
    } else {
        branch_of(names.drop_first())
    }
}

/// The two tags that tell the status of the response: the code, and its class.
pub open spec fn status_tags(code: Option<u32>) -> Seq<Seq<char>> {
    match code {
        Some(c) => seq![
            "status:"@ + decimal(c as nat),
            "status-class:"@ + decimal((c / 100) as nat) + "xx"@,
        ],
        None => Seq::empty(),
    }
}

/// The response code that the tags tell of: none where the decision only monitors.
pub open spec fn tagged_code(dec: DecisionView, rcode: Option<u32>) -> Option<u32> {
    match dec.maction {
        Some(a) => if a.atype == ActionType::Monitor {
            None
        } else {
            rcode
        },
        None => rcode,
    }
}

/// The tags that the action of the decision carries.
pub open spec fn action_tags(dec: DecisionView) -> Seq<Seq<char>> {
    match dec.maction {
        Some(a) => match a.extra_tags {
            Some(t) => t,
            None => Seq::empty(),
        },
        None => Seq::empty(),
    }
}

/// The tags of the record: those of the request, those of the action, and the status of
/// the response.
pub open spec fn record_tags(dec: DecisionView, tags: &Tags, rcode: Option<u32>) -> Seq<Seq<char>> {
    tag_names(tags) + action_tags(dec) + status_tags(tagged_code(dec, rcode))
}

/// The id of the request: the one the proxy gives under `request_id`, or else the one
/// the request came with.
pub open spec fn record_request_id(rinfo: &RequestInfo, proxy: &StrMap<String>) -> Option<
    Seq<char>,
> {
    if proxy@.contains_key("request_id"@) {
        Some(proxy@["request_id"@])
    } else {
        opt_text(rinfo.rinfo.meta.requestid)
    }
}

/// The fields that are worked out for the record of an evaluation.
pub open spec fn audit_record(
    dec: DecisionView,
    rinfo: &RequestInfo,
    rcode: Option<u32>,
    tags: &Tags,
    proxy: &StrMap<String>,
    now: Timestamp,
) -> LogRecordView {
    LogRecordView {
        timestamp: now,
        request_id: record_request_id(rinfo, proxy),
        with_plugins: rinfo.plugins@ != Map::<Seq<char>, Seq<char>>::empty(),
        response_code: rcode,
        acl_triggers: of_kind(dec.reasons, InitiatorKind::Acl),
        rl_triggers: of_kind(dec.reasons, InitiatorKind::RateLimit),
        gf_triggers: of_kind(dec.reasons, InitiatorKind::GlobalFilter),
        cf_triggers: of_kind(dec.reasons, InitiatorKind::ContentFilter),
        cf_restrict_triggers: of_kind(dec.reasons, InitiatorKind::Restriction),
        trigger_counters: TriggerCounters {
            acl: of_kind(dec.reasons, InitiatorKind::Acl).len() as usize,
            gf: of_kind(dec.reasons, InitiatorKind::GlobalFilter).len() as usize,
            rl: of_kind(dec.reasons, InitiatorKind::RateLimit).len() as usize,
            cf: of_kind(dec.reasons, InitiatorKind::ContentFilter).len() as usize,
            cf_restrict: of_kind(dec.reasons, InitiatorKind::Restriction).len() as usize,
        },
        reason: if dec.is_final() {
            first_final_description(dec.reasons)
        } else {
            None
        },
        branch: branch_of(tag_names(tags)),
        tags: record_tags(dec, tags, rcode),
    }
}

fn find_branch(tags: &Tags) -> (r: Option<String>)
    ensures
        opt_text(r) == branch_of(tag_names(tags)),
{
    let ghost names = tag_names(tags);
    let mut i: usize = 0;
    assert(names.skip(0) =~= names);
    while i < tags.map.entries.len()
        invariant
            i <= names.len(),
            names == tag_names(tags),
            branch_of(names) == branch_of(names.skip(i as int)),
        decreases names.len() - i,
    {
        proof {
            assert(names.skip(i as int).first() == tags.map.entries@[i as int].0@);
            assert(names.skip(i as int).drop_first() =~= names.skip(i + 1));
        }
        match strip_prefix(tags.map.entries[i].0.as_str(), "branch:") {
            Some(rest) => {
                return Some(rest.to_string());
            },
            None => {},
        }
        i += 1;
    }
    None
}

fn collect_tags(dec: &Decision, tags: &Tags, rcode: Option<u32>) -> (r: Vec<String>)
    ensures
        texts(r@) == record_tags(dec@, tags, rcode),
{
    let mut out: Vec<String> = Vec::new();
    let ghost names = tag_names(tags);
    let mut i: usize = 0;
    proof {
        assert(texts(out@) =~= names.take(0));
    }
    while i < tags.map.entries.len()
        invariant
            i <= names.len(),
            names == tag_names(tags),
            texts(out@) == names.take(i as int),
        decreases names.len() - i,
    {
        let name = tags.map.entries[i].0.clone();
        proof {
            lemma_texts_push(out@, name);
        }
        out.push(name);
        assert(texts(out@) =~= names.take(i + 1));
        i += 1;
    }
    proof {
        assert(names.take(names.len() as int) =~= names);
    }
    let mut code = rcode;
    match &dec.maction {
        Some(action) => {
            // a monitoring action leaves the response to the server: no status is told
            if action.atype == ActionType::Monitor {
                code = None;
            }
            match &action.extra_tags {
                Some(extra) => {
                    let ghost added = texts(extra.items@);
                    let mut j: usize = 0;
                    proof {
                        assert(texts(out@) =~= names + added.take(0));
                    }
                    while j < extra.items.len()
                        invariant
                            j <= added.len(),
                            added == texts(extra.items@),
                            texts(out@) == names + added.take(j as int),
                        decreases added.len() - j,
                    {
                        let name = extra.items[j].clone();
                        proof {
                            lemma_texts_push(out@, name);
                        }
                        out.push(name);
                        assert(texts(out@) =~= names + added.take(j + 1));
                        j += 1;
                    }
                    proof {
                        assert(added.take(added.len() as int) =~= added);
                    }
                },
                None => {
                    assert(texts(out@) =~= names + action_tags(dec@));
                },
            }
        },
        None => {
            assert(texts(out@) =~= names + action_tags(dec@));
        },
    }
    assert(code == tagged_code(dec@, rcode));
    let ghost front = texts(out@);
    match code {
        Some(c) => {
            let status = joined("status:", decimal_string(c as u64).as_str());
            let class = joined("status-class:", decimal_string((c / 100) as u64).as_str());
            let class = joined(class.as_str(), "xx");
            proof {
                lemma_texts_push(out@, status);
                lemma_texts_push(out@.push(status), class);
            }
            out.push(status);
            out.push(class);
            assert(texts(out@) =~= front + status_tags(code));
        },
        None => {
            assert(texts(out@) =~= front + status_tags(code));
        },
    }
    out
}

/// Works out the audit record of an evaluation.
///
/// The record holds the reasons of the decision by rule engine, with their counts; the
/// description of the first final reason where the decision is final; the branch tag;
/// the tags of the request and of the action, with the status of the response unless the
/// decision only monitors; and the id of the request.
pub fn jsonlog_rinfo<'a>(
    dec: &Decision,
    rinfo: &'a RequestInfo,
    rcode: Option<u32>,
    tags: &Tags,
    stats: &'a Stats,
    logs: &'a Logs,
    proxy: &'a StrMap<String>,
    now: &Timestamp,
) -> (r: LogRecord<'a>)
    ensures
        r@ == audit_record(dec@, rinfo, rcode, tags, proxy, *now),
        r.rinfo == rinfo,
        r.stats == stats,
        r.logs == logs,
        r.proxy == proxy,
{
    let reason = if dec.is_final() {
        BlockReason::block_reason_desc(&dec.reasons)
    } else {
        None
    };
    let acl_triggers = BlockReason::regroup(&dec.reasons, InitiatorKind::Acl);
    let rl_triggers = BlockReason::regroup(&dec.reasons, InitiatorKind::RateLimit);
    let gf_triggers = BlockReason::regroup(&dec.reasons, InitiatorKind::GlobalFilter);
    let cf_triggers = BlockReason::regroup(&dec.reasons, InitiatorKind::ContentFilter);
    let cf_restrict_triggers = BlockReason::regroup(&dec.reasons, InitiatorKind::Restriction);
    let request_id = match proxy.get("request_id") {
        Some(id) => Some(id.clone()),
        None => match &rinfo.rinfo.meta.requestid {
            Some(id) => Some(id.clone()),
            None => None,
        },
    };
    let trigger_counters = TriggerCounters {
        acl: acl_triggers.len(),
        gf: gf_triggers.len(),
        rl: rl_triggers.len(),
        cf: cf_triggers.len(),
        cf_restrict: cf_restrict_triggers.len(),
    };
    LogRecord {
        timestamp: *now,
        rinfo,
        stats,
        logs,
        proxy,
        request_id,
        with_plugins: !rinfo.plugins.is_empty(),
        response_code: rcode,
        acl_triggers,
        rl_triggers,
        gf_triggers,
        cf_triggers,
        cf_restrict_triggers,
        trigger_counters,
        reason,
        branch: find_branch(tags),
        tags: collect_tags(dec, tags, rcode),
    }
}

/// The status code of the response: the one given, or else the one the proxy tells under
/// `status`, where that reads as a number.
pub open spec fn status_code(rcode: Option<u32>, proxy: &StrMap<String>) -> Option<u32> {
    match rcode {
        Some(c) => Some(c),
        None => if proxy@.contains_key("status"@) {
            parsed_u32(proxy@["status"@])
        } else {
            None
        },
    }
}

/// Works out the audit record of an evaluation, where there is a request to tell of.
///
/// The record is stamped with the time of the request, and `now` is used where there is
/// no request; the time used is given back.
pub fn jsonlog<'a>(
    dec: &Decision,
    mrinfo: Option<&'a RequestInfo>,
    rcode: Option<u32>,
    tags: &Tags,
    stats: &'a Stats,
    logs: &'a Logs,
    proxy: &'a StrMap<String>,
    now: Timestamp,
) -> (r: (Option<LogRecord<'a>>, Timestamp))
    ensures
        match mrinfo {
            Some(rinfo) => {
                &&& r.1 == rinfo.timestamp
                &&& r.0 matches Some(record)
                &&& record@ == audit_record(
                    dec@,
                    rinfo,
                    status_code(rcode, proxy),
                    tags,
                    proxy,
                    r.1,
                )
                &&& record.rinfo == rinfo
                &&& record.stats == stats
                &&& record.logs == logs
                &&& record.proxy == proxy
            },
            None => r.1 == now && r.0 is None,
        },
{
    let status_code = match rcode {
        Some(c) => Some(c),
        None => match proxy.get("status") {
            Some(text) => parse_u32(text.as_str()),
            None => None,
        },
    };
    match mrinfo {
        Some(rinfo) => {
            let stamp = rinfo.timestamp;
            (
                Some(jsonlog_rinfo(dec, rinfo, status_code, tags, stats, logs, proxy, &stamp)),
                stamp,
            )
        },
        None => (None, now),
    }
}

} // verus!
