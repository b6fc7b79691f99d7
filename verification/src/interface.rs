//! Actions and decisions: what a rule asks for, what a request gets, and how several
//! candidate decisions become one.

use crate::collections::{assoc, lemma_assoc_push, lemma_assoc_same, StrMap, StrSet};
use crate::grasshopper::{GHMode, Grasshopper, PrecisionLevel};
use crate::location::{Location, LocationSet, LocationView};
use crate::logs::Logs;
use crate::raw::{RawAction, RawActionType};
use crate::reasons::{clone_reasons, reasons_view, BlockReason, BlockReasonView, Initiator};
use crate::request::RequestInfo;
use crate::stats::Stats;
use crate::strings::{joined, str_eq, texts};
use crate::tags::{add_all, Tags};
use crate::templating::{render_template, rendered, RequestTemplate, TemplatePartView};
use vstd::prelude::*;
use vstd::std_specs::cmp::PartialEqSpecImpl;

verus! {

/// Header values by header name.
pub type HeadersView = Map<Seq<char>, Seq<char>>;

/// Header templates by header name.
pub type TemplatesView = Map<Seq<char>, Seq<TemplatePartView>>;

/// What a resolved action does to the request.
#[derive(Debug, Clone, Copy, PartialEq, Eq, Structural)]
pub enum ActionType {
    Skip,
    Monitor,
    Block,
}

impl ActionType {
    pub open spec fn spec_is_blocking(&self) -> bool {
        self is Block
    }

    pub open spec fn spec_is_final(&self) -> bool {
        !(self is Monitor)
    }

    /// The rank of the action when decisions are merged: skipping outranks blocking, and
    /// blocking outranks monitoring.
    pub open spec fn spec_priority(&self) -> u32 {
        match self {
            ActionType::Block => 8,
            ActionType::Monitor => 1,
            ActionType::Skip => 9,
        }
    }

    /// Is the action blocking (the request is not passed to the server)?
    #[verifier::when_used_as_spec(spec_is_blocking)]
    pub fn is_blocking(&self) -> (b: bool)
        ensures
            b == self.spec_is_blocking(),
    {
        matches!(self, ActionType::Block)
    }

    /// Is the action final (no further processing)?
    #[verifier::when_used_as_spec(spec_is_final)]
    pub fn is_final(&self) -> (b: bool)
        ensures
            b == self.spec_is_final(),
    {
        !matches!(self, ActionType::Monitor)
    }

    #[verifier::when_used_as_spec(spec_priority)]
    pub fn priority(&self) -> (p: u32)
        ensures
            p == self.spec_priority(),
    {
        match self {
            ActionType::Block => 8,
            ActionType::Monitor => 1,
            ActionType::Skip => 9,
        }
    }
}

/// An action bound to one request, as the transport layer is to carry it out.
#[derive(Debug)]
pub struct Action {
    pub atype: ActionType,
    pub block_mode: bool,
    pub status: u32,
    pub headers: Option<StrMap<String>>,
    pub content: String,
    pub extra_tags: Option<StrSet>,
}

/// What an [`Action`] says.
pub struct ActionView {
    pub atype: ActionType,
    pub block_mode: bool,
    pub status: u32,
    pub headers: Option<HeadersView>,
    pub content: Seq<char>,
    pub extra_tags: Option<Seq<Seq<char>>>,
}

/// What an optional map says.
pub open spec fn opt_map<V: View>(o: Option<StrMap<V>>) -> Option<Map<Seq<char>, V::V>> {
    match o {
        Some(m) => Some(m@),
        None => None,
    }
}

/// The texts of an optional set, in the order they were added.
pub open spec fn opt_texts(o: Option<StrSet>) -> Option<Seq<Seq<char>>> {
    match o {
        Some(s) => Some(texts(s.items@)),
        None => None,
    }
}

impl View for Action {
    type V = ActionView;

    open spec fn view(&self) -> ActionView {
        ActionView {
            atype: self.atype,
            block_mode: self.block_mode,
            status: self.status,
            headers: opt_map(self.headers),
            content: self.content@,
            extra_tags: opt_texts(self.extra_tags),
        }
    }
}

/// The texts of an optional set.
pub open spec fn opt_set(o: Option<StrSet>) -> Option<Set<Seq<char>>> {
    match o {
        Some(s) => Some(s@),
        None => None,
    }
}

impl Clone for Action {
    fn clone(&self) -> (r: Self)
        ensures
            r@ == self@,
    {
        Action {
            atype: self.atype,
            block_mode: self.block_mode,
            status: self.status,
            headers: match &self.headers {
                Some(h) => Some(h.clone()),
                None => None,
            },
            content: self.content.clone(),
            extra_tags: match &self.extra_tags {
                Some(t) => Some(t.clone()),
                None => None,
            },
        }
    }
}

impl PartialEq for Action {
    fn eq(&self, other: &Action) -> (r: bool) {
        let headers = match (&self.headers, &other.headers) {
            (Some(a), Some(b)) => a.same(b),
            (None, None) => true,
            _ => false,
        };
        let extra_tags = match (&self.extra_tags, &other.extra_tags) {
            (Some(a), Some(b)) => a.same(b),
            (None, None) => true,
            _ => false,
        };
        self.atype == other.atype && self.block_mode == other.block_mode && self.status
            == other.status && headers && str_eq(self.content.as_str(), other.content.as_str())
            && extra_tags
    }
}

impl PartialEqSpecImpl for Action {
    open spec fn obeys_eq_spec() -> bool {
        true
    }

    /// Two actions are equal where they do the same, answer the same, set the same headers
    /// and carry the same tags, in whatever order the tags were added.
    open spec fn eq_spec(&self, other: &Action) -> bool {
        &&& self.atype == other.atype
        &&& self.block_mode == other.block_mode
        &&& self.status == other.status
        &&& opt_map(self.headers) == opt_map(other.headers)
        &&& self.content@ == other.content@
        &&& opt_set(self.extra_tags) == opt_set(other.extra_tags)
    }
}

impl Eq for Action {

}

/// The action taken where nothing else is configured: block with status 503.
pub open spec fn default_action() -> ActionView {
    ActionView {
        atype: ActionType::Block,
        block_mode: true,
        status: 503,
        headers: None,
        content: "request denied"@,
        extra_tags: None,
    }
}

impl Default for Action {
    fn default() -> (r: Self)
        ensures
            r@ == default_action(),
    {
        Action {
            atype: ActionType::Block,
            block_mode: true,
            status: 503,
            headers: None,
            content: "request denied".to_string(),
            extra_tags: None,
        }
    }
}

/// What a rule asks for.
#[derive(Debug)]
pub enum SimpleActionT {
    Skip,
    Monitor,
    Custom { content: String },
    Challenge { ch_level: GHMode },
}

/// What a [`SimpleActionT`] says.
pub enum SimpleActionTView {
    Skip,
    Monitor,
    Custom { content: Seq<char> },
    Challenge { ch_level: GHMode },
}

impl View for SimpleActionT {
    type V = SimpleActionTView;

    open spec fn view(&self) -> SimpleActionTView {
        match self {
            SimpleActionT::Skip => SimpleActionTView::Skip,
            SimpleActionT::Monitor => SimpleActionTView::Monitor,
            SimpleActionT::Custom { content } => SimpleActionTView::Custom { content: content@ },
            SimpleActionT::Challenge { ch_level } => SimpleActionTView::Challenge {
                ch_level: *ch_level,
            },
        }
    }
}

impl SimpleActionTView {
    /// The rank of the action when decisions are compared.
    pub open spec fn priority(&self) -> u32 {
        match self {
            SimpleActionTView::Custom { .. } => 8,
            SimpleActionTView::Challenge { .. } => 6,
            SimpleActionTView::Monitor => 1,
            SimpleActionTView::Skip => 9,
        }
    }

    /// The rank of the action among the decisions of rate limits, where skipping never
    /// wins.
    pub open spec fn rate_limit_priority(&self) -> u32 {
        match self {
            SimpleActionTView::Custom { .. } => 8,
            SimpleActionTView::Challenge { .. } => 6,
            SimpleActionTView::Monitor => 1,
            SimpleActionTView::Skip => 0,
        }
    }

    pub open spec fn is_blocking(&self) -> bool {
        !(self is Monitor)
    }

    /// The class under which the action is recorded.
    pub open spec fn to_raw(&self) -> RawActionType {
        match self {
            SimpleActionTView::Skip => RawActionType::Skip,
            SimpleActionTView::Monitor => RawActionType::Monitor,
            SimpleActionTView::Custom { .. } => RawActionType::Custom,
            SimpleActionTView::Challenge { ch_level } => if *ch_level == GHMode::Active {
                RawActionType::Challenge
            } else {
                RawActionType::Ichallenge
            },
        }
    }
}

impl SimpleActionT {
    pub fn priority(&self) -> (p: u32)
        ensures
            p == self@.priority(),
    {
        match self {
            SimpleActionT::Custom { content: _ } => 8,
            SimpleActionT::Challenge { ch_level: _ } => 6,
            SimpleActionT::Monitor => 1,
            SimpleActionT::Skip => 9,
        }
    }

    pub fn rate_limit_priority(&self) -> (p: u32)
        ensures
            p == self@.rate_limit_priority(),
    {
        match self {
            SimpleActionT::Custom { content: _ } => 8,
            SimpleActionT::Challenge { .. } => 6,
            SimpleActionT::Monitor => 1,
            SimpleActionT::Skip => 0,
        }
    }

    pub fn is_blocking(&self) -> (b: bool)
        ensures
            b == self@.is_blocking(),
    {
        !matches!(self, SimpleActionT::Monitor)
    }

    pub fn to_raw(&self) -> (r: RawActionType)
        ensures
            r == self@.to_raw(),
    {
        match self {
            SimpleActionT::Skip => RawActionType::Skip,
            SimpleActionT::Monitor => RawActionType::Monitor,
            SimpleActionT::Custom { .. } => RawActionType::Custom,
            SimpleActionT::Challenge { ch_level } => {
                if *ch_level == GHMode::Active {
                    RawActionType::Challenge
                } else {
                    RawActionType::Ichallenge
                }
            },
        }
    }
}

impl Clone for SimpleActionT {
    fn clone(&self) -> (r: Self)
        ensures
            r@ == self@,
    {
        match self {
            SimpleActionT::Skip => SimpleActionT::Skip,
            SimpleActionT::Monitor => SimpleActionT::Monitor,
            SimpleActionT::Custom { content } => SimpleActionT::Custom { content: content.clone() },
            SimpleActionT::Challenge { ch_level } => SimpleActionT::Challenge {
                ch_level: *ch_level,
            },
        }
    }
}

impl PartialEq for SimpleActionT {
    fn eq(&self, other: &SimpleActionT) -> (r: bool) {
        match (self, other) {
            (SimpleActionT::Skip, SimpleActionT::Skip) => true,
            (SimpleActionT::Monitor, SimpleActionT::Monitor) => true,
            (SimpleActionT::Custom { content: a }, SimpleActionT::Custom { content: b }) => str_eq(
                a.as_str(),
                b.as_str(),
            ),
            (
                SimpleActionT::Challenge { ch_level: a },
                SimpleActionT::Challenge { ch_level: b },
            ) => *a == *b,
            _ => false,
        }
    }
}

impl PartialEqSpecImpl for SimpleActionT {
    open spec fn obeys_eq_spec() -> bool {
        true
    }

    open spec fn eq_spec(&self, other: &SimpleActionT) -> bool {
        self@ == other@
    }
}

impl Eq for SimpleActionT {

}

impl Default for SimpleActionT {
    fn default() -> (r: Self)
        ensures
            r@ == (SimpleActionTView::Custom { content: "blocked"@ }),
    {
        SimpleActionT::Custom { content: "blocked".to_string() }
    }
}

/// A declared action with its meaning: what to do, which headers to add, which status to
/// answer with and which tags to set.
#[derive(Debug)]
pub struct SimpleAction {
    pub atype: SimpleActionT,
    pub headers: Option<StrMap<RequestTemplate>>,
    pub status: u32,
    pub extra_tags: Option<StrSet>,
}

/// What a [`SimpleAction`] says.
pub struct SimpleActionView {
    pub atype: SimpleActionTView,
    pub headers: Option<TemplatesView>,
    pub status: u32,
    pub extra_tags: Option<Seq<Seq<char>>>,
}

impl View for SimpleAction {
    type V = SimpleActionView;

    open spec fn view(&self) -> SimpleActionView {
        SimpleActionView {
            atype: self.atype@,
            headers: opt_map(self.headers),
            status: self.status,
            extra_tags: opt_texts(self.extra_tags),
        }
    }
}

impl PartialEq for SimpleAction {
    fn eq(&self, other: &SimpleAction) -> (r: bool) {
        let headers = match (&self.headers, &other.headers) {
            (Some(a), Some(b)) => {
                let eq = |x: &RequestTemplate, y: &RequestTemplate| -> (r: bool)
                    ensures
                        r == (x@ == y@),
                    { *x == *y };
                a.same_by(b, eq)
            },
            (None, None) => true,
            _ => false,
        };
        let extra_tags = match (&self.extra_tags, &other.extra_tags) {
            (Some(a), Some(b)) => a.same(b),
            (None, None) => true,
            _ => false,
        };
        self.atype == other.atype && headers && self.status == other.status && extra_tags
    }
}

impl PartialEqSpecImpl for SimpleAction {
    open spec fn obeys_eq_spec() -> bool {
        true
    }

    /// Two actions are equal where they ask for the same, set the same header templates
    /// and carry the same tags, in whatever order the tags were added.
    open spec fn eq_spec(&self, other: &SimpleAction) -> bool {
        &&& self.atype@ == other.atype@
        &&& opt_map(self.headers) == opt_map(other.headers)
        &&& self.status == other.status
        &&& opt_set(self.extra_tags) == opt_set(other.extra_tags)
    }
}

impl Eq for SimpleAction {

}

impl Default for SimpleAction {
    fn default() -> (r: Self)
        ensures
            r@ == (SimpleActionView {
                atype: SimpleActionTView::Custom { content: "blocked"@ },
                headers: None,
                status: 503,
                extra_tags: None,
            }),
    {
        SimpleAction {
            atype: SimpleActionT::default(),
            headers: None,
            status: 503,
            extra_tags: None,
        }
    }
}

fn clone_templates(m: &StrMap<RequestTemplate>) -> (r: StrMap<RequestTemplate>)
    ensures
        r@ == m@,
{
    let mut entries: Vec<(String, RequestTemplate)> = Vec::new();
    let mut i: usize = 0;
    while i < m.entries.len()
        invariant
            i <= m.entries@.len(),
            entries@.len() == i,
            forall|j: int|
                0 <= j < i ==> (#[trigger] entries@[j]).0@ == m.entries@[j].0@ && entries@[j].1@
                    == m.entries@[j].1@,
        decreases m.entries@.len() - i,
    {
        entries.push((m.entries[i].0.clone(), m.entries[i].1.clone()));
        i += 1;
    }
    proof {
        lemma_assoc_same(entries@, m.entries@);
    }
    StrMap { entries }
}

impl Clone for SimpleAction {
    fn clone(&self) -> (r: Self)
        ensures
            r@ == self@,
    {
        SimpleAction {
            atype: self.atype.clone(),
            headers: match &self.headers {
                Some(h) => Some(clone_templates(h)),
                None => None,
            },
            status: self.status,
            extra_tags: match &self.extra_tags {
                Some(t) => Some(t.clone()),
                None => None,
            },
        }
    }
}

/// The outcome of a rule engine before its action is bound to the request.
#[derive(Debug)]
pub enum SimpleDecision {
    Pass,
    Action(SimpleAction, Vec<BlockReason>),
}

impl Clone for SimpleDecision {
    fn clone(&self) -> (r: Self)
        ensures
            r@ == self@,
    {
        match self {
            SimpleDecision::Pass => SimpleDecision::Pass,
            SimpleDecision::Action(a, reasons) => SimpleDecision::Action(
                a.clone(),
                clone_reasons(reasons),
            ),
        }
    }
}

/// What a [`SimpleDecision`] says.
pub enum SimpleDecisionView {
    Pass,
    Action(SimpleActionView, Seq<BlockReasonView>),
}

impl View for SimpleDecision {
    type V = SimpleDecisionView;

    open spec fn view(&self) -> SimpleDecisionView {
        match self {
            SimpleDecision::Pass => SimpleDecisionView::Pass,
            SimpleDecision::Action(a, r) => SimpleDecisionView::Action(a@, reasons_view(r@)),
        }
    }
}

/// The decision for one request: the action to enforce, if any, and every reason that was
/// recorded on the way. No action means that the request passes.
#[derive(Debug)]
pub struct Decision {
    pub maction: Option<Action>,
    pub reasons: Vec<BlockReason>,
}

impl Clone for Decision {
    fn clone(&self) -> (r: Self)
        ensures
            r@ == self@,
    {
        Decision {
            maction: match &self.maction {
                Some(a) => Some(a.clone()),
                None => None,
            },
            reasons: clone_reasons(&self.reasons),
        }
    }
}

/// What a [`Decision`] says.
pub struct DecisionView {
    pub maction: Option<ActionView>,
    pub reasons: Seq<BlockReasonView>,
}

impl View for Decision {
    type V = DecisionView;

    open spec fn view(&self) -> DecisionView {
        DecisionView {
            maction: match self.maction {
                Some(a) => Some(a@),
                None => None,
            },
            reasons: reasons_view(self.reasons@),
        }
    }
}

impl DecisionView {
    /// The rank of the decision: that of its action, and zero without one.
    pub open spec fn priority(&self) -> u32 {
        match self.maction {
            Some(a) => a.atype.spec_priority(),
            None => 0,
        }
    }

    pub open spec fn is_blocking(&self) -> bool {
        match self.maction {
            Some(a) => a.atype.spec_is_blocking(),
            None => false,
        }
    }

    /// A decision is final where its action is, or where one of its reasons is.
    pub open spec fn is_final(&self) -> bool {
        (match self.maction {
            Some(a) => a.atype.spec_is_final(),
            None => false,
        }) || exists|i: int| 0 <= i < self.reasons.len() && (#[trigger] self.reasons[i]).action.spec_is_final()
    }
}

/// The result of an analysis: the decision with all that led to it.
#[derive(Debug)]
pub struct AnalyzeResult {
    pub decision: Decision,
    pub tags: Tags,
    pub rinfo: RequestInfo,
    pub stats: Stats,
}

/// The headers of a merged decision: those of the decision that is kept, and those of the
/// other under the names that the kept one does not use.
pub open spec fn merged_headers<T>(
    kept: Option<Map<Seq<char>, T>>,
    thrown: Option<Map<Seq<char>, T>>,
) -> Option<Map<Seq<char>, T>> {
    match (kept, thrown) {
        (Some(k), Some(t)) => Some(t.union_prefer_right(k)),
        (Some(k), None) => Some(k),
        (None, t) => t,
    }
}

/// The headers of the action of a decision, if it has an action and the action has headers.
pub open spec fn decision_headers(d: DecisionView) -> Option<HeadersView> {
    match d.maction {
        Some(a) => a.headers,
        None => None,
    }
}

/// `kept` with what `thrown` leaves behind: all its reasons, and its headers where `kept`
/// only monitors.
pub open spec fn absorbed(kept: DecisionView, thrown: DecisionView) -> DecisionView {
    DecisionView {
        maction: match kept.maction {
            Some(a) => if a.atype == ActionType::Monitor {
                Some(ActionView { headers: merged_headers(a.headers, decision_headers(thrown)), ..a })
            } else {
                Some(a)
            },
            None => None,
        },
        reasons: kept.reasons + thrown.reasons,
    }
}

/// The merge of two decisions: the one of higher rank is kept, the first on a tie, and it
/// absorbs the other.
pub open spec fn merged(d1: DecisionView, d2: DecisionView) -> DecisionView {
    if d1.priority() >= d2.priority() {
        absorbed(d1, d2)
    } else {
        absorbed(d2, d1)
    }
}

/// No reason is lost in a merge: the merged decision holds the reasons of the decision
/// that is kept, followed by those of the other, and so every reason of either.
pub proof fn lemma_merge_keeps_reasons(d1: DecisionView, d2: DecisionView)
    ensures
        merged(d1, d2).reasons == if d1.priority() >= d2.priority() {
            d1.reasons + d2.reasons
        } else {
            d2.reasons + d1.reasons
        },
        forall|r: BlockReasonView| #[trigger]
            d1.reasons.contains(r) ==> merged(d1, d2).reasons.contains(r),
        forall|r: BlockReasonView| #[trigger]
            d2.reasons.contains(r) ==> merged(d1, d2).reasons.contains(r),
{
    let m = merged(d1, d2).reasons;
    assert forall|r: BlockReasonView| #[trigger] d1.reasons.contains(r) implies m.contains(r) by {
        let i = choose|i: int| 0 <= i < d1.reasons.len() && d1.reasons[i] == r;
        if d1.priority() >= d2.priority() {
            assert(m[i] == r);
        } else {
            assert(m[d2.reasons.len() + i] == r);
        }
    }
    assert forall|r: BlockReasonView| #[trigger] d2.reasons.contains(r) implies m.contains(r) by {
        let i = choose|i: int| 0 <= i < d2.reasons.len() && d2.reasons[i] == r;
        if d1.priority() >= d2.priority() {
            assert(m[d1.reasons.len() + i] == r);
        } else {
            assert(m[i] == r);
        }
    }
}

/// Where two decisions differ in rank, the order in which they are merged does not
/// matter: the one of higher rank is kept either way.
pub proof fn lemma_merge_by_rank(d1: DecisionView, d2: DecisionView)
    requires
        d1.priority() != d2.priority(),
    ensures
        merged(d1, d2) == merged(d2, d1),
        merged(d1, d2) == if d1.priority() > d2.priority() {
            absorbed(d1, d2)
        } else {
            absorbed(d2, d1)
        },
{
}

/// Where two decisions are of one rank, the first is kept.
pub proof fn lemma_merge_tie(d1: DecisionView, d2: DecisionView)
    requires
        d1.priority() == d2.priority(),
    ensures
        merged(d1, d2) == absorbed(d1, d2),
        merged(d1, d2).maction is Some ==> d1.maction is Some && merged(d1, d2).maction->0.content
            == d1.maction->0.content,
{
}

fn merge_headers<V: View>(kept: Option<StrMap<V>>, thrown: Option<StrMap<V>>) -> (r: Option<
    StrMap<V>,
>)
    ensures
        opt_map(r) == merged_headers(opt_map(kept), opt_map(thrown)),
{
    match kept {
        Some(mut k) => {
            match thrown {
                Some(t) => {
                    k.absorb(t);
                    Some(k)
                },
                None => Some(k),
            }
        },
        None => thrown,
    }
}

/// Merges two decisions.
///
/// The decision whose action ranks higher is kept; on a tie, and where neither has an
/// action, the first. The reasons of the other are appended to those of the kept one.
/// Where the kept action only monitors, the headers of the other action are added under
/// the names that the kept action does not set itself.
pub fn merge_decisions(d1: Decision, d2: Decision) -> (r: Decision)
    ensures
        r@ == merged(d1@, d2@),
{
    let first = match (&d1.maction, &d2.maction) {
        (Some(a1), Some(a2)) => a1.atype.priority() >= a2.atype.priority(),
        (None, Some(_)) => false,
        _ => true,
    };
    let (kept, thrown) = if first {
        (d1, d2)
    } else {
        (d2, d1)
    };
    let Decision { maction: kept_action, reasons: mut reasons } = kept;
    let Decision { maction: thrown_action, reasons: mut thrown_reasons } = thrown;
    let ghost kept_reasons = reasons_view(reasons@);
    let maction = match kept_action {
        Some(action) => {
            if action.atype == ActionType::Monitor {
                let thrown_headers = match thrown_action {
                    Some(a) => a.headers,
                    None => None,
                };
                let Action { atype, block_mode, status, headers, content, extra_tags } = action;
                Some(
                    Action {
                        atype,
                        block_mode,
                        status,
                        headers: merge_headers(headers, thrown_headers),
                        content,
                        extra_tags,
                    },
                )
            } else {
                Some(action)
            }
        },
        None => None,
    };
    reasons.append(&mut thrown_reasons);
    let r = Decision { maction, reasons };
    assert(r@.reasons =~= kept_reasons + reasons_view(thrown.reasons@));
    r
}

/// The stronger of two decisions that are not yet bound to a request.
pub open spec fn stronger(d1: SimpleDecisionView, d2: SimpleDecisionView) -> SimpleDecisionView {
    match (d1, d2) {
        (SimpleDecisionView::Pass, _) => d2,
        (_, SimpleDecisionView::Pass) => d1,
        (SimpleDecisionView::Action(s1, r1), SimpleDecisionView::Action(s2, r2)) => {
            if s1.atype is Monitor && s2.atype is Monitor {
                SimpleDecisionView::Action(
                    SimpleActionView { headers: merged_headers(s1.headers, s2.headers), ..s1 },
                    r1 + r2,
                )
            } else if s1.atype.priority() >= s2.atype.priority() {
                SimpleDecisionView::Action(s1, r1 + r2)
            } else {
                SimpleDecisionView::Action(s2, r1 + r2)
            }
        },
    }
}

/// No reason is lost where two decisions are compared: the stronger one holds the reasons
/// of both, those of the first decision first.
pub proof fn lemma_stronger_keeps_reasons(
    s1: SimpleActionView,
    r1: Seq<BlockReasonView>,
    s2: SimpleActionView,
    r2: Seq<BlockReasonView>,
)
    ensures
        stronger(SimpleDecisionView::Action(s1, r1), SimpleDecisionView::Action(s2, r2))
            matches SimpleDecisionView::Action(_, reasons) && reasons == r1 + r2,
{
}

/// The stronger of two decisions that are not yet bound to a request.
///
/// A decision with an action beats one that passes. Of two actions the one of higher rank
/// is kept, the first on a tie; the reasons of both are kept, those of the first decision
/// first. Two monitoring actions are merged: the first is kept and gets the header
/// templates of the second under the names that it does not set itself.
pub fn stronger_decision(d1: SimpleDecision, d2: SimpleDecision) -> (r: SimpleDecision)
    ensures
        r@ == stronger(d1@, d2@),
{
    match (d1, d2) {
        (SimpleDecision::Pass, d2) => d2,
        (d1, SimpleDecision::Pass) => d1,
        (SimpleDecision::Action(s1, mut kept_reasons), SimpleDecision::Action(s2, mut br2)) => {
            let ghost r1 = reasons_view(kept_reasons@);
            let ghost r2 = reasons_view(br2@);
            kept_reasons.append(&mut br2);
            assert(reasons_view(kept_reasons@) =~= r1 + r2);
            if matches!(s1.atype, SimpleActionT::Monitor) && matches!(
                s2.atype,
                SimpleActionT::Monitor
            ) {
                let SimpleAction { atype, headers, status, extra_tags } = s1;
                SimpleDecision::Action(
                    SimpleAction {
                        atype,
                        headers: merge_headers(headers, s2.headers),
                        status,
                        extra_tags,
                    },
                    kept_reasons,
                )
            } else if s1.atype.priority() >= s2.atype.priority() {
                SimpleDecision::Action(s1, kept_reasons)
            } else {
                SimpleDecision::Action(s2, kept_reasons)
            }
        },
    }
}

impl Decision {
    /// The decision that passes the request on and records that a rule skipped it.
    pub fn skip(id: String, name: String, initiator: Initiator, location: Location) -> (r: Self)
        ensures
            r@ == (DecisionView {
                maction: None,
                reasons: seq![
                    BlockReasonView {
                        id: id@,
                        name: name@,
                        initiator,
                        location: location@,
                        extra_locations: Seq::empty(),
                        action: RawActionType::Skip,
                        extra: None,
                    },
                ],
            }),
    {
        let reason = BlockReason {
            id,
            name,
            initiator,
            location,
            action: RawActionType::Skip,
            extra_locations: Vec::new(),
            extra: None,
        };
        assert(reason@.extra_locations =~= Seq::empty());
        let mut reasons: Vec<BlockReason> = Vec::new();
        reasons.push(reason);
        let r = Decision { maction: None, reasons };
        assert(r@.reasons =~= seq![reason@]);
        r
    }

    pub fn pass(reasons: Vec<BlockReason>) -> (r: Self)
        ensures
            r@ == (DecisionView { maction: None, reasons: reasons_view(reasons@) }),
    {
        Decision { maction: None, reasons }
    }

    pub fn action(action: Action, reasons: Vec<BlockReason>) -> (r: Self)
        ensures
            r@ == (DecisionView { maction: Some(action@), reasons: reasons_view(reasons@) }),
    {
        Decision { maction: Some(action), reasons }
    }

    /// Is the action blocking (the request is not passed to the server)?
    pub fn is_blocking(&self) -> (b: bool)
        ensures
            b == self@.is_blocking(),
    {
        match &self.maction {
            Some(a) => a.atype.is_blocking(),
            None => false,
        }
    }

    /// Is the decision final (no further processing)?
    pub fn is_final(&self) -> (b: bool)
        ensures
            b == self@.is_final(),
    {
        let by_action = match &self.maction {
            Some(a) => a.atype.is_final(),
            None => false,
        };
        if by_action {
            return true;
        }
        let mut i: usize = 0;
        while i < self.reasons.len()
            invariant
                i <= self.reasons@.len(),
                !by_action,
                by_action == (match self@.maction {
                    Some(a) => a.atype.spec_is_final(),
                    None => false,
                }),
                forall|j: int| 0 <= j < i ==> !(#[trigger] self@.reasons[j]).action.spec_is_final(),
            decreases self.reasons@.len() - i,
        {
            if self.reasons[i].action.is_final() {
                assert(self@.reasons[i as int].action.spec_is_final());
                return true;
            }
            i += 1;
        }
        false
    }

    /// How the response to the request is named: `custom_response` where the decision
    /// blocks, `pass` otherwise.
    pub fn response_action(&self) -> (s: &'static str)
        ensures
            s@ == if self@.is_blocking() {
                "custom_response"@
            } else {
                "pass"@
            },
    {
        if self.is_blocking() {
            "custom_response"
        } else {
            "pass"
        }
    }
}

/// The texts of `s` without repetitions: each is kept where it occurs first.
pub open spec fn unique_texts(s: Seq<Seq<char>>) -> Seq<Seq<char>>
    decreases s.len(),
{
    if s.len() == 0 {
        Seq::empty()
    } else {
        let front = unique_texts(s.drop_last());
        if front.contains(s.last()) {
            front
        } else {
            front.push(s.last())
        }
    }
}

/// The action that a declaration stands for.
pub open spec fn resolved(raw: &RawAction) -> SimpleActionView {
    SimpleActionView {
        atype: match raw.type_ {
            RawActionType::Skip => SimpleActionTView::Skip,
            RawActionType::Monitor => SimpleActionTView::Monitor,
            RawActionType::Custom => SimpleActionTView::Custom {
                content: match raw.params.content {
                    Some(c) => c@,
                    None => "blocked"@,
                },
            },
            RawActionType::Challenge => SimpleActionTView::Challenge { ch_level: GHMode::Active },
            RawActionType::Ichallenge => SimpleActionTView::Challenge {
                ch_level: GHMode::Interactive,
            },
        },
        headers: opt_map(raw.params.headers),
        status: match raw.params.status {
            Some(s) => s,
            None => 503,
        },
        extra_tags: if raw.tags@.len() == 0 {
            None
        } else {
            Some(unique_texts(texts(raw.tags@)))
        },
    }
}

/// The actions that a list of declarations stands for, by id. Where two declarations
/// share an id, the later one counts.
pub open spec fn resolved_all(raws: Seq<RawAction>) -> Map<Seq<char>, SimpleActionView>
    decreases raws.len(),
{
    if raws.len() == 0 {
        Map::empty()
    } else {
        resolved_all(raws.drop_last()).insert(raws.last().id@, resolved(&raws.last()))
    }
}

/// What the headers of an action render to for one request.
pub open spec fn rendered_headers(rinfo: &RequestInfo, tags: &Tags, headers: Option<TemplatesView>) -> Option<
    HeadersView,
> {
    match headers {
        Some(h) => Some(h.map_values(|t: Seq<TemplatePartView>| rendered(rinfo, tags, t))),
        None => None,
    }
}

/// Whether a request classified at `precision` has already passed a challenge of `level`.
pub open spec fn challenge_passed(level: GHMode, precision: PrecisionLevel) -> bool {
    match level {
        GHMode::Passive => precision.spec_is_human(),
        GHMode::Active => precision.spec_is_human(),
        GHMode::Interactive => precision.spec_is_interactive(),
    }
}

/// The reasons of `s`, each one neutralised.
pub open spec fn inactive_reasons(s: Seq<BlockReasonView>) -> Seq<BlockReasonView> {
    Seq::new(s.len(), |i: int| BlockReasonView { action: RawActionType::Monitor, ..s[i] })
}

/// What an action becomes for one request: a decision, or, for a challenge that the
/// request has not passed yet, the reasons alone.
pub open spec fn built_decision(
    action: SimpleActionView,
    headers: Option<HeadersView>,
    precision: PrecisionLevel,
    reasons: Seq<BlockReasonView>,
) -> Result<DecisionView, Seq<BlockReasonView>> {
    match action.atype {
        SimpleActionTView::Skip => Ok(
            DecisionView {
                maction: Some(
                    ActionView {
                        atype: ActionType::Skip,
                        block_mode: true,
                        status: action.status,
                        headers,
                        content: "request denied"@,
                        extra_tags: None,
                    },
                ),
                reasons,
            },
        ),
        SimpleActionTView::Monitor => Ok(
            DecisionView {
                maction: Some(
                    ActionView {
                        atype: ActionType::Monitor,
                        block_mode: false,
                        status: 200,
                        headers,
                        content: "request denied"@,
                        extra_tags: None,
                    },
                ),
                reasons,
            },
        ),
        SimpleActionTView::Custom { content } => Ok(
            DecisionView {
                maction: Some(
                    ActionView {
                        atype: ActionType::Block,
                        block_mode: true,
                        status: action.status,
                        headers,
                        content,
                        extra_tags: None,
                    },
                ),
                reasons,
            },
        ),
        SimpleActionTView::Challenge { ch_level } => if challenge_passed(ch_level, precision) {
            Ok(
                DecisionView {
                    maction: Some(
                        ActionView {
                            atype: ActionType::Monitor,
                            block_mode: false,
                            status: 200,
                            headers,
                            content: "request denied"@,
                            extra_tags: None,
                        },
                    ),
                    reasons: inactive_reasons(reasons),
                },
            )
        } else {
            Err(reasons)
        },
    }
}

/// A custom action blocks, whatever the request: the decision answers with the content
/// and the status of the action and keeps the reasons as they are.
pub proof fn lemma_custom_action_blocks(
    action: SimpleActionView,
    headers: Option<HeadersView>,
    precision: PrecisionLevel,
    reasons: Seq<BlockReasonView>,
)
    requires
        action.atype is Custom,
    ensures
        ({
            &&& built_decision(action, headers, precision, reasons) matches Ok(d)
            &&& d.is_blocking()
            &&& d.is_final()
            &&& d.reasons == reasons
            &&& d.maction matches Some(a)
            &&& a.content == action.atype->content
            &&& a.status == action.status
            &&& a.block_mode
        }),
{
}

/// The mode in which a challenge for `action` is issued.
pub open spec fn challenge_mode(action: SimpleActionTView) -> GHMode {
    match action {
        SimpleActionTView::Challenge { ch_level } => ch_level,
        _ => GHMode::Active,
    }
}

fn render_headers(rinfo: &RequestInfo, tags: &Tags, templates: &StrMap<RequestTemplate>) -> (r:
    StrMap<String>)
    ensures
        r@ == templates@.map_values(|t: Seq<TemplatePartView>| rendered(rinfo, tags, t)),
{
    let ghost f = |t: Seq<TemplatePartView>| rendered(rinfo, tags, t);
    let ghost all = templates.entries@;
    let mut out: StrMap<String> = StrMap::new();
    let mut i: usize = 0;
    proof {
        assert(out@ =~= assoc(all.take(0)).map_values(f));
    }
    while i < templates.entries.len()
        invariant
            i <= all.len(),
            all == templates.entries@,
            f == |t: Seq<TemplatePartView>| rendered(rinfo, tags, t),
            out@ == assoc(all.take(i as int)).map_values(f),
        decreases all.len() - i,
    {
        let value = render_template(rinfo, tags, &templates.entries[i].1);
        let key = templates.entries[i].0.clone();
        proof {
            assert(all.take(i + 1) =~= all.take(i as int).push(all[i as int]));
            lemma_assoc_push(all.take(i as int), all[i as int]);
        }
        out.insert_absent(key, value);
        assert(out@ =~= assoc(all.take(i + 1)).map_values(f));
        i += 1;
    }
    proof {
        assert(all.take(all.len() as int) =~= all);
    }
    out
}

fn neutralise(reasons: Vec<BlockReason>) -> (r: Vec<BlockReason>)
    ensures
        reasons_view(r@) == inactive_reasons(reasons_view(reasons@)),
{
    let ghost all = reasons_view(reasons@);
    let mut out: Vec<BlockReason> = Vec::new();
    for reason in it: reasons.into_iter()
        invariant
            it.seq() == reasons@,
            all == reasons_view(reasons@),
            reasons_view(out@) == inactive_reasons(all.take(it.index() as int)),
    {
        let ghost i = it.index() as int;
        let ghost before = reasons_view(out@);
        let BlockReason { id, name, initiator, location, extra_locations, action, extra } = reason;
        let mut action = action;
        action.inactive();
        let neutral = BlockReason { id, name, initiator, location, extra_locations, action, extra };
        assert(neutral@ == (BlockReasonView { action: RawActionType::Monitor, ..reason@ }));
        out.push(neutral);
        assert(reasons_view(out@) =~= before.push(neutral@));
        assert(all.take(i + 1) =~= all.take(i).push(reason@));
        assert(reasons_view(out@) =~= inactive_reasons(all.take(i + 1)));
    }
    proof {
        assert(all.take(all.len() as int) =~= all);
    }
    out
}

impl SimpleAction {
    /// Resolves every declared action; the result holds each under its id.
    /// No declaration fails to resolve, so nothing is logged.
    pub fn resolve_actions(logs: &mut Logs, rawactions: Vec<RawAction>) -> (out: StrMap<
        SimpleAction,
    >)
        ensures
            out@ == resolved_all(rawactions@),
            final(logs)@ == old(logs)@,
    {
        let mut out: StrMap<SimpleAction> = StrMap::new();
        let mut i: usize = 0;
        while i < rawactions.len()
            invariant
                i <= rawactions@.len(),
                out@ == resolved_all(rawactions@.take(i as int)),
            decreases rawactions@.len() - i,
        {
            proof {
                assert(rawactions@.take(i + 1).drop_last() =~= rawactions@.take(i as int));
                assert(rawactions@.take(i + 1).last() == rawactions@[i as int]);
            }
            let (id, action) = Self::resolve(&rawactions[i]);
            out.insert(id, action);
            i += 1;
        }
        proof {
            assert(rawactions@.take(rawactions@.len() as int) =~= rawactions@);
        }
        out
    }

    /// Resolves one declared action: its id and what it stands for.
    ///
    /// A custom action without content answers `blocked`; without a status an action
    /// answers 503; an action without tags sets none.
    pub fn resolve(rawaction: &RawAction) -> (r: (String, SimpleAction))
        ensures
            r.0@ == rawaction.id@,
            r.1@ == resolved(rawaction),
    {
        let id = rawaction.id.clone();
        let atype = match rawaction.type_ {
            RawActionType::Skip => SimpleActionT::Skip,
            RawActionType::Monitor => SimpleActionT::Monitor,
            RawActionType::Custom => SimpleActionT::Custom {
                content: match &rawaction.params.content {
                    Some(c) => c.clone(),
                    None => "blocked".to_string(),
                },
            },
            RawActionType::Challenge => SimpleActionT::Challenge { ch_level: GHMode::Active },
            RawActionType::Ichallenge => SimpleActionT::Challenge { ch_level: GHMode::Interactive },
        };
        let status = match rawaction.params.status {
            Some(s) => s,
            None => 503,
        };
        let headers = match &rawaction.params.headers {
            Some(hm) => Some(clone_templates(hm)),
            None => None,
        };
        let extra_tags = if rawaction.tags.len() == 0 {
            None
        } else {
            let ghost all = texts(rawaction.tags@);
            let mut set = StrSet::new();
            let mut i: usize = 0;
            proof {
                assert(texts(set.items@) =~= unique_texts(all.take(0)));
            }
            while i < rawaction.tags.len()
                invariant
                    i <= rawaction.tags@.len(),
                    all == texts(rawaction.tags@),
                    texts(set.items@) == unique_texts(all.take(i as int)),
                decreases rawaction.tags@.len() - i,
            {
                let ghost before = set.items@;
                proof {
                    assert(all.take(i + 1).drop_last() =~= all.take(i as int));
                    assert(all.take(i + 1).last() == rawaction.tags@[i as int]@);
                    let k = rawaction.tags@[i as int]@;
                    if set@.contains(k) {
                        let j = choose|j: int|
                            0 <= j < set.items@.len() && (#[trigger] set.items@[j])@ == k;
                        assert(texts(set.items@)[j] == k);
                    }
                    if texts(set.items@).contains(k) {
                        let j = choose|j: int|
                            0 <= j < texts(set.items@).len() && texts(set.items@)[j] == k;
                        assert(set.items@[j]@ == k);
                    }
                }
                set.insert(rawaction.tags[i].clone());
                assert(texts(set.items@) =~= unique_texts(all.take(i + 1)));
                i += 1;
            }
            proof {
                assert(all.take(all.len() as int) =~= all);
            }
            Some(set)
        };
        (id, SimpleAction { atype, status, headers, extra_tags })
    }

    /// Binds the action to a request.
    ///
    /// Gives a decision, or, for a challenge that the request has not passed yet, the
    /// reasons back. A monitoring action, and a challenge that the request has passed,
    /// answer 200 and do not block; the reasons of a passed challenge are neutralised.
    pub fn build_decision(
        &self,
        rinfo: &RequestInfo,
        tags: &Tags,
        precision_level: PrecisionLevel,
        reason: Vec<BlockReason>,
    ) -> (r: Result<Decision, Vec<BlockReason>>)
        ensures
            match r {
                Ok(d) => built_decision(
                    self@,
                    rendered_headers(rinfo, tags, self@.headers),
                    precision_level,
                    reasons_view(reason@),
                ) == Ok::<DecisionView, Seq<BlockReasonView>>(d@),
                Err(e) => built_decision(
                    self@,
                    rendered_headers(rinfo, tags, self@.headers),
                    precision_level,
                    reasons_view(reason@),
                ) == Err::<DecisionView, Seq<BlockReasonView>>(reasons_view(e@)),
            },
    {
        let mut action = Action::default();
        let mut reason = reason;
        action.block_mode = action.atype.is_blocking();
        action.status = self.status;
        action.headers = match &self.headers {
            Some(hm) => Some(render_headers(rinfo, tags, hm)),
            None => None,
        };
        match &self.atype {
            SimpleActionT::Skip => action.atype = ActionType::Skip,
            SimpleActionT::Monitor => action.atype = ActionType::Monitor,
            SimpleActionT::Custom { content } => {
                action.atype = ActionType::Block;
                action.content = content.clone();
            },
            SimpleActionT::Challenge { ch_level } => {
                let is_human = match ch_level {
                    GHMode::Passive => precision_level.is_human(),
                    GHMode::Active => precision_level.is_human(),
                    GHMode::Interactive => precision_level.is_interactive(),
                };
                if !is_human {
                    return Err(reason);
                }
                action.atype = ActionType::Monitor;
                reason = neutralise(reason);
            },
        }
        if action.atype == ActionType::Monitor {
            action.status = 200;
            action.block_mode = false;
        }
        Ok(Decision::action(action, reason))
    }

    /// Resolves the action for one request.
    ///
    /// The tags that the action carries are set first, each justified by the request as a
    /// whole. A skipping action then gives the decision that passes with the reasons it
    /// was handed. Any other action is bound to the request; where that is a challenge
    /// which the request has not passed, the challenge service is asked in the mode of
    /// the action, and without such a service the default blocking action is taken.
    pub fn to_decision<GH: Grasshopper>(
        &self,
        logs: &mut Logs,
        precision_level: PrecisionLevel,
        mgh: Option<&GH>,
        rinfo: &RequestInfo,
        tags: &mut Tags,
        reason: Vec<BlockReason>,
    ) -> (r: Decision)
        ensures
            final(tags)@ == match self@.extra_tags {
                Some(names) => add_all(old(tags)@, names, set![LocationView::Request]),
                None => old(tags)@,
            },
            old(tags).wf() ==> final(tags).wf(),
            self@.atype is Skip ==> r@ == (DecisionView {
                maction: None,
                reasons: reasons_view(reason@),
            }) && final(logs)@ == old(logs)@,
            !(self@.atype is Skip) ==> match built_decision(
                self@,
                rendered_headers(rinfo, final(tags), self@.headers),
                precision_level,
                reasons_view(reason@),
            ) {
                Ok(d) => r@ == d && final(logs)@ == old(logs)@,
                Err(unresolved) => match mgh {
                    Some(gh) => gh.may_answer(rinfo, unresolved, challenge_mode(self@.atype), r@),
                    None => r@ == (DecisionView {
                        maction: Some(default_action()),
                        reasons: unresolved,
                    }) && final(logs)@ == old(logs)@,
                },
            },
    {
        match &self.extra_tags {
            Some(names) => {
                let mut whole = LocationSet::new();
                whole.insert(Location::Request);
                assert(whole@ =~= set![LocationView::Request]);
                tags.insert_all(&names.items, &whole);
            },
            None => {},
        }
        if matches!(self.atype, SimpleActionT::Skip) {
            return Decision { maction: None, reasons: reason };
        }
        match self.build_decision(rinfo, tags, precision_level, reason) {
            Err(nreason) => match mgh {
                Some(gh) => {
                    let ch_mode = match &self.atype {
                        SimpleActionT::Challenge { ch_level } => *ch_level,
                        _ => GHMode::Active,
                    };
                    let mode_text = match ch_mode {
                        GHMode::Passive => "Passive",
                        GHMode::Active => "Active",
                        GHMode::Interactive => "Interactive",
                    };
                    logs.debug(joined("Call challenge phase01 with mode: ", mode_text));
                    gh.challenge_phase01(logs, rinfo, nreason, ch_mode)
                },
                None => Decision::action(Action::default(), nreason),
            },
            Ok(a) => a,
        }
    }

    pub fn is_blocking(&self) -> (b: bool)
        ensures
            b == self@.atype.is_blocking(),
    {
        self.atype.is_blocking()
    }
}

} // verus!
