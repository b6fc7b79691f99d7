//! The narrow interface to the bot-challenge service.

use crate::interface::{default_action, Action, Decision, DecisionView};
use crate::logs::Logs;
use crate::reasons::{reasons_view, BlockReason, BlockReasonView};
use crate::request::RequestInfo;
use vstd::prelude::*;

verus! {

/// The granularity of a challenge.
#[derive(Debug, Clone, Copy, PartialEq, Eq, Structural)]
pub enum GHMode {
    Passive,
    Active,
    Interactive,
}

/// How confidently a request was classified as coming from a human.
#[derive(Debug, Clone, Copy, PartialEq, Eq, Structural)]
pub enum PrecisionLevel {
    Invalid,
    Passive,
    Active,
    Interactive,
    MobileSdk,
}

impl PrecisionLevel {
    /// Every level but `Invalid` carries the human signal.
    pub open spec fn spec_is_human(&self) -> bool {
        !(self is Invalid)
    }

    /// `Interactive` and `MobileSdk` carry the interactive signal.
    pub open spec fn spec_is_interactive(&self) -> bool {
        self is Interactive || self is MobileSdk
    }

    #[verifier::when_used_as_spec(spec_is_human)]
    pub fn is_human(&self) -> (b: bool)
        ensures
            b == self.spec_is_human(),
    {
        !matches!(self, PrecisionLevel::Invalid)
    }

    #[verifier::when_used_as_spec(spec_is_interactive)]
    pub fn is_interactive(&self) -> (b: bool)
        ensures
            b == self.spec_is_interactive(),
    {
        matches!(self, PrecisionLevel::Interactive | PrecisionLevel::MobileSdk)
    }
}

/// The capability to issue a challenge. What it answers is its own affair: this library
/// hands it the request, the reasons and the mode, and passes its decision on.
pub trait Grasshopper {
    /// Whether `answer` is a decision that this service may give when it is handed
    /// `rinfo`, `reasons` and `mode`. A service that says nothing of itself may give any.
    open spec fn may_answer(
        &self,
        rinfo: &RequestInfo,
        reasons: Seq<BlockReasonView>,
        mode: GHMode,
        answer: DecisionView,
    ) -> bool {
        true
    }

    fn challenge_phase01(
        &self,
        logs: &mut Logs,
        rinfo: &RequestInfo,
        reasons: Vec<BlockReason>,
        mode: GHMode,
    ) -> (answer: Decision)
        ensures
            self.may_answer(rinfo, reasons_view(reasons@), mode, answer@),
    ;
}

/// The service that issues no challenge: it answers with the default blocking action and
/// the reasons it was handed.
#[derive(Debug, Clone, Copy)]
pub struct DummyGrasshopper;

impl Grasshopper for DummyGrasshopper {
    open spec fn may_answer(
        &self,
        rinfo: &RequestInfo,
        reasons: Seq<BlockReasonView>,
        mode: GHMode,
        answer: DecisionView,
    ) -> bool {
        answer == (DecisionView { maction: Some(default_action()), reasons })
    }

    fn challenge_phase01(
        &self,
        logs: &mut Logs,
        rinfo: &RequestInfo,
        reasons: Vec<BlockReason>,
        mode: GHMode,
    ) -> (answer: Decision) {
        Decision::action(Action::default(), reasons)
    }
}

} // verus!
