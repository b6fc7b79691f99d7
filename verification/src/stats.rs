//! Counters gathered while a request moves through the stages of its evaluation.

use vstd::prelude::*;

verus! {

/// What the security policy of a request enables.
#[derive(Debug, Clone, Copy, PartialEq, Eq, Structural)]
pub struct SecpolStats {
    pub acl_enabled: bool,
    pub content_filter_enabled: bool,
    pub limit_amount: usize,
    pub globalfilters_amount: usize,
}

/// The stage at which the security policy is known.
#[derive(Debug, Clone, Copy, PartialEq, Eq, Structural)]
pub struct BStageSecpol {
    pub secpol: SecpolStats,
}

/// The stage at which the global filters have been evaluated.
#[derive(Debug, Clone, Copy, PartialEq, Eq, Structural)]
pub struct BStageMapped {
    pub secpol: SecpolStats,
    pub globalfilters_total: usize,
    pub globalfilters_active: usize,
}

/// The counters of one request at stage `A`.
#[derive(Debug)]
pub struct StatsCollect<A> {
    pub revision: String,
    pub stage: A,
}

impl StatsCollect<BStageSecpol> {
    /// Moves on to the next stage: `total` global filter sections were configured and
    /// `active` of them matched.
    pub fn mapped(self, total: usize, active: usize) -> (r: StatsCollect<BStageMapped>)
        ensures
            r.revision == self.revision,
            r.stage == (BStageMapped {
                secpol: self.stage.secpol,
                globalfilters_total: total,
                globalfilters_active: active,
            }),
    {
        StatsCollect {
            revision: self.revision,
            stage: BStageMapped {
                secpol: self.stage.secpol,
                globalfilters_total: total,
                globalfilters_active: active,
            },
        }
    }
}

/// The counters of a finished evaluation.
#[derive(Debug)]
pub struct Stats {
    pub revision: String,
    pub processing_stage: u32,
    pub secpol: SecpolStats,
    pub content_filter_total: usize,
    /// Time spent in each stage, in microseconds, by stage name.
    pub timing: Vec<(String, u64)>,
}

} // verus!
