//! The audit evidence that rule engines leave behind.

use crate::location::{Location, LocationView};
use crate::raw::RawActionType;
use crate::strings::joined;
use vstd::prelude::*;

verus! {

/// The rule engine that produced a reason.
#[derive(Debug, Clone, Copy, PartialEq, Eq, Structural)]
pub enum InitiatorKind {
    Acl,
    RateLimit,
    GlobalFilter,
    ContentFilter,
    Restriction,
}

/// The rule engine that produced a reason, with what it measured.
#[derive(Debug, Clone, Copy, PartialEq, Eq, Structural)]
pub enum Initiator {
    GlobalFilter,
    Acl,
    ContentFilter { risk_level: u8 },
    Limit { threshold: u64 },
    Restriction,
}

impl Initiator {
    pub open spec fn spec_to_kind(&self) -> InitiatorKind {
        match self {
            Initiator::GlobalFilter => InitiatorKind::GlobalFilter,
            Initiator::Acl => InitiatorKind::Acl,
            Initiator::ContentFilter { .. } => InitiatorKind::ContentFilter,
            Initiator::Limit { .. } => InitiatorKind::RateLimit,
            Initiator::Restriction => InitiatorKind::Restriction,
        }
    }

    #[verifier::when_used_as_spec(spec_to_kind)]
    pub fn to_kind(&self) -> (k: InitiatorKind)
        ensures
            k == self.spec_to_kind(),
    {
        match self {
            Initiator::GlobalFilter => InitiatorKind::GlobalFilter,
            Initiator::Acl => InitiatorKind::Acl,
            Initiator::ContentFilter { .. } => InitiatorKind::ContentFilter,
            Initiator::Limit { .. } => InitiatorKind::RateLimit,
            Initiator::Restriction => InitiatorKind::Restriction,
        }
    }
}

impl InitiatorKind {
    /// How the kind is written in a description.
    pub open spec fn spec_label(&self) -> Seq<char> {
        match self {
            InitiatorKind::Acl => "acl"@,
            InitiatorKind::RateLimit => "rate limit"@,
            InitiatorKind::GlobalFilter => "global filter"@,
            InitiatorKind::ContentFilter => "content filter"@,
            InitiatorKind::Restriction => "restriction"@,
        }
    }

    pub fn label(&self) -> (s: &'static str)
        ensures
            s@ == self.spec_label(),
    {
        match self {
            InitiatorKind::Acl => "acl",
            InitiatorKind::RateLimit => "rate limit",
            InitiatorKind::GlobalFilter => "global filter",
            InitiatorKind::ContentFilter => "content filter",
            InitiatorKind::Restriction => "restriction",
        }
    }
}

/// One piece of audit evidence: which rule, of which engine, triggered where, and how
/// severe the engine judged it.
#[derive(Debug)]
pub struct BlockReason {
    pub id: String,
    pub name: String,
    pub initiator: Initiator,
    pub location: Location,
    pub extra_locations: Vec<Location>,
    pub action: RawActionType,
    /// Further data for the audit record, as JSON text. Carried, never read.
    pub extra: Option<String>,
}

/// What a [`BlockReason`] says.
pub struct BlockReasonView {
    pub id: Seq<char>,
    pub name: Seq<char>,
    pub initiator: Initiator,
    pub location: LocationView,
    pub extra_locations: Seq<LocationView>,
    pub action: RawActionType,
    pub extra: Option<Seq<char>>,
}

/// What a list of locations says.
pub open spec fn locations_view(s: Seq<Location>) -> Seq<LocationView> {
    Seq::new(s.len(), |i: int| s[i]@)
}

/// What a list of reasons says.
pub open spec fn reasons_view(s: Seq<BlockReason>) -> Seq<BlockReasonView> {
    Seq::new(s.len(), |i: int| s[i]@)
}

impl View for BlockReason {
    type V = BlockReasonView;

    open spec fn view(&self) -> BlockReasonView {
        BlockReasonView {
            id: self.id@,
            name: self.name@,
            initiator: self.initiator,
            location: self.location@,
            extra_locations: locations_view(self.extra_locations@),
            action: self.action,
            extra: match self.extra {
                Some(e) => Some(e@),
                None => None,
            },
        }
    }
}

impl BlockReasonView {
    /// The description of a reason: the label of its engine, a colon and a space, the
    /// name of its rule.
    pub open spec fn description(&self) -> Seq<char> {
        self.initiator.spec_to_kind().spec_label() + ": "@ + self.name
    }
}

/// The reasons of `s` that the engine `kind` produced, in order.
pub open spec fn of_kind(s: Seq<BlockReasonView>, kind: InitiatorKind) -> Seq<BlockReasonView>
    decreases s.len(),
{
    if s.len() == 0 {
        Seq::empty()
    } else if s.last().initiator.spec_to_kind() == kind {
        of_kind(s.drop_last(), kind).push(s.last())
    } else {
        of_kind(s.drop_last(), kind)
    }
}

/// The description of the first reason of `s` whose class is final, if there is one.
pub open spec fn first_final_description(s: Seq<BlockReasonView>) -> Option<Seq<char>>
    decreases s.len(),
{
    if s.len() == 0 {
        None
    } else if s.first().action.spec_is_final() {
        Some(s.first().description())
    } else {
        first_final_description(s.drop_first())
    }
}

fn clone_locations(v: &Vec<Location>) -> (r: Vec<Location>)
    ensures
        locations_view(r@) == locations_view(v@),
{
    let mut r: Vec<Location> = Vec::new();
    let mut i: usize = 0;
    while i < v.len()
        invariant
            i <= v@.len(),
            r@.len() == i,
            forall|j: int| 0 <= j < i ==> (#[trigger] r@[j])@ == v@[j]@,
        decreases v@.len() - i,
    {
        r.push(v[i].clone());
        i += 1;
    }
    assert(locations_view(r@) =~= locations_view(v@));
    r
}

impl Clone for BlockReason {
    fn clone(&self) -> (r: Self)
        ensures
            r@ == self@,
    {
        BlockReason {
            id: self.id.clone(),
            name: self.name.clone(),
            initiator: self.initiator,
            location: self.location.clone(),
            extra_locations: clone_locations(&self.extra_locations),
            action: self.action,
            extra: match &self.extra {
                Some(e) => Some(e.clone()),
                None => None,
            },
        }
    }
}

/// A copy of a list of reasons.
pub fn clone_reasons(v: &Vec<BlockReason>) -> (r: Vec<BlockReason>)
    ensures
        reasons_view(r@) == reasons_view(v@),
{
    let mut r: Vec<BlockReason> = Vec::new();
    let mut i: usize = 0;
    while i < v.len()
        invariant
            i <= v@.len(),
            r@.len() == i,
            forall|j: int| 0 <= j < i ==> (#[trigger] r@[j])@ == v@[j]@,
        decreases v@.len() - i,
    {
        r.push(v[i].clone());
        i += 1;
    }
    assert(reasons_view(r@) =~= reasons_view(v@));
    r
}

impl BlockReason {
    /// The reason that a global filter section leaves: it points at the request as a
    /// whole and is classed `Custom`.
    pub fn global_filter(id: String, name: String) -> (r: Self)
        ensures
            r@ == (BlockReasonView {
                id: id@,
                name: name@,
                initiator: Initiator::GlobalFilter,
                location: LocationView::Request,
                extra_locations: Seq::empty(),
                action: RawActionType::Custom,
                extra: None,
            }),
    {
        let r = BlockReason {
            id,
            name,
            initiator: Initiator::GlobalFilter,
            location: Location::Request,
            extra_locations: Vec::new(),
            action: RawActionType::Custom,
            extra: None,
        };
        assert(r@.extra_locations =~= Seq::empty());
        r
    }

    /// The description of this reason.
    pub fn description(&self) -> (s: String)
        ensures
            s@ == self@.description(),
    {
        let head = joined(self.initiator.to_kind().label(), ": ");
        joined(head.as_str(), self.name.as_str())
    }

    /// The description of the first reason whose class is final, if there is one.
    pub fn block_reason_desc(reasons: &Vec<BlockReason>) -> (r: Option<String>)
        ensures
            match r {
                Some(s) => first_final_description(reasons_view(reasons@)) == Some(s@),
                None => first_final_description(reasons_view(reasons@)) is None,
            },
    {
        let ghost all = reasons_view(reasons@);
        let mut i: usize = 0;
        assert(all.skip(0) =~= all);
        while i < reasons.len()
            invariant
                i <= reasons@.len(),
                all == reasons_view(reasons@),
                first_final_description(all) == first_final_description(all.skip(i as int)),
            decreases reasons@.len() - i,
        {
            proof {
                assert(all.skip(i as int).first() == reasons@[i as int]@);
                assert(all.skip(i as int).drop_first() =~= all.skip(i + 1));
            }
            if reasons[i].action.is_final() {
                return Some(reasons[i].description());
            }
            i += 1;
        }
        proof {
            assert(all.skip(all.len() as int).len() == 0);
        }
        None
    }

    /// The reasons that the engine `kind` produced, in order.
    pub fn regroup(reasons: &Vec<BlockReason>, kind: InitiatorKind) -> (r: Vec<BlockReason>)
        ensures
            reasons_view(r@) == of_kind(reasons_view(reasons@), kind),
    {
        let ghost all = reasons_view(reasons@);
        let mut r: Vec<BlockReason> = Vec::new();
        let mut i: usize = 0;
        proof {
            assert(reasons_view(r@) =~= of_kind(all.take(0), kind));
        }
        while i < reasons.len()
            invariant
                i <= reasons@.len(),
                all == reasons_view(reasons@),
                reasons_view(r@) == of_kind(all.take(i as int), kind),
            decreases reasons@.len() - i,
        {
            proof {
                assert(all.take(i + 1).drop_last() =~= all.take(i as int));
                assert(all.take(i + 1).last() == reasons@[i as int]@);
            }
            if reasons[i].initiator.to_kind() == kind {
                let ghost before = reasons_view(r@);
                r.push(reasons[i].clone());
                assert(reasons_view(r@) =~= before.push(reasons@[i as int]@));
            }
            i += 1;
        }
        proof {
            assert(all.take(all.len() as int) =~= all);
        }
        r
    }
}

} // verus!
