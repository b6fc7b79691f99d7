//! Declarative configuration, as the loader hands it over.

use crate::collections::StrMap;
use crate::templating::RequestTemplate;
use vstd::prelude::*;

verus! {

/// How the children of a filter node are combined.
#[derive(Debug, Clone, Copy, PartialEq, Eq, Structural)]
pub enum Relation {
    And,
    Or,
}

/// The severity class of an action, as configuration and audit records name it.
#[derive(Debug, Clone, Copy, PartialEq, Eq, Structural)]
pub enum RawActionType {
    Skip,
    Monitor,
    Custom,
    Challenge,
    Ichallenge,
}

impl RawActionType {
    /// Every class but `Monitor` ends the processing of a request.
    pub open spec fn spec_is_final(&self) -> bool {
        !(self is Monitor)
    }

    #[verifier::when_used_as_spec(spec_is_final)]
    pub fn is_final(&self) -> (b: bool)
        ensures
            b == self.spec_is_final(),
    {
        !matches!(self, RawActionType::Monitor)
    }

    /// Neutralises the class: what is left is recorded, not enforced.
    pub fn inactive(&mut self)
        ensures
            *final(self) == RawActionType::Monitor,
    {
        *self = RawActionType::Monitor;
    }
}

/// The optional settings of a declared action.
#[derive(Debug)]
pub struct RawActionParams {
    pub status: Option<u32>,
    pub headers: Option<StrMap<RequestTemplate>>,
    pub content: Option<String>,
}

/// A declared action.
#[derive(Debug)]
pub struct RawAction {
    pub id: String,
    pub type_: RawActionType,
    pub params: RawActionParams,
    pub tags: Vec<String>,
}

/// One matcher of a content-filter profile, before compilation.
#[derive(Debug)]
pub struct RawWafEntryMatch {
    pub key: String,
    pub reg: Option<String>,
    pub restrict: bool,
    pub mask: Option<bool>,
    pub exclusions: Vec<String>,
}

/// The matchers of one request field: by exact name, and by pattern on the name.
#[derive(Debug)]
pub struct RawWafProperties {
    pub names: Vec<RawWafEntryMatch>,
    pub regex: Vec<RawWafEntryMatch>,
}

/// A content-filter profile, before compilation.
#[derive(Debug)]
pub struct RawWafProfile {
    pub id: String,
    pub name: String,
    pub ignore_alphanum: bool,
    pub max_header_length: usize,
    pub max_cookie_length: usize,
    pub max_arg_length: usize,
    pub max_headers_count: usize,
    pub max_cookies_count: usize,
    pub max_args_count: usize,
    pub args: RawWafProperties,
    pub headers: RawWafProperties,
    pub cookies: RawWafProperties,
    pub path: RawWafProperties,
}

/// A signature: descriptive fields and the pattern (`operand`) that detects it.
#[derive(Debug)]
pub struct WafSignature {
    pub id: String,
    pub name: String,
    pub msg: String,
    pub operand: String,
    pub severity: u8,
    pub certainity: u8,
    pub category: String,
    pub subcategory: String,
}

} // verus!
