//! Policy evaluation and decision merging for an inline HTTP request filter.
//!
//! Configuration is compiled once into matchers; each request is then tagged and matched
//! against the global filters, the resulting actions are resolved and merged into one
//! decision, and the outcome is described by an audit record.

pub mod audit;
pub mod collections;
pub mod globalfilter;
pub mod grasshopper;
pub mod interface;
pub mod json;
pub mod location;
pub mod logs;
pub mod netaddr;
pub mod pattern;
pub mod raw;
pub mod reasons;
pub mod request;
pub mod stats;
pub mod strings;
pub mod tagging;
pub mod tags;
pub mod templating;
pub mod waf;
