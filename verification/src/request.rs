//! The normalised snapshot of one request.

use crate::collections::StrMap;
use crate::netaddr::IpAddress;
use vstd::prelude::*;

verus! {

/// Named values of a request: headers, cookies, arguments, path parts.
pub type RequestField = StrMap<String>;

/// What is known of the place and network the request came from.
#[derive(Debug)]
pub struct GeoIp {
    pub ipstr: String,
    pub ip: Option<IpAddress>,
    /// Longitude and latitude, each as the bits of a 64-bit float. Carried, never read.
    pub location: Option<(u64, u64)>,
    pub city_name: Option<String>,
    pub country_iso: Option<String>,
    pub country_name: Option<String>,
    pub continent_name: Option<String>,
    pub continent_code: Option<String>,
    pub region: Option<String>,
    pub subregion: Option<String>,
    pub asn: Option<u32>,
    pub company: Option<String>,
    pub as_name: Option<String>,
    pub as_domain: Option<String>,
    pub as_type: Option<String>,
    pub company_country: Option<String>,
    pub company_domain: Option<String>,
    pub company_type: Option<String>,
    pub mobile_carrier_name: Option<String>,
    pub mobile_country: Option<String>,
    pub mobile_mcc: Option<String>,
    pub mobile_mnc: Option<String>,
}

/// The request line and what the proxy says of the request.
#[derive(Debug)]
pub struct RequestMeta {
    pub authority: Option<String>,
    pub method: String,
    pub path: String,
    pub requestid: Option<String>,
}

/// The path and query of the request, whole and in parts.
#[derive(Debug)]
pub struct QueryInfo {
    pub qpath: String,
    pub query: String,
    pub uri: String,
    pub args: RequestField,
    pub path_as_map: RequestField,
}

/// The security policy that applies to the request.
#[derive(Debug)]
pub struct SecurityPolicy {
    pub policy_id: String,
    pub entry_id: String,
}

#[derive(Debug)]
pub struct RInfo {
    pub meta: RequestMeta,
    pub geoip: GeoIp,
    pub qinfo: QueryInfo,
    pub host: String,
    pub secpolicy: SecurityPolicy,
    pub container_name: Option<String>,
}

/// The moment a request arrived: seconds since the Unix epoch, and nanoseconds within
/// that second.
#[derive(Debug, Clone, Copy, PartialEq, Eq, Structural)]
pub struct Timestamp {
    pub secs: i64,
    pub nanos: u32,
}

/// One request, as the evaluation sees it. Read-only.
#[derive(Debug)]
pub struct RequestInfo {
    pub timestamp: Timestamp,
    pub cookies: RequestField,
    pub headers: RequestField,
    pub rinfo: RInfo,
    pub session: String,
    pub session_ids: StrMap<String>,
    pub plugins: RequestField,
}

/// The text of an optional value.
pub open spec fn opt_text(o: Option<String>) -> Option<Seq<char>> {
    match o {
        Some(s) => Some(s@),
        None => None,
    }
}

} // verus!
