//! `mcp`: where the local proxy forwards requests, and what it answers when
//! the upstream server cannot be reached.

use vstd::prelude::*;
use crate::text::{concat2, strip_suffix_all, trim_end_matches};

verus! {

/// The arguments of `mcp`.
#[derive(Debug)]
pub struct Args {
    /// Local port to bind on.
    pub port: u16,
}

/// The upstream MCP endpoint of `host`.
pub fn upstream_url(host: &str) -> (r: String)
    ensures
        r@ == strip_suffix_all(host@, "/"@) + "/mcp"@,
{
    let base = trim_end_matches(host, "/");
    concat2(base.as_str(), "/mcp")
}

/// The body answered when the upstream server cannot be reached.
pub fn unreachable_body(detail: &str) -> (r: String)
    ensures
        r@ == "{\"error\":\"upstream_unreachable\",\"detail\":\""@ + detail@ + "\"}"@,
{
    let mut r = concat2("{\"error\":\"upstream_unreachable\",\"detail\":\"", detail);
    r.append("\"}");
    r
}

/// The status relayed for an upstream status code: the code itself when it
/// is a valid status (100 to 999), else 502 Bad Gateway.
pub fn relayed_status(code: u16) -> (r: u16)
    ensures
        r == if 100 <= code <= 999 { code } else { 502u16 },
{
    if 100 <= code && code <= 999 {
        code
    } else {
        502
    }
}

} // verus!
