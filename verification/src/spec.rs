//! The request for the server's version document, the hook for generating
//! commands from the OpenAPI description of the catalog.

use vstd::prelude::*;
use crate::client::ApiRequest;
use crate::text::owned;

verus! {

/// The request behind `fetch_openapi`: `/api/v1/system/version`, no query.
pub fn openapi_request() -> (r: ApiRequest)
    ensures
        r.path@ == "/api/v1/system/version"@,
        r.query@.len() == 0,
{
    ApiRequest { path: owned("/api/v1/system/version"), query: Vec::new() }
}

} // verus!
