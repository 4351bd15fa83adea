//! `configure`: the settings saved to the configuration file.

use vstd::prelude::*;
use crate::config::OnDisk;
use crate::text::{strip_suffix_all, trim_end_matches};

verus! {

/// The arguments of `configure`.
#[derive(Debug)]
pub struct Args {
    /// Set OPENMETADATA_HOST without prompting.
    pub host: Option<String>,
    /// Set OPENMETADATA_JWT_TOKEN without prompting.
    pub token: Option<String>,
}

/// The settings saved for `host` and `token`: the host loses its trailing
/// slashes, the token is kept as given.
pub fn settings_to_save(host: &str, token: String) -> (r: OnDisk)
    ensures
        r.host matches Some(h) && h@ == strip_suffix_all(host@, "/"@),
        r.token matches Some(t) && t@ == token@,
{
    OnDisk { host: Some(trim_end_matches(host, "/")), token: Some(token) }
}

} // verus!
