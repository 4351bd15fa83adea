//! Configuration precedence: command-line overrides, then environment
//! variables, then the saved configuration file.
//!
//! Reading the environment and the file is the caller's part; [`resolve`]
//! receives what was found and decides.

use vstd::prelude::*;
use crate::text::{owned, strip_suffix_all, trim_end_matches};

verus! {

/// The environment variable that names the host.
pub const ENV_HOST: &'static str = "OPENMETADATA_HOST";

/// The environment variable that holds the JWT token.
pub const ENV_TOKEN: &'static str = "OPENMETADATA_JWT_TOKEN";

/// Host and token given on the command line.
#[derive(Debug, Clone)]
pub struct Overrides {
    pub host: Option<String>,
    pub token: Option<String>,
}

impl Default for Overrides {
    fn default() -> (r: Overrides)
        ensures
            r.host is None,
            r.token is None,
    {
        Overrides { host: None, token: None }
    }
}

/// Host and token as saved in the configuration file.
#[derive(Debug, Clone)]
pub struct OnDisk {
    pub host: Option<String>,
    pub token: Option<String>,
}

impl Default for OnDisk {
    fn default() -> (r: OnDisk)
        ensures
            r.host is None,
            r.token is None,
    {
        OnDisk { host: None, token: None }
    }
}

/// A complete configuration.
#[derive(Debug, Clone)]
pub struct Resolved {
    pub host: String,
    pub token: String,
}

/// A setting that no source provides.
#[derive(Debug, Clone, Copy, PartialEq, Eq)]
pub enum ConfigError {
    MissingHost,
    MissingToken,
}

/// The message for a missing host.
pub open spec fn missing_host_message() -> Seq<char> {
    "OPENMETADATA_HOST is not set. Pass --host, set the env var, or run `ometa configure`."@
}

/// The message for a missing token.
pub open spec fn missing_token_message() -> Seq<char> {
    "OPENMETADATA_JWT_TOKEN is not set. Pass --token, set the env var, or run `ometa configure`."@
}

impl ConfigError {
    /// The message shown to the user; it names the variable to set.
    pub fn message(&self) -> (r: String)
        ensures
            *self == ConfigError::MissingHost ==> r@ == missing_host_message(),
            *self == ConfigError::MissingToken ==> r@ == missing_token_message(),
    {
        match self {
            ConfigError::MissingHost => owned(
                "OPENMETADATA_HOST is not set. Pass --host, set the env var, or run `ometa configure`.",
            ),
            ConfigError::MissingToken => owned(
                "OPENMETADATA_JWT_TOKEN is not set. Pass --token, set the env var, or run `ometa configure`.",
            ),
        }
    }
}

/// The view of an optional string.
pub open spec fn opt_chars(o: Option<String>) -> Option<Seq<char>> {
    match o {
        Some(s) => Some(s@),
        None => None,
    }
}

/// The first of three sources that provides a value.
pub open spec fn first_of(
    a: Option<Seq<char>>,
    b: Option<Seq<char>>,
    c: Option<Seq<char>>,
) -> Option<Seq<char>> {
    if a is Some {
        a
    } else if b is Some {
        b
    } else {
        c
    }
}

/// The host chosen from the override, the environment and the file, without
/// trailing slashes; `None` when no source gives one or it is only slashes.
pub open spec fn host_choice(
    over: Option<Seq<char>>,
    env: Option<Seq<char>>,
    disk: Option<Seq<char>>,
) -> Option<Seq<char>> {
    match first_of(over, env, disk) {
        Some(h) => {
            let t = strip_suffix_all(h, "/"@);
            if t.len() > 0 {
                Some(t)
            } else {
                None
            }
        },
        None => None,
    }
}

/// The token chosen from the override, the environment and the file;
/// `None` when no source gives one or it is empty.
pub open spec fn token_choice(
    over: Option<Seq<char>>,
    env: Option<Seq<char>>,
    disk: Option<Seq<char>>,
) -> Option<Seq<char>> {
    match first_of(over, env, disk) {
        Some(t) => if t.len() > 0 {
            Some(t)
        } else {
            None
        },
        None => None,
    }
}

fn first_present(a: Option<String>, b: Option<String>, c: Option<String>) -> (r: Option<String>)
    ensures
        opt_chars(r) == first_of(opt_chars(a), opt_chars(b), opt_chars(c)),
{
    match a {
        Some(x) => Some(x),
        None => match b {
            Some(x) => Some(x),
            None => c,
        },
    }
}

/// The complete configuration: each setting comes from the command line if
/// given there, else from the environment, else from the file. The host loses
/// its trailing slashes; an empty value counts as missing, and the host is
/// checked first.
pub fn resolve(
    overrides: Overrides,
    env_host: Option<String>,
    env_token: Option<String>,
    disk: OnDisk,
) -> (r: Result<Resolved, ConfigError>)
    ensures
        ({
            let host = host_choice(
                opt_chars(overrides.host),
                opt_chars(env_host),
                opt_chars(disk.host),
            );
            let token = token_choice(
                opt_chars(overrides.token),
                opt_chars(env_token),
                opt_chars(disk.token),
            );
            match r {
                Ok(c) => host == Some(c.host@) && token == Some(c.token@),
                Err(e) => (e == ConfigError::MissingHost && host is None) || (e
                    == ConfigError::MissingToken && host is Some && token is None),
            }
        }),
{
    let host = match first_present(overrides.host, env_host, disk.host) {
        Some(h) => {
            let t = trim_end_matches(h.as_str(), "/");
            if t.unicode_len() > 0 {
                t
            } else {
                return Err(ConfigError::MissingHost);
            }
        },
        None => {
            return Err(ConfigError::MissingHost);
        },
    };
    let token = match first_present(overrides.token, env_token, disk.token) {
        Some(t) => {
            if t.as_str().unicode_len() > 0 {
                t
            } else {
                return Err(ConfigError::MissingToken);
            }
        },
        None => {
            return Err(ConfigError::MissingToken);
        },
    };
    Ok(Resolved { host, token })
}

/// A resolved host never ends with a slash and is never empty.
pub proof fn law_resolved_host_is_normalized(
    over: Option<Seq<char>>,
    env: Option<Seq<char>>,
    disk: Option<Seq<char>>,
)
    requires
        host_choice(over, env, disk) is Some,
    ensures
        ({
            let h = host_choice(over, env, disk)->0;
            h.len() > 0 && h.last() != '/'
        }),
{
    let h0 = first_of(over, env, disk)->0;
    lemma_strip_slashes_ends(h0);
}

proof fn lemma_strip_slashes_ends(s: Seq<char>)
    ensures
        strip_suffix_all(s, "/"@).len() > 0 ==> strip_suffix_all(s, "/"@).last() != '/',
    decreases s.len(),
{
    reveal_strlit("/");
    let t = strip_suffix_all(s, "/"@);
    if has_slash_suffix(s) {
        lemma_strip_slashes_ends(s.subrange(0, s.len() - 1));
    } else if s.len() > 0 && s.last() == '/' {
        assert(s.subrange(s.len() - 1, s.len() as int) =~= "/"@);
    }
}

spec fn has_slash_suffix(s: Seq<char>) -> bool {
    crate::text::has_suffix(s, "/"@)
}

/// A host given on the command line is used, without its trailing slashes,
/// whatever the environment and the file say (and is missing when it is only
/// slashes); without one the environment's host is used, and without both the
/// file's. Tokens are chosen the same way, unchanged.
pub proof fn law_choice_order(
    over: Option<Seq<char>>,
    env: Option<Seq<char>>,
    disk: Option<Seq<char>>,
)
    ensures
        over is Some ==> host_choice(over, env, disk) == slashless(over->0),
        over is None && env is Some ==> host_choice(over, env, disk) == slashless(env->0),
        over is None && env is None && disk is Some ==> host_choice(over, env, disk) == slashless(
            disk->0,
        ),
        over is None && env is None && disk is None ==> host_choice(over, env, disk) is None,
        over is Some ==> token_choice(over, env, disk) == non_empty(over->0),
        over is None && env is Some ==> token_choice(over, env, disk) == non_empty(env->0),
        over is None && env is None && disk is Some ==> token_choice(over, env, disk) == non_empty(
            disk->0,
        ),
        over is None && env is None && disk is None ==> token_choice(over, env, disk) is None,
{
}

/// `h` without trailing slashes, or nothing when only slashes remain.
pub open spec fn slashless(h: Seq<char>) -> Option<Seq<char>> {
    if strip_suffix_all(h, "/"@).len() > 0 {
        Some(strip_suffix_all(h, "/"@))
    } else {
        None
    }
}

/// `t` unless it is empty.
pub open spec fn non_empty(t: Seq<char>) -> Option<Seq<char>> {
    if t.len() > 0 {
        Some(t)
    } else {
        None
    }
}

/// The command line wins over the environment and the file; the environment
/// wins over the file.
pub proof fn law_override_precedence(
    over: Seq<char>,
    env: Option<Seq<char>>,
    disk: Option<Seq<char>>,
    env2: Seq<char>,
)
    ensures
        host_choice(Some(over), env, disk) == host_choice(Some(over), None, None),
        token_choice(Some(over), env, disk) == token_choice(Some(over), None, None),
        host_choice(None, Some(env2), disk) == host_choice(Some(env2), None, None),
        token_choice(None, Some(env2), disk) == token_choice(Some(env2), None, None),
{
}

} // verus!
