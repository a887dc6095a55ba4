//! Local or remote: which store the commands act on.
//!
//! With no remote address the commands use the local database.  An address
//! selects remote mode, which also needs a token: a missing token is an
//! error, and remote mode never falls back to local.
use vstd::prelude::*;

use crate::paths::{opt_chars, present};
use crate::text::trim;
use crate::store::trim_text;

verus! {

/// The store that a command acts on.
pub enum Target {
    Local { database: String },
    Remote { address: String, token: String },
}

/// Why the settings do not give a usable target.
#[derive(Debug, Clone, Copy, PartialEq, Eq)]
pub enum ConfigError {
    /// `MEMOCAP_ADDR` is set and `MEMOCAP_TOKEN` is not.
    TokenRequired,
    /// A command that works on the local database alone ran in remote mode.
    LocalModeOnly,
    /// `serve` needs a token that is not blank.
    ServeTokenRequired,
    /// Operation status is asked of a remote server only.
    RemoteRequired,
}

/// The text of each configuration error.
pub open spec fn config_error_text(e: ConfigError) -> Seq<char> {
    match e {
        ConfigError::TokenRequired => "MEMOCAP_TOKEN is required when MEMOCAP_ADDR is set"@,
        ConfigError::LocalModeOnly => "scope commands are only available in local mode"@,
        ConfigError::ServeTokenRequired => "MEMOCAP_TOKEN is required to serve"@,
        ConfigError::RemoteRequired => "operation status requires a remote address"@,
    }
}

impl ConfigError {
    pub fn message(&self) -> (r: String)
        ensures
            r@ == config_error_text(*self),
    {
        match self {
            ConfigError::TokenRequired => "MEMOCAP_TOKEN is required when MEMOCAP_ADDR is set".to_owned(),
            ConfigError::LocalModeOnly => "scope commands are only available in local mode".to_owned(),
            ConfigError::ServeTokenRequired => "MEMOCAP_TOKEN is required to serve".to_owned(),
            ConfigError::RemoteRequired => "operation status requires a remote address".to_owned(),
        }
    }
}

pub fn is_present(value: &Option<String>) -> (r: bool)
    ensures
        r == present(opt_chars(*value)),
{
    match value {
        Some(v) => v.unicode_len() > 0,
        None => false,
    }
}

/// No address: the local database.  An address with a token: that remote.
/// An address without a token: an error.
pub fn resolve_target(address: Option<String>, token: Option<String>, database: String) -> (r: Result<Target, ConfigError>)
    ensures
        !present(opt_chars(address)) ==> (r matches Ok(Target::Local { database: d }) && d@ == database@),
        present(opt_chars(address)) && !present(opt_chars(token)) ==> r == Err::<Target, ConfigError>(ConfigError::TokenRequired),
        present(opt_chars(address)) && present(opt_chars(token)) ==> (r matches Ok(Target::Remote { address: a, token: t })
            && a@ == address->0@ && t@ == token->0@),
{
    if !is_present(&address) {
        return Ok(Target::Local { database });
    }
    if !is_present(&token) {
        return Err(ConfigError::TokenRequired);
    }
    match (address, token) {
        (Some(a), Some(t)) => Ok(Target::Remote { address: a, token: t }),
        _ => Err(ConfigError::TokenRequired),
    }
}

/// The address and token of a remote target; operation status has no local
/// form, so a local target is refused.
pub fn remote_target(target: Target) -> (r: Result<(String, String), ConfigError>)
    ensures
        target matches Target::Local { .. } ==> r == Err::<(String, String), ConfigError>(
            ConfigError::RemoteRequired,
        ),
        target matches Target::Remote { address, token } ==> (r matches Ok((a, t)) && a@ == address@
            && t@ == token@),
{
    match target {
        Target::Local { .. } => Err(ConfigError::RemoteRequired),
        Target::Remote { address, token } => Ok((address, token)),
    }
}

/// The token that `serve` checks requests against; one that is missing or
/// blank is refused.
pub fn require_serve_token(token: Option<String>) -> (r: Result<String, ConfigError>)
    ensures
        match token {
            Some(t) if trim(t@).len() > 0 => r matches Ok(s) && s@ == t@,
            _ => r == Err::<String, ConfigError>(ConfigError::ServeTokenRequired),
        },
{
    match token {
        Some(t) => {
            let trimmed = trim_text(t.as_str());
            if trimmed.unicode_len() > 0 {
                Ok(t)
            } else {
                Err(ConfigError::ServeTokenRequired)
            }
        },
        None => Err(ConfigError::ServeTokenRequired),
    }
}

} // verus!
