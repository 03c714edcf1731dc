//! The platform directories the `dirs` crate knows about. Each depends on the
//! user's environment, so nothing is promised of what comes back.
//!
//! The library holds paths as text. A directory whose name is not valid
//! UTF-8 comes back with each invalid sequence replaced by U+FFFD, as
//! `Path::to_string_lossy` writes it, so such a path is not the one the
//! platform named.
use vstd::prelude::*;

verus! {

/// `dirs::config_dir`, as text.
#[verifier::external_body]
pub(crate) fn config_dir() -> (r: Option<String>) {
    dirs::config_dir().map(|dir| dir.to_string_lossy().into_owned())
}

/// `dirs::home_dir`, as text.
#[verifier::external_body]
pub(crate) fn home_dir() -> (r: Option<String>) {
    dirs::home_dir().map(|dir| dir.to_string_lossy().into_owned())
}

/// `dirs::runtime_dir`, as text.
#[verifier::external_body]
pub(crate) fn runtime_dir() -> (r: Option<String>) {
    dirs::runtime_dir().map(|dir| dir.to_string_lossy().into_owned())
}

/// `dirs::data_dir`, as text.
#[verifier::external_body]
pub(crate) fn data_dir() -> (r: Option<String>) {
    dirs::data_dir().map(|dir| dir.to_string_lossy().into_owned())
}

} // verus!
