use vstd::prelude::*;

pub mod pathname;
pub mod seqs;
pub mod text;
pub mod adapter;
pub mod breakpoint;
pub mod cli;
pub mod commands;
pub mod config;
pub mod diagnostics;
pub mod discovery;
pub mod debuggee;
pub mod errors;
pub mod handlers;
pub mod handshake;
pub mod exit;
mod dirs_env;
pub mod inspect;
pub mod launch;
pub mod launch_args;
pub mod launch_json;
pub mod launches;
pub mod paths;
pub mod pump;
pub mod report;
pub mod selector;
pub mod session;
pub mod spawn;
pub mod stripped;
pub mod translate;
pub mod watch;

verus! {

} // verus!
