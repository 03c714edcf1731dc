//! Exit codes. Agents branch on these, so they are part of the product
//! surface.
use vstd::prelude::*;

verus! {

pub const GENERAL: u8 = 1;

pub const USAGE: u8 = 2;

pub const DAEMON_UNREACHABLE: u8 = 3;

pub const ADAPTER_NOT_FOUND: u8 = 4;

} // verus!
