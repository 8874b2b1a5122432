//! Verified core of the Drover agentic terminal backend.
use vstd::prelude::*;

pub mod text;
pub mod num;
pub mod cert;
pub mod shell;
pub mod curl;
pub mod dns;
pub mod whois;
pub mod ports;
pub mod files;
pub mod json;
pub mod mcp;
pub mod diff;
pub mod ai;
pub mod ping;

verus! {

} // verus!
