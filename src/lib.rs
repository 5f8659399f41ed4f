//! Server-side RPC metrics: the decisions behind started / handled / duration /
//! in-flight instrumentation of remote-procedure calls, with their contracts.

pub mod call;
pub mod ledger;
pub mod status;
pub mod target;
