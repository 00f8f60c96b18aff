//! A mock mail-transfer server core: a fixed command table, a catalog of
//! reply lines, and the per-connection state machine that decides, line by
//! line, what to answer and what to store as message body.
use vstd::prelude::*;

pub mod responses;
pub mod text;
pub mod commands;
pub mod session;
pub mod naming;

verus! {

} // verus!
