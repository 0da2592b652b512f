//! Synchronisation core of a collaborative editing session: presences, the
//! per-tick dispatcher, and the tick that drains queued events and client
//! messages in a fixed order and decides when an idle session ends.
use vstd::prelude::*;

pub mod dispatcher;
pub mod laws;
pub mod presence;
pub mod session;

verus! {

} // verus!
