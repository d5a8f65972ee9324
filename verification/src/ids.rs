//! The identifiers that queries, contexts, browser instances and handlers are
//! known by.
use vstd::prelude::*;

verus! {

/// Identifies a query within the context that issued it. Ids count up from 1.
pub type QueryId = u64;

/// Identifies the script context of one frame. A query id means something only
/// together with the context that issued it.
pub type ContextRef = u64;

/// Identifies one browser instance.
pub type BrowserRef = u64;

/// The token handed out when a handler is registered. Its owner presents it
/// again to deregister the handler.
#[derive(Clone, Copy, Debug, PartialEq, Eq, Hash, Structural)]
pub struct HandlerId {
    pub token: u64,
}

} // verus!
