//! The three messages that cross the process boundary, and their views.
use vstd::prelude::*;
use crate::ids::{ContextRef, QueryId};

verus! {

/// Asks the coordinator side to answer a request.
#[derive(Clone, Debug, PartialEq, Eq)]
pub struct QueryMessage {
    pub channel_name: String,
    pub frame_id: ContextRef,
    pub query_id: QueryId,
    pub request_payload: String,
    /// A persistent query may receive several replies.
    pub persistent: bool,
}

/// Carries one reply back to the side that asked.
#[derive(Clone, Debug, PartialEq, Eq)]
pub struct ReplyMessage {
    pub channel_name: String,
    pub query_id: QueryId,
    pub success: bool,
    pub response_payload: String,
    /// Whether this is the last reply to the query. Every reply to a query
    /// that is not persistent is its last.
    pub terminal: bool,
}

/// Withdraws a query.
#[derive(Clone, Debug, PartialEq, Eq)]
pub struct CancelMessage {
    pub channel_name: String,
    pub query_id: QueryId,
}

/// Any message of the router.
#[derive(Clone, Debug, PartialEq, Eq)]
pub enum WireMessage {
    Query(QueryMessage),
    Reply(ReplyMessage),
    Cancel(CancelMessage),
}

/// A query message, in contracts.
pub struct QueryMessageView {
    pub channel_name: Seq<char>,
    pub frame_id: ContextRef,
    pub query_id: QueryId,
    pub request_payload: Seq<char>,
    pub persistent: bool,
}

/// A reply message, in contracts.
pub struct ReplyMessageView {
    pub channel_name: Seq<char>,
    pub query_id: QueryId,
    pub success: bool,
    pub response_payload: Seq<char>,
    pub terminal: bool,
}

/// A cancel message, in contracts.
pub struct CancelMessageView {
    pub channel_name: Seq<char>,
    pub query_id: QueryId,
}

/// A message of the router, in contracts.
pub enum WireMessageView {
    Query(QueryMessageView),
    Reply(ReplyMessageView),
    Cancel(CancelMessageView),
}

impl View for QueryMessage {
    type V = QueryMessageView;

    open spec fn view(&self) -> QueryMessageView {
        QueryMessageView {
            channel_name: self.channel_name@,
            frame_id: self.frame_id,
            query_id: self.query_id,
            request_payload: self.request_payload@,
            persistent: self.persistent,
        }
    }
}

impl View for ReplyMessage {
    type V = ReplyMessageView;

    open spec fn view(&self) -> ReplyMessageView {
        ReplyMessageView {
            channel_name: self.channel_name@,
            query_id: self.query_id,
            success: self.success,
            response_payload: self.response_payload@,
            terminal: self.terminal,
        }
    }
}

impl View for CancelMessage {
    type V = CancelMessageView;

    open spec fn view(&self) -> CancelMessageView {
        CancelMessageView { channel_name: self.channel_name@, query_id: self.query_id }
    }
}

impl View for WireMessage {
    type V = WireMessageView;

    open spec fn view(&self) -> WireMessageView {
        match self {
            WireMessage::Query(m) => WireMessageView::Query(m@),
            WireMessage::Reply(m) => WireMessageView::Reply(m@),
            WireMessage::Cancel(m) => WireMessageView::Cancel(m@),
        }
    }
}

impl WireMessageView {
    /// The channel that the message names.
    pub open spec fn channel_name(self) -> Seq<char> {
        match self {
            WireMessageView::Query(m) => m.channel_name,
            WireMessageView::Reply(m) => m.channel_name,
            WireMessageView::Cancel(m) => m.channel_name,
        }
    }
}

impl WireMessage {
    /// The channel that the message names.
    pub fn channel_name(&self) -> (r: &String)
        ensures
            r@ == self@.channel_name(),
    {
        match self {
            WireMessage::Query(m) => &m.channel_name,
            WireMessage::Reply(m) => &m.channel_name,
            WireMessage::Cancel(m) => &m.channel_name,
        }
    }
}

} // verus!
