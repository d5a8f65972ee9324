//! The application's handler: it answers the queries of its own page that
//! begin with its prefix, with the rest of the request reversed.
use vstd::prelude::*;
use vstd::string::StringExecFns;
use crate::handler_registry::{
    Frame, HandlerResponse, HandlerResponseView, Inquiry, QueryHandler, QueryReply, QueryReplyView,
};
use crate::ids::{BrowserRef, ContextRef, QueryId};
use crate::text::{chars_of, contains, contains_seq, reversed_from, starts_with};

verus! {

/// The prefix of the requests that the application's handler answers.
pub const TEST_MESSAGE_PREFIX: &'static str = "ECHO:";

/// The application's handler.
#[derive(Debug)]
pub struct MessageHandler {
    startup_url: String,
    prefix: String,
}

impl MessageHandler {
    /// The URL that marks the frames whose queries the handler takes.
    pub closed spec fn startup_url_view(&self) -> Seq<char> {
        self.startup_url@
    }

    /// The prefix of the requests that the handler takes.
    pub closed spec fn prefix_view(&self) -> Seq<char> {
        self.prefix@
    }

    /// A handler for the frames of `startup_url` that answers the requests
    /// beginning with the application's prefix.
    pub fn new(startup_url: String) -> (r: MessageHandler)
        ensures
            r.startup_url_view() == startup_url@,
            r.prefix_view() == TEST_MESSAGE_PREFIX@,
    {
        MessageHandler { startup_url, prefix: String::from_str(TEST_MESSAGE_PREFIX) }
    }

    /// A handler for the frames of `startup_url` that answers the requests
    /// beginning with `prefix`.
    pub fn with_prefix(startup_url: String, prefix: String) -> (r: MessageHandler)
        ensures
            r.startup_url_view() == startup_url@,
            r.prefix_view() == prefix@,
    {
        MessageHandler { startup_url, prefix }
    }

    /// The URL that marks the frames whose queries the handler takes.
    pub fn startup_url(&self) -> (r: &String)
        ensures
            r@ == self.startup_url_view(),
    {
        &self.startup_url
    }

    /// The prefix of the requests that the handler takes.
    pub fn prefix(&self) -> (r: &String)
        ensures
            r@ == self.prefix_view(),
    {
        &self.prefix
    }

    /// What the handler answers to `request` from a frame at `frame_url`: to a
    /// request that begins with the prefix and comes from a frame whose URL
    /// holds the startup URL, success with what follows the prefix, reversed;
    /// to anything else, nothing.
    pub open spec fn answer(&self, frame_url: Seq<char>, request: Seq<char>) -> Option<Seq<char>> {
        if contains_seq(frame_url, self.startup_url_view()) && self.prefix_view().is_prefix_of(
            request,
        ) {
            Some(request.skip(self.prefix_view().len() as int).reverse())
        } else {
            None
        }
    }
}

impl QueryHandler for MessageHandler {
    open spec fn response(&self, q: Inquiry) -> HandlerResponseView {
        match self.answer(q.frame.url, q.request) {
            Some(payload) => HandlerResponseView::Answered(
                QueryReplyView { success: true, payload, terminal: false },
            ),
            None => HandlerResponseView::Declined,
        }
    }

    /// Takes the queries that come from the startup page and begin with the
    /// prefix, and answers each at once; declines all others.
    fn on_query(
        &self,
        browser: BrowserRef,
        frame: &Frame,
        query_id: QueryId,
        request: &str,
        persistent: bool,
    ) -> (r: HandlerResponse) {
        let url = chars_of(frame.url.as_str());
        let wanted = chars_of(self.startup_url.as_str());
        if !contains(&url, &wanted) {
            return HandlerResponse::Declined;
        }
        let text = chars_of(request);
        let prefix = chars_of(self.prefix.as_str());
        if !starts_with(&text, &prefix) {
            return HandlerResponse::Declined;
        }
        let payload = reversed_from(&text, prefix.len());
        HandlerResponse::Answered(QueryReply { success: true, payload, terminal: false })
    }

    /// The handler answers at once and keeps nothing: there is nothing to
    /// undo.
    fn on_query_cancelled(&self, context: ContextRef, query_id: QueryId) {
    }
}

} // verus!
