//! The router of the isolated renderer context: it issues query ids, keeps
//! the queries that await replies, and says which continuation each message
//! that comes in is for.
use vstd::prelude::*;
use crate::coordinator_router::MessageRouterConfig;
use crate::ids::{ContextRef, QueryId};
use crate::messages::{
    CancelMessage, CancelMessageView, QueryMessage, QueryMessageView, WireMessage, WireMessageView,
};
use crate::query_registry::{
    lemma_filter_all, lemma_selection_split, PendingQuery, QueryRegistry, RegistryState, Selection,
    Selector,
};

verus! {

/// The continuation to invoke in the context that asked, and what to invoke
/// it with.
#[derive(Clone, Debug, PartialEq, Eq)]
pub enum Delivery {
    /// The success continuation, with the response. The query is marked
    /// completed where this reply was its last.
    Success { query: PendingQuery, response: String },
    /// The failure continuation, with the reason.
    Failure { query: PendingQuery, reason: String },
    /// The cancellation continuation: the coordinator side withdrew the query.
    Cancelled(PendingQuery),
}

/// A delivery, in contracts.
pub enum DeliveryView {
    Success { query: PendingQuery, response: Seq<char> },
    Failure { query: PendingQuery, reason: Seq<char> },
    Cancelled(PendingQuery),
}

impl View for Delivery {
    type V = DeliveryView;

    open spec fn view(&self) -> DeliveryView {
        match self {
            Delivery::Success { query, response } => DeliveryView::Success {
                query: *query,
                response: response@,
            },
            Delivery::Failure { query, reason } => DeliveryView::Failure {
                query: *query,
                reason: reason@,
            },
            Delivery::Cancelled(q) => DeliveryView::Cancelled(*q),
        }
    }
}

/// What the router did with a message that came in.
#[derive(Clone, Debug, PartialEq, Eq)]
pub enum Inbound {
    /// The message names another channel, or is of a kind that this side does
    /// not take: it was not consumed, and nothing changed.
    NotMine,
    /// The message was consumed without effect: it is about a query that is
    /// not outstanding, so no continuation is invoked.
    Ignored,
    /// A continuation is to be invoked.
    Deliver(Delivery),
}

/// What the router did with a message, in contracts.
pub enum InboundView {
    NotMine,
    Ignored,
    Deliver(DeliveryView),
}

impl View for Inbound {
    type V = InboundView;

    open spec fn view(&self) -> InboundView {
        match self {
            Inbound::NotMine => InboundView::NotMine,
            Inbound::Ignored => InboundView::Ignored,
            Inbound::Deliver(d) => InboundView::Deliver(d@),
        }
    }
}

impl Inbound {
    /// Whether the message was this router's.
    pub fn consumed(&self) -> (r: bool)
        ensures
            r == !(self@ is NotMine),
    {
        match self {
            Inbound::NotMine => false,
            _ => true,
        }
    }
}

/// The model of the isolated-side router.
pub struct IsolatedState {
    pub channel_name: Seq<char>,
    pub queries: RegistryState,
}

impl IsolatedState {
    /// The router of a channel with no query.
    pub open spec fn init(channel_name: Seq<char>) -> IsolatedState {
        IsolatedState { channel_name, queries: RegistryState::empty() }
    }

    /// The table of queries is well-formed.
    pub open spec fn wf(self) -> bool {
        self.queries.wf()
    }

    /// The script of `context` asks: the next id of the context is issued,
    /// the query is kept, and a query message is to be sent.
    pub open spec fn query(self, context: ContextRef, request: Seq<char>, persistent: bool) -> (
        IsolatedState,
        QueryMessageView,
    ) {
        let (queries, id) = self.queries.allocate(context, persistent);
        (
            IsolatedState { queries, ..self },
            QueryMessageView {
                channel_name: self.channel_name,
                frame_id: context,
                query_id: id,
                request_payload: request,
                persistent,
            },
        )
    }

    /// The script withdraws its query `id`: the query is dropped and a cancel
    /// message is to be sent, unless the query is not outstanding.
    pub open spec fn cancel(self, context: ContextRef, id: QueryId) -> (
        IsolatedState,
        Option<CancelMessageView>,
    ) {
        match self.queries.cancel(context, id).1 {
            Some(_) => (
                IsolatedState { queries: self.queries.cancel(context, id).0, ..self },
                Some(CancelMessageView { channel_name: self.channel_name, query_id: id }),
            ),
            None => (self, None),
        }
    }

    /// A message comes in for the frame `context`.
    pub open spec fn receive(self, context: ContextRef, m: WireMessageView) -> (
        IsolatedState,
        InboundView,
    ) {
        if m.channel_name() != self.channel_name {
            (self, InboundView::NotMine)
        } else {
            match m {
                WireMessageView::Reply(r) => {
                    let (queries, found) = self.queries.complete(context, r.query_id, r.terminal);
                    match found {
                        Some(query) => (
                            IsolatedState { queries, ..self },
                            InboundView::Deliver(
                                if r.success {
                                    DeliveryView::Success { query, response: r.response_payload }
                                } else {
                                    DeliveryView::Failure { query, reason: r.response_payload }
                                },
                            ),
                        ),
                        None => (self, InboundView::Ignored),
                    }
                },
                WireMessageView::Cancel(c) => {
                    let (queries, found) = self.queries.cancel(context, c.query_id);
                    match found {
                        Some(query) => (
                            IsolatedState { queries, ..self },
                            InboundView::Deliver(DeliveryView::Cancelled(query)),
                        ),
                        None => (self, InboundView::Ignored),
                    }
                },
                WireMessageView::Query(_) => (self, InboundView::NotMine),
            }
        }
    }

    /// The coordinator process is gone: every query is cancelled.
    pub open spec fn peer_terminated(self) -> (IsolatedState, Seq<PendingQuery>) {
        (
            IsolatedState { queries: self.queries.cancel_selected(Selection::All).0, ..self },
            self.queries.cancel_selected(Selection::All).1,
        )
    }

    /// The context is gone: its queries are cancelled.
    pub open spec fn release(self, context: ContextRef) -> (IsolatedState, Seq<PendingQuery>) {
        (
            IsolatedState { queries: self.queries.cancel_all(context).0, ..self },
            self.queries.cancel_all(context).1,
        )
    }
}

/// The router of the isolated renderer context.
pub struct IsolatedSideRouter {
    channel_name: String,
    queries: QueryRegistry,
}

impl View for IsolatedSideRouter {
    type V = IsolatedState;

    closed spec fn view(&self) -> IsolatedState {
        IsolatedState { channel_name: self.channel_name@, queries: self.queries@ }
    }
}

impl IsolatedSideRouter {
    /// The router's invariant: that of its model.
    pub open spec fn wf(&self) -> bool {
        self@.wf()
    }

    /// A router for the channel that `config` names, with no query.
    pub fn new(config: MessageRouterConfig) -> (r: IsolatedSideRouter)
        ensures
            r.wf(),
            r@ == IsolatedState::init(config.channel_name@),
    {
        IsolatedSideRouter { channel_name: config.channel_name, queries: QueryRegistry::new() }
    }

    /// The name of the router's channel.
    pub fn channel_name(&self) -> (r: &String)
        ensures
            r@ == self@.channel_name,
    {
        &self.channel_name
    }

    /// How many queries await a reply.
    pub fn pending_count(&self) -> (r: usize)
        ensures
            r == self@.queries.pending.len(),
    {
        self.queries.len()
    }

    /// Whether the query `id` of `context` awaits a reply.
    pub fn is_pending(&self, context: ContextRef, id: QueryId) -> (r: bool)
        requires
            self.wf(),
        ensures
            r == self@.queries.holds(context, id),
    {
        self.queries.is_pending(context, id)
    }

    /// Whether `context` can ask another query: whether an id is left for it.
    pub fn can_query(&self, context: ContextRef) -> (r: bool)
        ensures
            r == (self@.queries.last_issued(context) < u64::MAX),
    {
        self.queries.can_allocate(context)
    }

    /// The entry point that the script of `context` calls. Issues the next id
    /// of the context, keeps the query as outstanding, and gives the query
    /// message to send. The message's `query_id` is the handle by which the
    /// caller cancels the query and by which replies find its continuations.
    pub fn query(&mut self, context: ContextRef, request: String, persistent: bool) -> (m:
        QueryMessage)
        requires
            old(self).wf(),
            old(self)@.queries.last_issued(context) < u64::MAX,
        ensures
            final(self).wf(),
            (final(self)@, m@) == old(self)@.query(context, request@, persistent),
            m.query_id == old(self)@.queries.last_issued(context) + 1,
    {
        let id = self.queries.allocate(context, persistent);
        QueryMessage {
            channel_name: self.channel_name.clone(),
            frame_id: context,
            query_id: id,
            request_payload: request,
            persistent,
        }
    }

    /// The caller withdraws its query `id`. The query is dropped without any
    /// continuation being invoked, and the cancel message to send is given.
    /// Where the query is not outstanding nothing changes and there is no
    /// message.
    pub fn cancel(&mut self, context: ContextRef, id: QueryId) -> (r: Option<CancelMessage>)
        requires
            old(self).wf(),
        ensures
            final(self).wf(),
            final(self)@ == old(self)@.cancel(context, id).0,
            match old(self)@.cancel(context, id).1 {
                Some(m) => r matches Some(message) && message@ == m,
                None => r is None,
            },
    {
        match self.queries.cancel(context, id) {
            Some(_) => Some(CancelMessage { channel_name: self.channel_name.clone(), query_id: id }),
            None => None,
        }
    }

    /// Takes a message that came in for the frame `context`.
    ///
    /// A reply to an outstanding query names the continuation to invoke, and
    /// takes the query out of the table unless the query is persistent and
    /// the reply is not terminal. A cancellation names the cancellation
    /// continuation and takes the query out. A message about a query that is
    /// not outstanding is ignored: no continuation is invoked a second time.
    pub fn on_process_message_received(&mut self, context: ContextRef, message: WireMessage) -> (r:
        Inbound)
        requires
            old(self).wf(),
        ensures
            final(self).wf(),
            (final(self)@, r@) == old(self)@.receive(context, message@),
    {
        if *message.channel_name() != self.channel_name {
            return Inbound::NotMine;
        }
        match message {
            WireMessage::Reply(m) => {
                match self.queries.complete(context, m.query_id, m.terminal) {
                    Some(query) => {
                        if m.success {
                            Inbound::Deliver(
                                Delivery::Success { query, response: m.response_payload },
                            )
                        } else {
                            Inbound::Deliver(Delivery::Failure { query, reason: m.response_payload })
                        }
                    },
                    None => Inbound::Ignored,
                }
            },
            WireMessage::Cancel(m) => {
                match self.queries.cancel(context, m.query_id) {
                    Some(query) => Inbound::Deliver(Delivery::Cancelled(query)),
                    None => Inbound::Ignored,
                }
            },
            WireMessage::Query(_) => Inbound::NotMine,
        }
    }

    /// The context is released: every query of it is taken out of the table
    /// and given back, oldest first, for its cancellation continuation to be
    /// invoked. None of that context stays behind.
    pub fn on_context_released(&mut self, context: ContextRef) -> (cancelled: Vec<PendingQuery>)
        requires
            old(self).wf(),
        ensures
            final(self).wf(),
            (final(self)@, cancelled@) == old(self)@.release(context),
            cancelled@ == old(self)@.queries.of_context(context),
            final(self)@.queries.of_context(context).len() == 0,
    {
        let cancelled = self.queries.cancel_all(context);
        proof {
            crate::registry_laws::law_complete_after_cancel_all_is_ignored(
                old(self)@.queries,
                context,
                0,
                true,
            );
        }
        cancelled
    }

    /// The coordinator process terminated: no reply will come any more. Every
    /// query is taken out of the table and given back, oldest first, for its
    /// cancellation continuation to be invoked; the table is empty afterwards.
    pub fn on_peer_terminated(&mut self) -> (cancelled: Vec<PendingQuery>)
        requires
            old(self).wf(),
        ensures
            final(self).wf(),
            (final(self)@, cancelled@) == old(self)@.peer_terminated(),
            cancelled@ == old(self)@.queries.pending,
            final(self)@.queries.pending.len() == 0,
    {
        let cancelled = self.queries.cancel_selected(&Selector::All);
        proof {
            let sel = Selection::All;
            let p = old(self)@.queries.pending;
            lemma_filter_all(p, |q: PendingQuery| sel.takes(q));
            lemma_selection_split(p, sel);
        }
        cancelled
    }
}

} // verus!
