//! The router of the coordinator process: it offers each query that comes in
//! to the handlers, keeps the claimed queries until their last reply, and
//! turns the handlers' replies into reply messages.
use vstd::prelude::*;
use crate::handler_registry::{
    Frame, FrameView, HandlerRegistry, HandlerResponse, HandlerResponseView, HandlerTable, Inquiry,
    QueryHandler, QueryReply, QueryReplyView,
};
use crate::ids::{BrowserRef, ContextRef, HandlerId, QueryId};
use crate::messages::{
    QueryMessage, QueryMessageView, ReplyMessage, ReplyMessageView, WireMessage, WireMessageView,
};
use crate::query_registry::{
    lemma_filter_all, lemma_filter_keeps_wf, lemma_filter_origin, PendingQuery, QueryRegistry,
    RegistryState, Selection, Selector,
};

verus! {

/// The channel name of a router made with the default configuration.
pub const DEFAULT_CHANNEL_NAME: &'static str = "cefQuery";

/// What a router is made with. The two sides of one channel are made with the
/// same channel name; messages that name another channel are not theirs.
#[derive(Clone, Debug, PartialEq, Eq)]
pub struct MessageRouterConfig {
    pub channel_name: String,
}

impl Default for MessageRouterConfig {
    fn default() -> (r: MessageRouterConfig)
        ensures
            r.channel_name@ == DEFAULT_CHANNEL_NAME@,
    {
        MessageRouterConfig { channel_name: DEFAULT_CHANNEL_NAME.to_owned() }
    }
}

/// What the router did with a message that came in.
#[derive(Clone, Debug, PartialEq, Eq)]
pub enum Routing {
    /// The message names another channel, or is of a kind that this side does
    /// not take: it was not consumed, and nothing changed.
    NotMine,
    /// The message was consumed without effect: a query whose frame is not the
    /// one it came from or whose id is outstanding already, or a cancellation
    /// of a query that is not outstanding.
    Ignored,
    /// The query was offered to every handler and none took it: it is dropped,
    /// and no reply will ever be sent.
    Unclaimed { asked: Vec<HandlerId> },
    /// A handler took the query and will reply later.
    Claimed { asked: Vec<HandlerId>, by: HandlerId },
    /// A handler took the query and replied at once: `reply` is to be sent.
    Answered { asked: Vec<HandlerId>, by: HandlerId, reply: ReplyMessage },
    /// The query was withdrawn by the side that asked: its handler was told,
    /// and no reply is sent.
    Cancelled(PendingQuery),
}

/// What the router did with a message, in contracts.
pub enum RoutingView {
    NotMine,
    Ignored,
    Unclaimed { asked: Seq<HandlerId> },
    Claimed { asked: Seq<HandlerId>, by: HandlerId },
    Answered { asked: Seq<HandlerId>, by: HandlerId, reply: ReplyMessageView },
    Cancelled(PendingQuery),
}

impl View for Routing {
    type V = RoutingView;

    open spec fn view(&self) -> RoutingView {
        match self {
            Routing::NotMine => RoutingView::NotMine,
            Routing::Ignored => RoutingView::Ignored,
            Routing::Unclaimed { asked } => RoutingView::Unclaimed { asked: asked@ },
            Routing::Claimed { asked, by } => RoutingView::Claimed { asked: asked@, by: *by },
            Routing::Answered { asked, by, reply } => RoutingView::Answered {
                asked: asked@,
                by: *by,
                reply: reply@,
            },
            Routing::Cancelled(q) => RoutingView::Cancelled(*q),
        }
    }
}

impl Routing {
    /// Whether the message was this router's, so that the caller need not
    /// hand it to anyone else.
    pub fn consumed(&self) -> (r: bool)
        ensures
            r == !(self@ is NotMine),
    {
        match self {
            Routing::NotMine => false,
            _ => true,
        }
    }
}

/// The model of the coordinator-side router.
pub struct CoordinatorState<H> {
    pub channel_name: Seq<char>,
    pub handlers: HandlerTable<H>,
    pub queries: RegistryState,
}

impl<H: QueryHandler> CoordinatorState<H> {
    /// The router of a channel with no handler and no query.
    pub open spec fn init(channel_name: Seq<char>) -> CoordinatorState<H> {
        CoordinatorState {
            channel_name,
            handlers: HandlerTable::<H>::empty(),
            queries: RegistryState::empty(),
        }
    }

    /// Both tables are well-formed, and every outstanding query was claimed by
    /// a handler that is still registered.
    pub open spec fn wf(self) -> bool {
        &&& self.handlers.wf()
        &&& self.queries.wf()
        &&& forall|i: int|
            0 <= i < self.queries.pending.len() ==> ((
            #[trigger] self.queries.pending[i]).handler matches Some(h) && self.handlers.has(h))
    }

    /// Where the query `id` of `context` stands, as far as the table shows.
    pub open spec fn is_claimed(self, context: ContextRef, id: QueryId) -> bool {
        self.queries.holds(context, id)
    }

    /// The reply message that carries `reply` to the query `id`.
    pub open spec fn reply_message(self, id: QueryId, reply: QueryReplyView, last: bool)
        -> ReplyMessageView {
        ReplyMessageView {
            channel_name: self.channel_name,
            query_id: id,
            success: reply.success,
            response_payload: reply.payload,
            terminal: last,
        }
    }

    /// A query message comes in from `frame` of `browser`.
    pub open spec fn receive_query(self, browser: BrowserRef, frame: FrameView, m: QueryMessageView)
        -> (CoordinatorState<H>, RoutingView) {
        if m.frame_id != frame.id || self.queries.holds(frame.id, m.query_id) {
            (self, RoutingView::Ignored)
        } else {
            let q = Inquiry {
                browser,
                frame,
                query_id: m.query_id,
                request: m.request_payload,
                persistent: m.persistent,
            };
            let asked = self.handlers.asked(q);
            match self.handlers.claimant(q) {
                None => (self, RoutingView::Unclaimed { asked }),
                Some(k) => {
                    let by = self.handlers.entries[k].id;
                    let recorded = CoordinatorState {
                        queries: self.queries.track(frame.id, m.query_id, m.persistent, by),
                        ..self
                    };
                    match self.handlers.entries[k].handler.response(q) {
                        HandlerResponseView::Answered(reply) => {
                            let last = !m.persistent || reply.terminal;
                            (
                                if last {
                                    self
                                } else {
                                    recorded
                                },
                                RoutingView::Answered {
                                    asked,
                                    by,
                                    reply: self.reply_message(m.query_id, reply, last),
                                },
                            )
                        },
                        _ => (recorded, RoutingView::Claimed { asked, by }),
                    }
                },
            }
        }
    }

    /// A cancel message for the query `id` comes in from the frame `context`.
    pub open spec fn receive_cancel(self, context: ContextRef, id: QueryId) -> (
        CoordinatorState<H>,
        RoutingView,
    ) {
        match self.queries.cancel(context, id).1 {
            Some(q) => (
                CoordinatorState { queries: self.queries.cancel(context, id).0, ..self },
                RoutingView::Cancelled(q),
            ),
            None => (self, RoutingView::Ignored),
        }
    }

    /// A message comes in from `frame` of `browser`.
    pub open spec fn receive(self, browser: BrowserRef, frame: FrameView, m: WireMessageView) -> (
        CoordinatorState<H>,
        RoutingView,
    ) {
        if m.channel_name() != self.channel_name {
            (self, RoutingView::NotMine)
        } else {
            match m {
                WireMessageView::Query(qm) => self.receive_query(browser, frame, qm),
                WireMessageView::Cancel(cm) => self.receive_cancel(frame.id, cm.query_id),
                WireMessageView::Reply(_) => (self, RoutingView::NotMine),
            }
        }
    }

    /// A handler replies to the query `id` of `context`, which it claimed
    /// before. A reply to a query that is not outstanding gives no message.
    pub open spec fn answer(self, context: ContextRef, id: QueryId, reply: QueryReplyView) -> (
        CoordinatorState<H>,
        Option<ReplyMessageView>,
    ) {
        match self.queries.complete(context, id, reply.terminal).1 {
            Some(q) => (
                CoordinatorState {
                    queries: self.queries.complete(context, id, reply.terminal).0,
                    ..self
                },
                Some(self.reply_message(id, reply, q.completed)),
            ),
            None => (self, None),
        }
    }

    /// The queries that `sel` takes are cancelled.
    pub open spec fn cancel_selected(self, sel: Selection) -> (
        CoordinatorState<H>,
        Seq<PendingQuery>,
    ) {
        (
            CoordinatorState { queries: self.queries.cancel_selected(sel).0, ..self },
            self.queries.cancel_selected(sel).1,
        )
    }

    /// The handler under `id` is deregistered, and the queries that it had
    /// claimed are cancelled.
    pub open spec fn remove_handler(self, id: HandlerId) -> (
        CoordinatorState<H>,
        Seq<PendingQuery>,
    ) {
        (
            CoordinatorState {
                handlers: self.handlers.remove(id),
                queries: self.queries.cancel_selected(Selection::Handler(id)).0,
                ..self
            },
            self.queries.cancel_selected(Selection::Handler(id)).1,
        )
    }
}

/// Cancelling keeps the router well-formed, and every cancelled query has a
/// registered handler to be told.
pub proof fn lemma_cancel_selected<H: QueryHandler>(s: CoordinatorState<H>, sel: Selection)
    requires
        s.wf(),
    ensures
        s.cancel_selected(sel).0.wf(),
        forall|k: int|
            0 <= k < s.cancel_selected(sel).1.len() ==> ((#[trigger] s.cancel_selected(
                sel,
            ).1[k]).handler matches Some(h) && s.handlers.has(h) && sel.takes(
                s.cancel_selected(sel).1[k],
            )),
        forall|k: int|
            0 <= k < s.cancel_selected(sel).0.queries.pending.len() ==> !sel.takes(
                #[trigger] s.cancel_selected(sel).0.queries.pending[k],
            ),
{
    let taken = |q: PendingQuery| sel.takes(q);
    let left = |q: PendingQuery| !sel.takes(q);
    lemma_filter_keeps_wf(s.queries, left);
    let m = lemma_filter_origin(s.queries.pending, left);
    let t = lemma_filter_origin(s.queries.pending, taken);
    let rest = s.cancel_selected(sel).0.queries.pending;
    let gone = s.cancel_selected(sel).1;
    assert forall|k: int| 0 <= k < rest.len() implies ((#[trigger] rest[k]).handler matches Some(h)
        && s.handlers.has(h)) && !sel.takes(rest[k]) by {
        assert(rest[k] == s.queries.pending[m[k]]);
        s.queries.pending.lemma_filter_pred(left, k);
    }
    assert forall|k: int| 0 <= k < gone.len() implies ((#[trigger] gone[k]).handler matches Some(h)
        && s.handlers.has(h) && sel.takes(gone[k])) by {
        assert(gone[k] == s.queries.pending[t[k]]);
        s.queries.pending.lemma_filter_pred(taken, k);
    }
}

/// The router of the coordinator process.
pub struct CoordinatorSideRouter<H: QueryHandler> {
    channel_name: String,
    handlers: HandlerRegistry<H>,
    queries: QueryRegistry,
}

impl<H: QueryHandler> View for CoordinatorSideRouter<H> {
    type V = CoordinatorState<H>;

    closed spec fn view(&self) -> CoordinatorState<H> {
        CoordinatorState {
            channel_name: self.channel_name@,
            handlers: self.handlers@,
            queries: self.queries@,
        }
    }
}

impl<H: QueryHandler> CoordinatorSideRouter<H> {
    /// The router's invariant: that of its model.
    pub open spec fn wf(&self) -> bool {
        self@.wf()
    }

    /// A router for the channel that `config` names, with no handler and no
    /// query.
    pub fn new(config: MessageRouterConfig) -> (r: CoordinatorSideRouter<H>)
        ensures
            r.wf(),
            r@ == CoordinatorState::<H>::init(config.channel_name@),
    {
        CoordinatorSideRouter {
            channel_name: config.channel_name,
            handlers: HandlerRegistry::new(),
            queries: QueryRegistry::new(),
        }
    }

    /// The name of the router's channel.
    pub fn channel_name(&self) -> (r: &String)
        ensures
            r@ == self@.channel_name,
    {
        &self.channel_name
    }

    /// How many handlers are registered.
    pub fn handler_count(&self) -> (r: usize)
        ensures
            r == self@.handlers.entries.len(),
    {
        self.handlers.len()
    }

    /// How many queries are claimed and await their last reply.
    pub fn pending_count(&self) -> (r: usize)
        ensures
            r == self@.queries.pending.len(),
    {
        self.queries.len()
    }

    /// Whether the query `id` of `context` is claimed and awaits its last
    /// reply.
    pub fn is_claimed(&self, context: ContextRef, id: QueryId) -> (r: bool)
        requires
            self.wf(),
        ensures
            r == self@.is_claimed(context, id),
    {
        self.queries.is_pending(context, id)
    }

    /// Whether another handler can be registered.
    pub fn can_add_handler(&self) -> (r: bool)
        ensures
            r == (self@.handlers.last_token < u64::MAX),
    {
        self.handlers.can_add()
    }

    /// Registers `handler` behind the handlers registered before it, and gives
    /// the id to deregister it by.
    pub fn add_handler(&mut self, handler: H, inform_all_queries: bool) -> (id: HandlerId)
        requires
            old(self).wf(),
            old(self)@.handlers.last_token < u64::MAX,
        ensures
            final(self).wf(),
            final(self)@.handlers == old(self)@.handlers.add(handler, inform_all_queries).0,
            id == old(self)@.handlers.add(handler, inform_all_queries).1,
            final(self)@.queries == old(self)@.queries,
            final(self)@.channel_name == old(self)@.channel_name,
    {
        let id = self.handlers.add(handler, inform_all_queries);
        proof {
            assert forall|h: HandlerId| old(self)@.handlers.has(h) implies self@.handlers.has(
                h,
            ) by {
                let k = old(self)@.handlers.position(h);
                assert(self@.handlers.entries[k] == old(self)@.handlers.entries[k]);
            }
        }
        id
    }

    /// Takes the queries that `sel` takes out of the table, tells the handler
    /// of each that its query was cancelled, and gives the queries back,
    /// oldest first. Each of them names the handler that was told, which is
    /// registered. No reply is sent for them.
    pub fn cancel_pending(&mut self, sel: &Selector) -> (cancelled: Vec<PendingQuery>)
        requires
            old(self).wf(),
        ensures
            final(self).wf(),
            (final(self)@, cancelled@) == old(self)@.cancel_selected(sel@),
            forall|k: int|
                0 <= k < cancelled.len() ==> ((#[trigger] cancelled@[k]).handler matches Some(h)
                    && final(self)@.handlers.has(h)),
    {
        proof {
            lemma_cancel_selected(self@, sel@);
        }
        let cancelled = self.queries.cancel_selected(sel);
        let mut i: usize = 0;
        while i < cancelled.len()
            invariant
                i <= cancelled.len(),
                self.handlers.wf(),
                forall|k: int|
                    0 <= k < cancelled.len() ==> ((#[trigger] cancelled@[k]).handler matches Some(h)
                        && self.handlers@.has(h)),
            decreases cancelled.len() - i,
        {
            let q = cancelled[i];
            assert(q == cancelled@[i as int]);
            match q.handler {
                Some(h) => {
                    let told = self.handlers.notify_cancelled(h, q.context_ref, q.id);
                    assert(told);
                },
                None => {},
            }
            i += 1;
        }
        cancelled
    }

    /// A frame is about to load another document, or is gone: every query of
    /// that frame is cancelled, its handler told, and no reply sent for it.
    /// Gives the cancelled queries, oldest first; none of that frame stays
    /// behind.
    pub fn on_before_browse(&mut self, browser: BrowserRef, frame: ContextRef) -> (cancelled: Vec<
        PendingQuery,
    >)
        requires
            old(self).wf(),
        ensures
            final(self).wf(),
            (final(self)@, cancelled@) == old(self)@.cancel_selected(Selection::Context(frame)),
            cancelled@ == old(self)@.queries.of_context(frame),
            final(self)@.queries.of_context(frame).len() == 0,
    {
        let cancelled = self.cancel_pending(&Selector::Context(frame));
        proof {
            crate::registry_laws::law_complete_after_cancel_all_is_ignored(
                old(self)@.queries,
                frame,
                0,
                true,
            );
        }
        cancelled
    }

    /// Cancels every query, telling each one's handler. Gives the cancelled
    /// queries, oldest first; the table is empty afterwards.
    pub fn cancel_everything(&mut self) -> (cancelled: Vec<PendingQuery>)
        requires
            old(self).wf(),
        ensures
            final(self).wf(),
            (final(self)@, cancelled@) == old(self)@.cancel_selected(Selection::All),
            cancelled@ == old(self)@.queries.pending,
            final(self)@.queries.pending.len() == 0,
    {
        let cancelled = self.cancel_pending(&Selector::All);
        proof {
            let sel = Selection::All;
            lemma_cancel_selected(old(self)@, sel);
            let p = old(self)@.queries.pending;
            let taken = |q: PendingQuery| sel.takes(q);
            lemma_filter_all(p, taken);
            let rest = self@.queries.pending;
            if rest.len() > 0 {
                assert(!sel.takes(rest[0]));
            }
        }
        cancelled
    }

    /// Deregisters the handler under `id`. The queries that it had claimed are
    /// cancelled first, and it is told of each; they are given back, oldest
    /// first. An id that is unknown, or whose handler was removed before,
    /// changes nothing.
    pub fn remove_handler(&mut self, id: HandlerId) -> (cancelled: Vec<PendingQuery>)
        requires
            old(self).wf(),
        ensures
            final(self).wf(),
            (final(self)@, cancelled@) == old(self)@.remove_handler(id),
            !old(self)@.handlers.has(id) ==> final(self)@ == old(self)@ && cancelled@.len() == 0,
    {
        proof {
            lemma_cancel_selected(self@, Selection::Handler(id));
        }
        let cancelled = self.cancel_pending(&Selector::Handler(id));
        let _ = self.handlers.remove(id);
        proof {
            if !old(self)@.handlers.has(id) {
                let sel = Selection::Handler(id);
                let p = old(self)@.queries.pending;
                let left = |q: PendingQuery| !sel.takes(q);
                assert forall|k: int| 0 <= k < p.len() implies left(#[trigger] p[k]) by {}
                lemma_filter_all(p, left);
                if cancelled@.len() > 0 {
                    assert(cancelled@[0].handler == Some(id));
                }
                assert(self@.queries == old(self)@.queries);
                assert(self@ == old(self)@);
            }
        }
        cancelled
    }

    /// Handles a query message of this router's channel.
    fn receive_query(&mut self, browser: BrowserRef, frame: &Frame, m: QueryMessage) -> (r: Routing)
        requires
            old(self).wf(),
        ensures
            final(self).wf(),
            (final(self)@, r@) == old(self)@.receive_query(browser, frame@, m@),
    {
        if m.frame_id != frame.id || self.queries.is_pending(frame.id, m.query_id) {
            return Routing::Ignored;
        }
        let ghost q = Inquiry {
            browser,
            frame: frame@,
            query_id: m.query_id,
            request: m.request_payload@,
            persistent: m.persistent,
        };
        proof {
            crate::handler_registry::lemma_claimant(self@.handlers, 0, q);
        }
        let offer = self.handlers.offer(
            browser,
            frame,
            m.query_id,
            m.request_payload.as_str(),
            m.persistent,
        );
        let asked = offer.asked;
        match offer.claim {
            None => Routing::Unclaimed { asked },
            Some((by, response)) => {
                assert(self@.handlers.has(by)) by {
                    let k = self@.handlers.claimant(q)->0;
                    assert(self@.handlers.entries[k].id == by);
                }
                match response {
                    HandlerResponse::Answered(reply) => {
                        let last = !m.persistent || reply.terminal;
                        if !last {
                            self.queries.track(frame.id, m.query_id, m.persistent, by);
                        }
                        let message = ReplyMessage {
                            channel_name: self.channel_name.clone(),
                            query_id: m.query_id,
                            success: reply.success,
                            response_payload: reply.payload,
                            terminal: last,
                        };
                        Routing::Answered { asked, by, reply: message }
                    },
                    _ => {
                        self.queries.track(frame.id, m.query_id, m.persistent, by);
                        Routing::Claimed { asked, by }
                    },
                }
            },
        }
    }

    /// Takes a message that came in from `frame` of `browser`.
    ///
    /// A message that names another channel is not this router's and changes
    /// nothing. A query is offered to the handlers in the order of their
    /// registration; the first that does not decline it has claimed it, and
    /// the query is kept until its last reply. A query that no handler takes
    /// is dropped without a reply. A cancellation takes the query out of the
    /// table and tells its handler.
    pub fn on_process_message_received(
        &mut self,
        browser: BrowserRef,
        frame: &Frame,
        message: WireMessage,
    ) -> (r: Routing)
        requires
            old(self).wf(),
        ensures
            final(self).wf(),
            (final(self)@, r@) == old(self)@.receive(browser, frame@, message@),
    {
        if *message.channel_name() != self.channel_name {
            return Routing::NotMine;
        }
        match message {
            WireMessage::Query(m) => self.receive_query(browser, frame, m),
            WireMessage::Cancel(m) => {
                proof {
                    lemma_cancel_one(self@, frame.id, m.query_id);
                }
                match self.queries.cancel(frame.id, m.query_id) {
                    Some(q) => {
                        match q.handler {
                            Some(h) => {
                                let told = self.handlers.notify_cancelled(h, q.context_ref, q.id);
                                assert(told);
                            },
                            None => {},
                        }
                        Routing::Cancelled(q)
                    },
                    None => Routing::Ignored,
                }
            },
            WireMessage::Reply(_) => Routing::NotMine,
        }
    }

    /// A handler replies to the query `query_id` of `context`, which it
    /// claimed before. Gives the reply message to send, or `None` where the
    /// query is not outstanding: it was cancelled, or had its last reply, or
    /// never was. The query leaves the table with its last reply: any reply
    /// to a query that is not persistent, and a terminal reply to a persistent
    /// one.
    pub fn reply(&mut self, context: ContextRef, query_id: QueryId, reply: QueryReply) -> (r:
        Option<ReplyMessage>)
        requires
            old(self).wf(),
        ensures
            final(self).wf(),
            final(self)@ == old(self)@.answer(context, query_id, reply@).0,
            match old(self)@.answer(context, query_id, reply@).1 {
                Some(m) => r matches Some(message) && message@ == m,
                None => r is None,
            },
    {
        proof {
            lemma_cancel_one(self@, context, query_id);
        }
        match self.queries.complete(context, query_id, reply.terminal) {
            Some(q) => Some(
                ReplyMessage {
                    channel_name: self.channel_name.clone(),
                    query_id,
                    success: reply.success,
                    response_payload: reply.payload,
                    terminal: q.completed,
                },
            ),
            None => None,
        }
    }
}

/// Taking one query out of the table keeps the router well-formed, and the
/// query taken out has a registered handler.
pub proof fn lemma_cancel_one<H: QueryHandler>(
    s: CoordinatorState<H>,
    context: ContextRef,
    id: QueryId,
)
    requires
        s.wf(),
    ensures
        s.queries.holds(context, id) ==> {
            &&& 0 <= s.queries.position(context, id) < s.queries.pending.len()
            &&& s.queries.pending[s.queries.position(context, id)].handler matches Some(h)
                && s.handlers.has(h)
            &&& (CoordinatorState {
                queries: RegistryState {
                    pending: s.queries.pending.remove(s.queries.position(context, id)),
                    last_id: s.queries.last_id,
                },
                ..s
            }).wf()
        },
{
    if s.queries.holds(context, id) {
        let p = s.queries.position(context, id);
        assert(s.queries.is_at(p, context, id));
        let rest = s.queries.pending.remove(p);
        crate::registry_laws::lemma_remove(s.queries, p, context, id);
        assert forall|k: int| 0 <= k < rest.len() implies ((#[trigger] rest[k]).handler matches Some(
            h,
        ) && s.handlers.has(h)) by {
            let l = if k < p {
                k
            } else {
                k + 1
            };
            assert(rest[k] == s.queries.pending[l]);
        }
    }
}

/// A message leaves the router well-formed, with the handlers it had.
pub proof fn lemma_receive<H: QueryHandler>(
    s: CoordinatorState<H>,
    browser: BrowserRef,
    frame: FrameView,
    m: WireMessageView,
)
    requires
        s.wf(),
    ensures
        s.receive(browser, frame, m).0.wf(),
        s.receive(browser, frame, m).0.handlers == s.handlers,
        s.receive(browser, frame, m).0.channel_name == s.channel_name,
{
    if m.channel_name() == s.channel_name {
        match m {
            WireMessageView::Query(qm) => {
                if !(qm.frame_id != frame.id || s.queries.holds(frame.id, qm.query_id)) {
                    let q = Inquiry {
                        browser,
                        frame,
                        query_id: qm.query_id,
                        request: qm.request_payload,
                        persistent: qm.persistent,
                    };
                    crate::handler_registry::lemma_claimant(s.handlers, 0, q);
                    if let Some(k) = s.handlers.claimant(q) {
                        let by = s.handlers.entries[k].id;
                        crate::registry_laws::lemma_track(
                            s.queries,
                            frame.id,
                            qm.query_id,
                            qm.persistent,
                            by,
                        );
                        let recorded = s.queries.track(frame.id, qm.query_id, qm.persistent, by);
                        assert forall|i: int| 0 <= i < recorded.pending.len() implies ((
                        #[trigger] recorded.pending[i]).handler matches Some(h) && s.handlers.has(
                            h,
                        )) by {
                            if i < s.queries.pending.len() {
                                assert(recorded.pending[i] == s.queries.pending[i]);
                            } else {
                                assert(s.handlers.entries[k].id == by);
                            }
                        }
                    }
                }
            },
            WireMessageView::Cancel(cm) => {
                lemma_cancel_one(s, frame.id, cm.query_id);
            },
            WireMessageView::Reply(_) => {},
        }
    }
}

/// The table holds exactly the claimed queries. A query that came in is in
/// the table afterwards where a handler claimed it and has not replied for
/// the last time; it is not there where every handler declined it, where it
/// was answered for the last time at once, and once it was cancelled. No
/// reply goes out for a query that nobody claimed.
pub proof fn law_table_holds_the_claimed<H: QueryHandler>(
    s: CoordinatorState<H>,
    browser: BrowserRef,
    frame: FrameView,
    m: QueryMessageView,
)
    requires
        s.wf(),
        m.channel_name == s.channel_name,
        m.frame_id == frame.id,
        !s.is_claimed(frame.id, m.query_id),
    ensures
        ({
            let (next, routing) = s.receive(browser, frame, WireMessageView::Query(m));
            let q = Inquiry {
                browser,
                frame,
                query_id: m.query_id,
                request: m.request_payload,
                persistent: m.persistent,
            };
            &&& next.wf()
            &&& match routing {
                RoutingView::Unclaimed { asked } => s.handlers.all_decline(q) && next == s
                    && asked == s.handlers.ids(),
                RoutingView::Claimed { asked, by } => next.is_claimed(frame.id, m.query_id)
                    && s.handlers.has(by),
                RoutingView::Answered { asked, by, reply } => {
                    &&& reply.query_id == m.query_id
                    &&& reply.channel_name == s.channel_name
                    &&& !m.persistent ==> reply.terminal
                    &&& next.is_claimed(frame.id, m.query_id) == !reply.terminal
                    &&& s.handlers.has(by)
                },
                _ => false,
            }
            &&& !next.receive_cancel(frame.id, m.query_id).0.is_claimed(frame.id, m.query_id)
        }),
{
    let wire = WireMessageView::Query(m);
    let (next, routing) = s.receive(browser, frame, wire);
    lemma_receive(s, browser, frame, wire);
    let q = Inquiry {
        browser,
        frame,
        query_id: m.query_id,
        request: m.request_payload,
        persistent: m.persistent,
    };
    crate::handler_registry::lemma_claimant(s.handlers, 0, q);
    if let Some(k) = s.handlers.claimant(q) {
        let by = s.handlers.entries[k].id;
        assert(s.handlers.entries[k].id == by);
        crate::registry_laws::lemma_track(s.queries, frame.id, m.query_id, m.persistent, by);
    }
    if next.queries.holds(frame.id, m.query_id) {
        let p = next.queries.position(frame.id, m.query_id);
        assert(next.queries.is_at(p, frame.id, m.query_id));
        crate::registry_laws::lemma_remove(next.queries, p, frame.id, m.query_id);
    }
}

/// No reply goes out for a query after its cancellation: once the queries
/// that a selection takes are cancelled, a handler's reply to any of them
/// changes nothing and gives no message.
pub proof fn law_no_reply_after_cancellation<H: QueryHandler>(
    s: CoordinatorState<H>,
    sel: Selection,
    k: int,
    reply: QueryReplyView,
)
    requires
        s.wf(),
        0 <= k < s.cancel_selected(sel).1.len(),
    ensures
        ({
            let (next, cancelled) = s.cancel_selected(sel);
            next.answer(cancelled[k].context_ref, cancelled[k].id, reply) == (
                next,
                None::<ReplyMessageView>,
            )
        }),
{
    let (next, cancelled) = s.cancel_selected(sel);
    lemma_cancel_selected(s, sel);
    let taken = |q: PendingQuery| sel.takes(q);
    let left = |q: PendingQuery| !sel.takes(q);
    let t = lemma_filter_origin(s.queries.pending, taken);
    let m = lemma_filter_origin(s.queries.pending, left);
    let c = cancelled[k].context_ref;
    let id = cancelled[k].id;
    assert(cancelled[k] == s.queries.pending[t[k]]);
    if next.queries.holds(c, id) {
        let i = choose|i: int| next.queries.is_at(i, c, id);
        assert(next.queries.pending[i] == s.queries.pending[m[i]]);
        assert(!sel.takes(next.queries.pending[i]));
        assert(sel.takes(cancelled[k]));
        assert(m[i] != t[k]);
        if m[i] < t[k] {
            assert(s.queries.pending[m[i]].context_ref != s.queries.pending[t[k]].context_ref
                || s.queries.pending[m[i]].id != s.queries.pending[t[k]].id);
        } else {
            assert(s.queries.pending[t[k]].context_ref != s.queries.pending[m[i]].context_ref
                || s.queries.pending[t[k]].id != s.queries.pending[m[i]].id);
        }
    }
}

/// A claimed query ends only by its last reply or by a cancellation, and each
/// of these is heard of. A query that is claimed before a message comes in
/// and not afterwards was withdrawn by that message, and the router says so;
/// one that is claimed before a handler replies and not afterwards had its
/// last reply, and the reply message that goes out is marked terminal.
pub proof fn law_claimed_query_ends_by_reply_or_cancellation<H: QueryHandler>(
    s: CoordinatorState<H>,
    browser: BrowserRef,
    frame: FrameView,
    m: WireMessageView,
    replying: ContextRef,
    replied: QueryId,
    reply: QueryReplyView,
    context: ContextRef,
    id: QueryId,
)
    requires
        s.wf(),
        s.is_claimed(context, id),
    ensures
        !s.receive(browser, frame, m).0.is_claimed(context, id) ==> context == frame.id && (
        m matches WireMessageView::Cancel(cm) && cm.query_id == id) && (s.receive(
            browser,
            frame,
            m,
        ).1 matches RoutingView::Cancelled(q) && q.context_ref == context && q.id == id),
        !s.answer(replying, replied, reply).0.is_claimed(context, id) ==> replying == context
            && replied == id && (s.answer(replying, replied, reply).1 matches Some(message)
            && message.terminal && message.query_id == id),
{
    let k = choose|k: int| s.queries.is_at(k, context, id);
    assert(s.queries.is_at(k, context, id));
    let (next, routing) = s.receive(browser, frame, m);
    if !next.is_claimed(context, id) {
        if m.channel_name() == s.channel_name {
            match m {
                WireMessageView::Query(qm) => {
                    if next.queries != s.queries {
                        assert(next.queries.pending[k] == s.queries.pending[k]);
                        assert(next.queries.is_at(k, context, id));
                    }
                },
                WireMessageView::Cancel(cm) => {
                    if s.queries.holds(frame.id, cm.query_id) {
                        let p = s.queries.position(frame.id, cm.query_id);
                        assert(s.queries.is_at(p, frame.id, cm.query_id));
                        if !crate::registry_laws::is_query(s.queries.pending[p], context, id) {
                            crate::registry_laws::lemma_remove_keeps_others(
                                s.queries,
                                p,
                                context,
                                id,
                            );
                        }
                    }
                },
                WireMessageView::Reply(_) => {},
            }
        }
    }
    let (after, message) = s.answer(replying, replied, reply);
    if !after.is_claimed(context, id) {
        if s.queries.holds(replying, replied) {
            let p = s.queries.position(replying, replied);
            assert(s.queries.is_at(p, replying, replied));
            if !crate::registry_laws::is_query(s.queries.pending[p], context, id) {
                if after.queries != s.queries {
                    crate::registry_laws::lemma_remove_keeps_others(s.queries, p, context, id);
                }
            }
        }
    }
}

} // verus!
