//! The handlers of the coordinator side, in the order in which they were
//! registered, and the rule by which a query finds its handler.
use vstd::prelude::*;
use crate::ids::{BrowserRef, ContextRef, HandlerId, QueryId};

verus! {

/// The frame that a query comes from.
#[derive(Clone, Debug, PartialEq, Eq)]
pub struct Frame {
    pub id: ContextRef,
    pub url: String,
}

/// A frame, in contracts.
pub struct FrameView {
    pub id: ContextRef,
    pub url: Seq<char>,
}

impl View for Frame {
    type V = FrameView;

    open spec fn view(&self) -> FrameView {
        FrameView { id: self.id, url: self.url@ }
    }
}

/// A query as a handler sees it.
pub struct Inquiry {
    pub browser: BrowserRef,
    pub frame: FrameView,
    pub query_id: QueryId,
    pub request: Seq<char>,
    pub persistent: bool,
}

/// One reply of a handler to a query.
#[derive(Clone, Debug, PartialEq, Eq)]
pub struct QueryReply {
    /// Success, or failure.
    pub success: bool,
    /// The response, or the reason of the failure.
    pub payload: String,
    /// Whether the handler will reply no more. Only a persistent query can be
    /// replied to again.
    pub terminal: bool,
}

/// A reply of a handler, in contracts.
pub struct QueryReplyView {
    pub success: bool,
    pub payload: Seq<char>,
    pub terminal: bool,
}

impl View for QueryReply {
    type V = QueryReplyView;

    open spec fn view(&self) -> QueryReplyView {
        QueryReplyView { success: self.success, payload: self.payload@, terminal: self.terminal }
    }
}

/// What a handler says to a query that it is offered.
#[derive(Clone, Debug, PartialEq, Eq)]
pub enum HandlerResponse {
    /// The query is not the handler's: the next handler is asked.
    Declined,
    /// The handler takes the query and will reply later.
    Claimed,
    /// The handler takes the query and replies at once.
    Answered(QueryReply),
}

/// What a handler says to a query, in contracts.
pub enum HandlerResponseView {
    Declined,
    Claimed,
    Answered(QueryReplyView),
}

impl View for HandlerResponse {
    type V = HandlerResponseView;

    open spec fn view(&self) -> HandlerResponseView {
        match self {
            HandlerResponse::Declined => HandlerResponseView::Declined,
            HandlerResponse::Claimed => HandlerResponseView::Claimed,
            HandlerResponse::Answered(r) => HandlerResponseView::Answered(r@),
        }
    }
}

/// The capability of a handler: to be offered queries, and to be told that a
/// query it claimed was cancelled.
pub trait QueryHandler {
    /// What the handler says to a query. An implementation's `on_query` must
    /// return this and nothing else: it is by this function that the router's
    /// contracts say which handler claims which query. An implementation that
    /// is verified states its own; one that is not leaves this as it stands.
    open spec fn response(&self, q: Inquiry) -> HandlerResponseView {
        arbitrary()
    }

    /// Offers the query to the handler.
    fn on_query(
        &self,
        browser: BrowserRef,
        frame: &Frame,
        query_id: QueryId,
        request: &str,
        persistent: bool,
    ) -> (r: HandlerResponse)
        ensures
            r@ == self.response(
                Inquiry { browser, frame: frame@, query_id, request: request@, persistent },
            ),
    ;

    /// Tells the handler that a query which it had claimed, and not yet
    /// replied to for the last time, was cancelled.
    fn on_query_cancelled(&self, context: ContextRef, query_id: QueryId);
}

/// One registered handler.
pub struct HandlerEntry<H> {
    pub id: HandlerId,
    pub handler: H,
    /// Set by a handler that also wants to hear of the cancellation of queries
    /// that began before it registered. The flag is kept with the entry and
    /// can be read back; offering and cancelling do not read it.
    pub inform_all_queries: bool,
}

/// The model of a handler registry.
pub struct HandlerTable<H> {
    /// The entries, first registered first.
    pub entries: Seq<HandlerEntry<H>>,
    /// The token of the last id handed out, 0 before the first.
    pub last_token: u64,
}

/// What offering a query to the handlers came to.
pub struct Offer {
    /// The handlers that were asked, in the order in which they were asked.
    pub asked: Vec<HandlerId>,
    /// The last handler asked and what it said, where it took the query.
    pub claim: Option<(HandlerId, HandlerResponse)>,
}

impl<H: QueryHandler> HandlerTable<H> {
    /// The table with no handler.
    pub open spec fn empty() -> HandlerTable<H> {
        HandlerTable { entries: Seq::empty(), last_token: 0 }
    }

    /// The ids of the entries, in order.
    pub open spec fn ids(self) -> Seq<HandlerId> {
        Seq::new(self.entries.len(), |i: int| self.entries[i].id)
    }

    /// A handler is registered under `id`.
    pub open spec fn has(self, id: HandlerId) -> bool {
        exists|i: int| 0 <= i < self.entries.len() && (#[trigger] self.entries[i]).id == id
    }

    /// Where the handler registered under `id` stands.
    pub open spec fn position(self, id: HandlerId) -> int {
        choose|i: int| 0 <= i < self.entries.len() && (#[trigger] self.entries[i]).id == id
    }

    /// No id is used twice, and none is beyond the last one handed out.
    pub open spec fn wf(self) -> bool {
        &&& forall|i: int|
            0 <= i < self.entries.len() ==> (#[trigger] self.entries[i]).id.token <= self.last_token
        &&& forall|i: int, j: int|
            0 <= i < j < self.entries.len() ==> (#[trigger] self.entries[i]).id != (
            #[trigger] self.entries[j]).id
    }

    /// Registers `handler` behind the others, under the next id.
    pub open spec fn add(self, handler: H, inform_all_queries: bool) -> (
        HandlerTable<H>,
        HandlerId,
    ) {
        let id = HandlerId { token: (self.last_token + 1) as u64 };
        (
            HandlerTable {
                entries: self.entries.push(HandlerEntry { id, handler, inform_all_queries }),
                last_token: id.token,
            },
            id,
        )
    }

    /// Takes out the handler registered under `id`; an unknown id changes
    /// nothing.
    pub open spec fn remove(self, id: HandlerId) -> HandlerTable<H> {
        if self.has(id) {
            HandlerTable {
                entries: self.entries.remove(self.position(id)),
                last_token: self.last_token,
            }
        } else {
            self
        }
    }

    /// The handler at position `i` declines the query.
    pub open spec fn declines(self, i: int, q: Inquiry) -> bool {
        self.entries[i].handler.response(q) is Declined
    }

    /// The handler at position `k` is the first that does not decline the
    /// query.
    pub open spec fn is_first_claimant(self, k: int, q: Inquiry) -> bool {
        &&& 0 <= k < self.entries.len()
        &&& !self.declines(k, q)
        &&& forall|i: int| 0 <= i < k ==> self.declines(i, q)
    }

    /// Every handler declines the query.
    pub open spec fn all_decline(self, q: Inquiry) -> bool {
        forall|i: int| 0 <= i < self.entries.len() ==> self.declines(i, q)
    }

    /// The position of the first handler, from position `from` on, that does
    /// not decline the query.
    pub open spec fn claimant_from(self, from: int, q: Inquiry) -> Option<int>
        decreases self.entries.len() - from,
    {
        if from < 0 || from >= self.entries.len() {
            None
        } else if !self.declines(from, q) {
            Some(from)
        } else {
            self.claimant_from(from + 1, q)
        }
    }

    /// The position of the first handler that does not decline the query.
    pub open spec fn claimant(self, q: Inquiry) -> Option<int> {
        self.claimant_from(0, q)
    }

    /// The handlers that are asked: all up to and with the claimant, or all
    /// where every handler declines.
    pub open spec fn asked(self, q: Inquiry) -> Seq<HandlerId> {
        match self.claimant(q) {
            Some(k) => self.ids().take(k + 1),
            None => self.ids(),
        }
    }
}

/// The claimant is the first handler that does not decline; there is none
/// exactly where all decline.
pub proof fn lemma_claimant<H: QueryHandler>(t: HandlerTable<H>, from: int, q: Inquiry)
    requires
        0 <= from <= t.entries.len(),
    ensures
        match t.claimant_from(from, q) {
            Some(k) => from <= k < t.entries.len() && !t.declines(k, q) && forall|i: int|
                from <= i < k ==> t.declines(i, q),
            None => forall|i: int| from <= i < t.entries.len() ==> t.declines(i, q),
        },
    decreases t.entries.len() - from,
{
    if from < t.entries.len() && t.declines(from, q) {
        lemma_claimant(t, from + 1, q);
    }
}

/// The handlers in the order of their registration.
pub struct HandlerRegistry<H> {
    entries: Vec<HandlerEntry<H>>,
    last_token: u64,
}

impl<H: QueryHandler> View for HandlerRegistry<H> {
    type V = HandlerTable<H>;

    closed spec fn view(&self) -> HandlerTable<H> {
        HandlerTable { entries: self.entries@, last_token: self.last_token }
    }
}

impl<H: QueryHandler> HandlerRegistry<H> {
    /// The registry's invariant: that of its model.
    pub open spec fn wf(&self) -> bool {
        self@.wf()
    }

    /// A registry with no handler.
    pub fn new() -> (r: HandlerRegistry<H>)
        ensures
            r.wf(),
            r@ == HandlerTable::<H>::empty(),
    {
        HandlerRegistry { entries: Vec::new(), last_token: 0 }
    }

    /// How many handlers are registered.
    pub fn len(&self) -> (r: usize)
        ensures
            r == self@.entries.len(),
    {
        self.entries.len()
    }

    /// Whether no handler is registered.
    pub fn is_empty(&self) -> (r: bool)
        ensures
            r == (self@.entries.len() == 0),
    {
        self.entries.len() == 0
    }

    /// Whether another handler can be given an id.
    pub fn can_add(&self) -> (r: bool)
        ensures
            r == (self@.last_token < u64::MAX),
    {
        self.last_token < u64::MAX
    }

    /// The position of the handler registered under `id`.
    fn find(&self, id: HandlerId) -> (r: Option<usize>)
        requires
            self.wf(),
        ensures
            r is Some == self@.has(id),
            r matches Some(i) ==> i == self@.position(id) && i < self@.entries.len()
                && self@.entries[i as int].id == id,
    {
        let mut i: usize = 0;
        while i < self.entries.len()
            invariant
                i <= self.entries.len(),
                self.wf(),
                forall|k: int| 0 <= k < i ==> (#[trigger] self@.entries[k]).id != id,
            decreases self.entries.len() - i,
        {
            if self.entries[i].id == id {
                assert(self@.entries[i as int].id == id);
                return Some(i);
            }
            i += 1;
        }
        None
    }

    /// Whether a handler is registered under `id`.
    pub fn contains(&self, id: HandlerId) -> (r: bool)
        requires
            self.wf(),
        ensures
            r == self@.has(id),
    {
        self.find(id).is_some()
    }

    /// The flag that the handler under `id` was registered with.
    pub fn informs_all_queries(&self, id: HandlerId) -> (r: Option<bool>)
        requires
            self.wf(),
        ensures
            r is Some == self@.has(id),
            r matches Some(b) ==> b == self@.entries[self@.position(id)].inform_all_queries,
    {
        match self.find(id) {
            Some(i) => Some(self.entries[i].inform_all_queries),
            None => None,
        }
    }

    /// Registers `handler` behind all handlers registered before, and gives
    /// the id to deregister it by: one that no handler of this registry has
    /// or had.
    ///
    /// `inform_all_queries` is reserved for a handler that wants to hear of
    /// the cancellation of queries that began before it registered. The flag
    /// is kept with the handler and read back by `informs_all_queries`; no
    /// notice is sent on its account.
    pub fn add(&mut self, handler: H, inform_all_queries: bool) -> (id: HandlerId)
        requires
            old(self).wf(),
            old(self)@.last_token < u64::MAX,
        ensures
            final(self).wf(),
            (final(self)@, id) == old(self)@.add(handler, inform_all_queries),
            !old(self)@.has(id),
    {
        let id = HandlerId { token: self.last_token + 1 };
        self.last_token = id.token;
        self.entries.push(HandlerEntry { id, handler, inform_all_queries });
        proof {
            let before = old(self)@.entries;
            let after = self@.entries;
            assert forall|i: int| 0 <= i < before.len() implies (#[trigger] after[i]).id.token
                <= old(self)@.last_token by {
                assert(after[i] == before[i]);
            }
            assert forall|i: int| 0 <= i < before.len() implies (#[trigger] before[i]).id
                != id by {}
        }
        id
    }

    /// Deregisters the handler under `id` and gives it back. An id that is
    /// unknown, or whose handler was removed before, changes nothing and gives
    /// `None`.
    pub fn remove(&mut self, id: HandlerId) -> (r: Option<H>)
        requires
            old(self).wf(),
        ensures
            final(self).wf(),
            final(self)@ == old(self)@.remove(id),
            r is Some == old(self)@.has(id),
            r matches Some(h) ==> h == old(self)@.entries[old(self)@.position(id)].handler,
            !final(self)@.has(id),
            forall|other: HandlerId| other != id ==> final(self)@.has(other) == old(self)@.has(other),
    {
        match self.find(id) {
            Some(i) => {
                let entry = self.entries.remove(i);
                proof {
                    law_remove_is_idempotent(old(self)@, id);
                }
                Some(entry.handler)
            },
            None => None,
        }
    }

    /// Offers a query to the handlers in the order of their registration, up
    /// to and with the first that does not decline it. Handlers behind that
    /// one are not asked. Where every handler declines, all were asked and
    /// there is no claim.
    pub fn offer(
        &self,
        browser: BrowserRef,
        frame: &Frame,
        query_id: QueryId,
        request: &str,
        persistent: bool,
    ) -> (r: Offer)
        requires
            self.wf(),
        ensures
            ({
                let q = Inquiry { browser, frame: frame@, query_id, request: request@, persistent };
                &&& r.asked@ == self@.asked(q)
                &&& match self@.claimant(q) {
                    Some(k) => r.claim matches Some((id, response)) && id == self@.entries[k].id
                        && response@ == self@.entries[k].handler.response(q),
                    None => r.claim is None,
                }
            }),
    {
        let ghost q = Inquiry { browser, frame: frame@, query_id, request: request@, persistent };
        let mut asked: Vec<HandlerId> = Vec::new();
        let mut i: usize = 0;
        while i < self.entries.len()
            invariant
                i <= self.entries.len(),
                q == (Inquiry { browser, frame: frame@, query_id, request: request@, persistent }),
                self@.claimant(q) == self@.claimant_from(i as int, q),
                asked@ == self@.ids().take(i as int),
            decreases self.entries.len() - i,
        {
            let entry = &self.entries[i];
            let response = entry.handler.on_query(browser, frame, query_id, request, persistent);
            asked.push(entry.id);
            assert(asked@ == self@.ids().take(i + 1));
            match response {
                HandlerResponse::Declined => {},
                _ => {
                    return Offer { asked, claim: Some((entry.id, response)) };
                },
            }
            i += 1;
        }
        assert(self@.ids().take(i as int) == self@.ids());
        Offer { asked, claim: None }
    }

    /// Tells the handler registered under `id` that the query `query_id` of
    /// `context` was cancelled. Returns whether there is such a handler.
    pub fn notify_cancelled(&self, id: HandlerId, context: ContextRef, query_id: QueryId) -> (r:
        bool)
        requires
            self.wf(),
        ensures
            r == self@.has(id),
    {
        match self.find(id) {
            Some(i) => {
                self.entries[i].handler.on_query_cancelled(context, query_id);
                true
            },
            None => false,
        }
    }
}

/// First claim wins. Where the handler at position `k` is the first that does
/// not decline a query, exactly the handlers at the positions up to and with
/// `k` are asked, in that order, and none behind it.
pub proof fn law_first_claim_wins<H: QueryHandler>(t: HandlerTable<H>, q: Inquiry, k: int)
    requires
        t.is_first_claimant(k, q),
    ensures
        t.claimant(q) == Some(k),
        t.asked(q) == t.ids().take(k + 1),
        t.asked(q).len() == k + 1,
        forall|i: int| 0 <= i <= k ==> t.asked(q)[i] == t.entries[i].id,
{
    lemma_claimant(t, 0, q);
}

/// Where every handler declines a query, every handler was asked.
pub proof fn law_unclaimed_query_asks_all<H: QueryHandler>(t: HandlerTable<H>, q: Inquiry)
    requires
        t.all_decline(q),
    ensures
        t.claimant(q) is None,
        t.asked(q) == t.ids(),
{
    lemma_claimant(t, 0, q);
}

/// Deregistering is idempotent. An id that is not registered, because it
/// never was or because its handler was removed before, changes nothing; and
/// after a removal the id is not registered.
pub proof fn law_remove_is_idempotent<H: QueryHandler>(t: HandlerTable<H>, id: HandlerId)
    requires
        t.wf(),
    ensures
        !t.has(id) ==> t.remove(id) == t,
        !t.remove(id).has(id),
        t.remove(id).remove(id) == t.remove(id),
        t.remove(id).wf(),
        forall|other: HandlerId| other != id ==> t.remove(id).has(other) == t.has(other),
{
    if t.has(id) {
        let p = t.position(id);
        let after = t.remove(id).entries;
        assert forall|k: int| 0 <= k < after.len() implies #[trigger] after[k] == t.entries[if k
            < p {
            k
        } else {
            k + 1
        }] by {}
        assert forall|k: int| 0 <= k < after.len() implies (#[trigger] after[k]).id != id by {
            let l = if k < p {
                k
            } else {
                k + 1
            };
            assert(after[k] == t.entries[l]);
            if l < p {
                assert(t.entries[l].id != t.entries[p].id);
            } else {
                assert(t.entries[p].id != t.entries[l].id);
            }
        }
        assert forall|k: int, l: int| 0 <= k < l < after.len() implies (#[trigger] after[k]).id
            != (#[trigger] after[l]).id by {
            let k0 = if k < p {
                k
            } else {
                k + 1
            };
            let l0 = if l < p {
                l
            } else {
                l + 1
            };
            assert(after[k] == t.entries[k0]);
            assert(after[l] == t.entries[l0]);
        }
        assert forall|k: int| 0 <= k < after.len() implies (#[trigger] after[k]).id.token
            <= t.last_token by {
            let l = if k < p {
                k
            } else {
                k + 1
            };
            assert(after[k] == t.entries[l]);
        }
        assert forall|other: HandlerId| other != id implies t.remove(id).has(other) == t.has(
            other,
        ) by {
            if t.has(other) {
                let l = t.position(other);
                let k = if l < p {
                    l
                } else {
                    l - 1
                };
                assert(after[k] == t.entries[l]);
            }
            if t.remove(id).has(other) {
                let k = t.remove(id).position(other);
                let l = if k < p {
                    k
                } else {
                    k + 1
                };
                assert(after[k] == t.entries[l]);
            }
        }
    }
}

/// Ids are stable and never handed out twice. A new handler gets an id that
/// no registered handler has, goes behind all of them, and leaves their ids
/// and their order as they were; and removing a handler does not free its id
/// for a later one.
pub proof fn law_handler_ids_are_fresh<H: QueryHandler>(
    t: HandlerTable<H>,
    handler: H,
    inform_all_queries: bool,
    removed: HandlerId,
)
    requires
        t.wf(),
        t.last_token < u64::MAX,
    ensures
        ({
            let (next, id) = t.add(handler, inform_all_queries);
            &&& !t.has(id)
            &&& next.has(id)
            &&& next.wf()
            &&& next.ids() == t.ids().push(id)
            &&& forall|k: int| 0 <= k < t.entries.len() ==> (#[trigger] t.entries[k]).id.token < id.token
            &&& t.remove(removed).add(handler, inform_all_queries).1 == id
            &&& id != removed ==> next.remove(removed).has(id)
        }),
{
    let (next, id) = t.add(handler, inform_all_queries);
    assert forall|k: int| 0 <= k < t.entries.len() implies (#[trigger] t.entries[k]).id.token
        < id.token by {}
    assert(next.entries[t.entries.len() as int].id == id);
    assert(next.ids() =~= t.ids().push(id));
    assert forall|k: int| 0 <= k < next.entries.len() implies (#[trigger] next.entries[k]).id.token
        <= next.last_token by {
        if k < t.entries.len() {
            assert(next.entries[k] == t.entries[k]);
        }
    }
    assert forall|k: int, l: int| 0 <= k < l < next.entries.len() implies (
    #[trigger] next.entries[k]).id != (#[trigger] next.entries[l]).id by {
        assert(next.entries[k] == t.entries[k]);
        if l < t.entries.len() {
            assert(next.entries[l] == t.entries[l]);
        }
    }
    law_remove_is_idempotent(next, removed);
}

} // verus!
