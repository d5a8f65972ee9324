//! What holds of the two routers together: a query that is answered comes
//! back to the context that asked, and a query that its caller withdrew is
//! heard of no more.
use vstd::prelude::*;
use crate::coordinator_router::{lemma_receive, CoordinatorState, RoutingView};
use crate::handler_registry::{FrameView, HandlerResponseView, Inquiry, QueryHandler};
use crate::ids::{BrowserRef, ContextRef, QueryId};
use crate::isolated_router::{DeliveryView, InboundView, IsolatedState};
use crate::messages::{ReplyMessageView, WireMessageView};
use crate::query_registry::PendingQuery;
use crate::registry_laws::{lemma_allocate, lemma_remove, lemma_track};

verus! {

/// A query that a handler answers at once comes back to the context that
/// asked it.
///
/// The isolated side asks; the coordinator side, which holds no query of
/// that id for the frame, takes the query message and a handler answers. The
/// reply message then finds the query on the isolated side: the success or
/// failure continuation is named, with the handler's payload. After the last
/// reply, which any reply to a query that is not persistent is, both tables
/// are as they were before the query; after another, both hold the query.
pub proof fn law_answered_query_comes_back<H: QueryHandler>(
    isolated: IsolatedState,
    coordinator: CoordinatorState<H>,
    browser: BrowserRef,
    frame: FrameView,
    request: Seq<char>,
    persistent: bool,
)
    requires
        isolated.wf(),
        coordinator.wf(),
        isolated.channel_name == coordinator.channel_name,
        isolated.queries.last_issued(frame.id) < u64::MAX,
        !coordinator.is_claimed(frame.id, (isolated.queries.last_issued(frame.id) + 1) as QueryId),
        coordinator.receive(
            browser,
            frame,
            WireMessageView::Query(isolated.query(frame.id, request, persistent).1),
        ).1 is Answered,
    ensures
        ({
            let (asking, query) = isolated.query(frame.id, request, persistent);
            let (answering, routing) = coordinator.receive(
                browser,
                frame,
                WireMessageView::Query(query),
            );
            let reply = routing->Answered_reply;
            let (after, inbound) = asking.receive(frame.id, WireMessageView::Reply(reply));
            let q = Inquiry { browser, frame, query_id: query.query_id, request, persistent };
            let k = coordinator.handlers.claimant(q)->0;
            &&& coordinator.handlers.is_first_claimant(k, q)
            &&& coordinator.handlers.entries[k].handler.response(q) matches HandlerResponseView::Answered(
                said,
            )
            &&& said.payload == reply.response_payload
            &&& said.success == reply.success
            &&& reply.terminal == (!persistent || said.terminal)
            &&& inbound matches InboundView::Deliver(d)
            &&& if reply.success {
                d matches DeliveryView::Success { query: found, response } && response
                    == said.payload && found.id == query.query_id && found.context_ref == frame.id
                    && found.completed == reply.terminal
            } else {
                d matches DeliveryView::Failure { query: found, reason } && reason == said.payload
                    && found.id == query.query_id && found.context_ref == frame.id
                    && found.completed == reply.terminal
            }
            &&& reply.terminal ==> after.queries.pending == isolated.queries.pending && answering
                == coordinator
            &&& !reply.terminal ==> after == asking && answering.is_claimed(
                frame.id,
                query.query_id,
            )
            &&& after.wf()
            &&& answering.wf()
        }),
{
    let (asking, query) = isolated.query(frame.id, request, persistent);
    let wire = WireMessageView::Query(query);
    let (answering, routing) = coordinator.receive(browser, frame, wire);
    lemma_allocate(isolated.queries, frame.id, persistent);
    lemma_receive(coordinator, browser, frame, wire);
    let q = Inquiry { browser, frame, query_id: query.query_id, request, persistent };
    crate::handler_registry::lemma_claimant(coordinator.handlers, 0, q);
    let k = coordinator.handlers.claimant(q)->0;
    let by = coordinator.handlers.entries[k].id;
    lemma_track(coordinator.queries, frame.id, query.query_id, persistent, by);
    let p = asking.queries.position(frame.id, query.query_id);
    assert(asking.queries.is_at(p, frame.id, query.query_id));
    lemma_remove(asking.queries, p, frame.id, query.query_id);
    assert(asking.queries.pending.remove(p) =~= isolated.queries.pending);
}

/// A query that its caller withdrew is heard of no more. After the caller's
/// cancellation the isolated side ignores every reply and every cancellation
/// that still arrives for the query: no continuation is invoked for it.
pub proof fn law_withdrawn_query_is_silent(
    isolated: IsolatedState,
    context: ContextRef,
    id: QueryId,
    late: ReplyMessageView,
)
    requires
        isolated.wf(),
        late.channel_name == isolated.channel_name,
        late.query_id == id,
    ensures
        ({
            let (withdrawn, message) = isolated.cancel(context, id);
            &&& message is Some == isolated.queries.holds(context, id)
            &&& withdrawn.wf()
            &&& !withdrawn.queries.holds(context, id)
            &&& withdrawn.receive(context, WireMessageView::Reply(late)) == (
                withdrawn,
                InboundView::Ignored,
            )
        }),
{
    if isolated.queries.holds(context, id) {
        let p = isolated.queries.position(context, id);
        assert(isolated.queries.is_at(p, context, id));
        lemma_remove(isolated.queries, p, context, id);
    }
}

/// A message of another channel is nobody's: neither side consumes it, and
/// neither side changes.
pub proof fn law_other_channels_are_ignored<H: QueryHandler>(
    isolated: IsolatedState,
    coordinator: CoordinatorState<H>,
    browser: BrowserRef,
    frame: FrameView,
    message: WireMessageView,
)
    requires
        message.channel_name() != isolated.channel_name,
        message.channel_name() != coordinator.channel_name,
    ensures
        isolated.receive(frame.id, message) == (isolated, InboundView::NotMine),
        coordinator.receive(browser, frame, message) == (coordinator, RoutingView::NotMine),
{
}

} // verus!
