use std::cell::{Cell, RefCell};
use std::rc::Rc;

use message_router::coordinator_router::{
    CoordinatorSideRouter, MessageRouterConfig, Routing, DEFAULT_CHANNEL_NAME,
};
use message_router::handler_registry::{Frame, HandlerResponse, QueryHandler, QueryReply};
use message_router::ids::{BrowserRef, ContextRef, HandlerId, QueryId};
use message_router::messages::{CancelMessage, QueryMessage, ReplyMessage, WireMessage};
use message_router::query_registry::{PendingQuery, Selector};

/// What a handler of these tests does with the requests that begin with its word.
#[derive(Clone, Copy)]
enum Manner {
    /// Replies at once, for the last time.
    AnswerLast,
    /// Replies at once and may reply again.
    AnswerMore,
    /// Fails at once.
    Fail,
    /// Takes the query and replies later.
    Later,
}

#[derive(Default)]
struct Seen {
    asked: Cell<usize>,
    cancelled: RefCell<Vec<(ContextRef, QueryId)>>,
}

struct Worker {
    word: &'static str,
    manner: Manner,
    seen: Rc<Seen>,
}

fn worker(word: &'static str, manner: Manner) -> (Worker, Rc<Seen>) {
    let seen = Rc::new(Seen::default());
    (Worker { word, manner, seen: seen.clone() }, seen)
}

impl QueryHandler for Worker {
    fn on_query(
        &self,
        _browser: BrowserRef,
        _frame: &Frame,
        _query_id: QueryId,
        request: &str,
        _persistent: bool,
    ) -> HandlerResponse {
        self.seen.asked.set(self.seen.asked.get() + 1);
        if !request.starts_with(self.word) {
            return HandlerResponse::Declined;
        }
        let payload = request[self.word.len()..].to_uppercase();
        match self.manner {
            Manner::AnswerLast => {
                HandlerResponse::Answered(QueryReply { success: true, payload, terminal: true })
            }
            Manner::AnswerMore => {
                HandlerResponse::Answered(QueryReply { success: true, payload, terminal: false })
            }
            Manner::Fail => {
                HandlerResponse::Answered(QueryReply { success: false, payload, terminal: true })
            }
            Manner::Later => HandlerResponse::Claimed,
        }
    }

    fn on_query_cancelled(&self, context: ContextRef, query_id: QueryId) {
        self.seen.cancelled.borrow_mut().push((context, query_id));
    }
}

fn config(name: &str) -> MessageRouterConfig {
    MessageRouterConfig { channel_name: String::from(name) }
}

fn frame(id: ContextRef) -> Frame {
    Frame { id, url: String::from("https://example.com/page.html") }
}

fn query(channel: &str, frame_id: ContextRef, query_id: QueryId, request: &str, persistent: bool) -> WireMessage {
    WireMessage::Query(QueryMessage {
        channel_name: String::from(channel),
        frame_id,
        query_id,
        request_payload: String::from(request),
        persistent,
    })
}

fn cancel(channel: &str, query_id: QueryId) -> WireMessage {
    WireMessage::Cancel(CancelMessage { channel_name: String::from(channel), query_id })
}

fn reply(success: bool, payload: &str, terminal: bool) -> QueryReply {
    QueryReply { success, payload: String::from(payload), terminal }
}

#[test]
fn the_default_configuration_names_the_default_channel() {
    let config = MessageRouterConfig::default();
    assert_eq!(config.channel_name, DEFAULT_CHANNEL_NAME);
    let router: CoordinatorSideRouter<Worker> = CoordinatorSideRouter::new(config);
    assert_eq!(router.channel_name(), "cefQuery");
    assert_eq!(router.handler_count(), 0);
    assert_eq!(router.pending_count(), 0);
}

#[test]
fn a_query_answered_at_once_gives_a_reply_and_leaves_no_entry() {
    let mut router = CoordinatorSideRouter::new(config("q"));
    let (w, seen) = worker("up:", Manner::AnswerLast);
    let id = router.add_handler(w, false);

    let routing = router.on_process_message_received(1, &frame(10), query("q", 10, 1, "up:abc", false));

    assert_eq!(
        routing,
        Routing::Answered {
            asked: vec![id],
            by: id,
            reply: ReplyMessage {
                channel_name: String::from("q"),
                query_id: 1,
                success: true,
                response_payload: String::from("ABC"),
                terminal: true,
            },
        }
    );
    assert!(routing.consumed());
    assert_eq!(seen.asked.get(), 1);
    assert_eq!(router.pending_count(), 0);
    assert!(!router.is_claimed(10, 1));
}

#[test]
fn a_failure_is_replied_as_a_failure() {
    let mut router = CoordinatorSideRouter::new(config("q"));
    let (w, _) = worker("up:", Manner::Fail);
    router.add_handler(w, false);
    match router.on_process_message_received(1, &frame(10), query("q", 10, 1, "up:no", true)) {
        Routing::Answered { reply, .. } => {
            assert!(!reply.success);
            assert_eq!(reply.response_payload, "NO");
            assert!(reply.terminal);
        }
        other => panic!("expected an answer, got {:?}", other),
    }
    assert_eq!(router.pending_count(), 0);
}

#[test]
fn the_first_handler_that_claims_stops_the_scan() {
    let mut router = CoordinatorSideRouter::new(config("q"));
    let (a, seen_a) = worker("a:", Manner::AnswerLast);
    let (b, seen_b) = worker("b:", Manner::AnswerLast);
    let (c, seen_c) = worker("b:", Manner::Fail);
    let (d, seen_d) = worker("d:", Manner::AnswerLast);
    let id_a = router.add_handler(a, false);
    let id_b = router.add_handler(b, false);
    router.add_handler(c, false);
    router.add_handler(d, false);

    let routing = router.on_process_message_received(1, &frame(10), query("q", 10, 1, "b:x", false));

    match routing {
        Routing::Answered { asked, by, reply } => {
            assert_eq!(asked, vec![id_a, id_b]);
            assert_eq!(by, id_b);
            assert!(reply.success);
        }
        other => panic!("expected an answer, got {:?}", other),
    }
    assert_eq!(
        (seen_a.asked.get(), seen_b.asked.get(), seen_c.asked.get(), seen_d.asked.get()),
        (1, 1, 0, 0)
    );
}

#[test]
fn a_query_that_nobody_claims_is_dropped_without_a_reply() {
    let mut router = CoordinatorSideRouter::new(config("q"));
    let (a, seen_a) = worker("a:", Manner::AnswerLast);
    let (b, seen_b) = worker("b:", Manner::Later);
    let id_a = router.add_handler(a, false);
    let id_b = router.add_handler(b, false);

    let routing = router.on_process_message_received(1, &frame(10), query("q", 10, 1, "zzz", false));

    assert_eq!(routing, Routing::Unclaimed { asked: vec![id_a, id_b] });
    assert!(routing.consumed());
    assert_eq!(router.pending_count(), 0);
    assert_eq!((seen_a.asked.get(), seen_b.asked.get()), (1, 1));
    assert_eq!(router.reply(10, 1, reply(true, "late", true)), None);
}

#[test]
fn a_message_of_another_channel_is_not_consumed() {
    let mut router = CoordinatorSideRouter::new(config("q"));
    let (a, seen) = worker("a:", Manner::AnswerLast);
    router.add_handler(a, false);

    let routing = router.on_process_message_received(1, &frame(10), query("other", 10, 1, "a:x", false));
    assert_eq!(routing, Routing::NotMine);
    assert!(!routing.consumed());
    assert_eq!(seen.asked.get(), 0);

    let routing = router.on_process_message_received(1, &frame(10), cancel("Q", 1));
    assert_eq!(routing, Routing::NotMine);
}

#[test]
fn a_reply_message_is_not_for_the_coordinator_side() {
    let mut router: CoordinatorSideRouter<Worker> = CoordinatorSideRouter::new(config("q"));
    let message = WireMessage::Reply(ReplyMessage {
        channel_name: String::from("q"),
        query_id: 1,
        success: true,
        response_payload: String::new(),
        terminal: true,
    });
    assert_eq!(router.on_process_message_received(1, &frame(10), message), Routing::NotMine);
}

#[test]
fn a_query_that_names_another_frame_is_ignored() {
    let mut router = CoordinatorSideRouter::new(config("q"));
    let (a, seen) = worker("a:", Manner::AnswerLast);
    router.add_handler(a, false);
    let routing = router.on_process_message_received(1, &frame(10), query("q", 11, 1, "a:x", false));
    assert_eq!(routing, Routing::Ignored);
    assert!(routing.consumed());
    assert_eq!(seen.asked.get(), 0);
}

#[test]
fn a_query_whose_id_is_outstanding_is_ignored() {
    let mut router = CoordinatorSideRouter::new(config("q"));
    let (a, seen) = worker("a:", Manner::Later);
    let id = router.add_handler(a, false);
    assert_eq!(
        router.on_process_message_received(1, &frame(10), query("q", 10, 1, "a:x", false)),
        Routing::Claimed { asked: vec![id], by: id }
    );
    assert_eq!(
        router.on_process_message_received(1, &frame(10), query("q", 10, 1, "a:y", false)),
        Routing::Ignored
    );
    assert_eq!(seen.asked.get(), 1);
    assert_eq!(router.pending_count(), 1);
    // The same id from another frame is another query.
    assert_eq!(
        router.on_process_message_received(1, &frame(11), query("q", 11, 1, "a:z", false)),
        Routing::Claimed { asked: vec![id], by: id }
    );
    assert_eq!(router.pending_count(), 2);
}

#[test]
fn a_claimed_query_is_replied_to_later_and_then_gone() {
    let mut router = CoordinatorSideRouter::new(config("q"));
    let (a, _) = worker("a:", Manner::Later);
    router.add_handler(a, false);
    router.on_process_message_received(1, &frame(10), query("q", 10, 5, "a:x", false));
    assert!(router.is_claimed(10, 5));

    let message = router.reply(10, 5, reply(true, "done", false));

    assert_eq!(
        message,
        Some(ReplyMessage {
            channel_name: String::from("q"),
            query_id: 5,
            success: true,
            response_payload: String::from("done"),
            terminal: true,
        })
    );
    assert!(!router.is_claimed(10, 5));
    assert_eq!(router.reply(10, 5, reply(true, "again", true)), None);
}

#[test]
fn a_persistent_query_stays_claimed_until_its_terminal_reply() {
    let mut router = CoordinatorSideRouter::new(config("q"));
    let (a, _) = worker("a:", Manner::AnswerMore);
    router.add_handler(a, false);
    match router.on_process_message_received(1, &frame(10), query("q", 10, 1, "a:x", true)) {
        Routing::Answered { reply, .. } => assert!(!reply.terminal),
        other => panic!("expected an answer, got {:?}", other),
    }
    assert!(router.is_claimed(10, 1));
    for n in 0..2 {
        let message = router.reply(10, 1, reply(true, "more", false)).expect("still claimed");
        assert!(!message.terminal, "reply {}", n);
        assert!(router.is_claimed(10, 1));
    }
    let last = router.reply(10, 1, reply(true, "last", true)).expect("still claimed");
    assert!(last.terminal);
    assert!(!router.is_claimed(10, 1));
    assert_eq!(router.reply(10, 1, reply(true, "late", true)), None);
}

#[test]
fn a_terminal_failure_ends_a_persistent_query() {
    let mut router = CoordinatorSideRouter::new(config("q"));
    let (a, _) = worker("a:", Manner::Later);
    router.add_handler(a, false);
    router.on_process_message_received(1, &frame(10), query("q", 10, 1, "a:x", true));
    let message = router.reply(10, 1, reply(false, "broken", true)).expect("claimed");
    assert!(!message.success);
    assert!(message.terminal);
    assert_eq!(message.response_payload, "broken");
    assert_eq!(router.pending_count(), 0);
}

#[test]
fn a_cancel_message_tells_the_handler_and_sends_nothing() {
    let mut router = CoordinatorSideRouter::new(config("q"));
    let (a, seen) = worker("a:", Manner::Later);
    let id = router.add_handler(a, false);
    router.on_process_message_received(1, &frame(10), query("q", 10, 3, "a:x", true));

    let routing = router.on_process_message_received(1, &frame(10), cancel("q", 3));

    assert_eq!(
        routing,
        Routing::Cancelled(PendingQuery {
            id: 3,
            context_ref: 10,
            persistent: true,
            handler: Some(id),
            completed: false
        })
    );
    assert_eq!(*seen.cancelled.borrow(), vec![(10, 3)]);
    assert_eq!(router.pending_count(), 0);
    assert_eq!(router.reply(10, 3, reply(true, "late", true)), None);
    assert_eq!(
        router.on_process_message_received(1, &frame(10), cancel("q", 3)),
        Routing::Ignored
    );
    assert_eq!(seen.cancelled.borrow().len(), 1);
}

#[test]
fn cancelling_a_frame_with_three_queries_tells_the_handler_three_times() {
    let mut router = CoordinatorSideRouter::new(config("q"));
    let (a, seen) = worker("a:", Manner::Later);
    router.add_handler(a, false);
    router.on_process_message_received(1, &frame(10), query("q", 10, 1, "a:1", false));
    router.on_process_message_received(1, &frame(10), query("q", 10, 2, "a:2", false));
    router.on_process_message_received(1, &frame(11), query("q", 11, 1, "a:other", false));
    router.on_process_message_received(1, &frame(10), query("q", 10, 3, "a:3", false));
    assert_eq!(router.pending_count(), 4);

    let cancelled = router.on_before_browse(1, 10);

    assert_eq!(cancelled.len(), 3);
    assert_eq!(*seen.cancelled.borrow(), vec![(10, 1), (10, 2), (10, 3)]);
    assert_eq!(router.pending_count(), 1);
    assert!(router.is_claimed(11, 1));
    assert!(!router.is_claimed(10, 1));
    assert!(!router.is_claimed(10, 2));
    assert!(!router.is_claimed(10, 3));
    assert!(router.on_before_browse(1, 10).is_empty());
    assert_eq!(seen.cancelled.borrow().len(), 3);
    for id in 1..=3 {
        assert_eq!(router.reply(10, id, reply(true, "late", true)), None);
    }
}

#[test]
fn removing_a_handler_cancels_the_queries_it_claimed() {
    let mut router = CoordinatorSideRouter::new(config("q"));
    let (a, seen_a) = worker("a:", Manner::Later);
    let (b, seen_b) = worker("b:", Manner::Later);
    let id_a = router.add_handler(a, false);
    let id_b = router.add_handler(b, false);
    router.on_process_message_received(1, &frame(10), query("q", 10, 1, "a:1", false));
    router.on_process_message_received(1, &frame(10), query("q", 10, 2, "b:2", false));
    router.on_process_message_received(1, &frame(12), query("q", 12, 1, "a:3", true));

    let cancelled = router.remove_handler(id_a);

    assert_eq!(cancelled.iter().map(|q| (q.context_ref, q.id)).collect::<Vec<_>>(), vec![(10, 1), (12, 1)]);
    assert_eq!(*seen_a.cancelled.borrow(), vec![(10, 1), (12, 1)]);
    assert!(seen_b.cancelled.borrow().is_empty());
    assert_eq!(router.handler_count(), 1);
    assert_eq!(router.pending_count(), 1);
    assert!(router.is_claimed(10, 2));

    // Removing it again, or an id that never was, changes nothing.
    assert!(router.remove_handler(id_a).is_empty());
    assert!(router.remove_handler(HandlerId { token: 77 }).is_empty());
    assert_eq!(router.handler_count(), 1);
    assert_eq!(router.pending_count(), 1);
    assert_eq!(id_b, HandlerId { token: 2 });
}

#[test]
fn cancel_everything_empties_the_table() {
    let mut router = CoordinatorSideRouter::new(config("q"));
    let (a, seen) = worker("a:", Manner::Later);
    router.add_handler(a, false);
    router.on_process_message_received(1, &frame(10), query("q", 10, 1, "a:1", false));
    router.on_process_message_received(2, &frame(20), query("q", 20, 1, "a:2", true));

    let cancelled = router.cancel_everything();

    assert_eq!(cancelled.len(), 2);
    assert_eq!(*seen.cancelled.borrow(), vec![(10, 1), (20, 1)]);
    assert_eq!(router.pending_count(), 0);
    assert!(router.cancel_pending(&Selector::All).is_empty());
}
