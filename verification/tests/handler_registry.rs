use std::cell::Cell;
use std::rc::Rc;

use message_router::handler_registry::{
    Frame, HandlerRegistry, HandlerResponse, QueryHandler, QueryReply,
};
use message_router::ids::{BrowserRef, ContextRef, HandlerId, QueryId};

/// Takes the requests that begin with its word; counts what it is asked and told.
struct Probe {
    word: &'static str,
    asked: Rc<Cell<usize>>,
    cancelled: Rc<Cell<usize>>,
}

impl Probe {
    fn new(word: &'static str) -> (Probe, Rc<Cell<usize>>, Rc<Cell<usize>>) {
        let asked = Rc::new(Cell::new(0));
        let cancelled = Rc::new(Cell::new(0));
        (Probe { word, asked: asked.clone(), cancelled: cancelled.clone() }, asked, cancelled)
    }
}

impl QueryHandler for Probe {
    fn on_query(
        &self,
        _browser: BrowserRef,
        _frame: &Frame,
        _query_id: QueryId,
        request: &str,
        _persistent: bool,
    ) -> HandlerResponse {
        self.asked.set(self.asked.get() + 1);
        if request.starts_with(self.word) {
            HandlerResponse::Answered(QueryReply {
                success: true,
                payload: format!("{}!", self.word),
                terminal: true,
            })
        } else {
            HandlerResponse::Declined
        }
    }

    fn on_query_cancelled(&self, _context: ContextRef, _query_id: QueryId) {
        self.cancelled.set(self.cancelled.get() + 1);
    }
}

fn frame(id: ContextRef) -> Frame {
    Frame { id, url: String::from("https://example.com/index.html") }
}

#[test]
fn handlers_get_ids_counting_up_from_one() {
    let mut registry = HandlerRegistry::new();
    let (a, _, _) = Probe::new("a");
    let (b, _, _) = Probe::new("b");
    assert!(registry.is_empty());
    assert_eq!(registry.add(a, false), HandlerId { token: 1 });
    assert_eq!(registry.add(b, true), HandlerId { token: 2 });
    assert_eq!(registry.len(), 2);
    assert_eq!(registry.informs_all_queries(HandlerId { token: 1 }), Some(false));
    assert_eq!(registry.informs_all_queries(HandlerId { token: 2 }), Some(true));
    assert_eq!(registry.informs_all_queries(HandlerId { token: 3 }), None);
}

#[test]
fn removing_an_unknown_or_removed_id_changes_nothing() {
    let mut registry = HandlerRegistry::new();
    let (a, _, _) = Probe::new("a");
    let id = registry.add(a, false);
    assert!(registry.remove(HandlerId { token: 99 }).is_none());
    assert_eq!(registry.len(), 1);
    assert!(registry.remove(id).is_some());
    assert_eq!(registry.len(), 0);
    assert!(registry.remove(id).is_none());
    assert_eq!(registry.len(), 0);
    assert!(!registry.contains(id));
}

#[test]
fn an_id_is_not_handed_out_again_after_removal() {
    let mut registry = HandlerRegistry::new();
    let (a, _, _) = Probe::new("a");
    let (b, _, _) = Probe::new("b");
    let first = registry.add(a, false);
    registry.remove(first);
    let second = registry.add(b, false);
    assert_ne!(first, second);
    assert_eq!(second, HandlerId { token: 2 });
}

#[test]
fn first_claim_wins_and_later_handlers_are_not_asked() {
    let mut registry = HandlerRegistry::new();
    let (a, asked_a, _) = Probe::new("alpha");
    let (b, asked_b, _) = Probe::new("beta");
    let (c, asked_c, _) = Probe::new("beta");
    let (d, asked_d, _) = Probe::new("delta");
    let id_a = registry.add(a, false);
    let id_b = registry.add(b, false);
    registry.add(c, false);
    registry.add(d, false);

    let offer = registry.offer(1, &frame(5), 1, "beta:payload", false);

    assert_eq!(offer.asked, vec![id_a, id_b]);
    match offer.claim {
        Some((by, HandlerResponse::Answered(reply))) => {
            assert_eq!(by, id_b);
            assert_eq!(reply.payload, "beta!");
        }
        other => panic!("the second handler should have answered, got {:?}", other),
    }
    assert_eq!(asked_a.get(), 1);
    assert_eq!(asked_b.get(), 1);
    assert_eq!(asked_c.get(), 0);
    assert_eq!(asked_d.get(), 0);
}

#[test]
fn a_query_that_nobody_takes_was_offered_to_everyone() {
    let mut registry = HandlerRegistry::new();
    let (a, asked_a, _) = Probe::new("alpha");
    let (b, asked_b, _) = Probe::new("beta");
    let id_a = registry.add(a, false);
    let id_b = registry.add(b, false);

    let offer = registry.offer(1, &frame(5), 1, "gamma", false);

    assert_eq!(offer.asked, vec![id_a, id_b]);
    assert!(offer.claim.is_none());
    assert_eq!(asked_a.get(), 1);
    assert_eq!(asked_b.get(), 1);
}

#[test]
fn an_empty_registry_asks_nobody() {
    let registry: HandlerRegistry<Probe> = HandlerRegistry::new();
    let offer = registry.offer(1, &frame(5), 1, "anything", true);
    assert!(offer.asked.is_empty());
    assert!(offer.claim.is_none());
}

#[test]
fn cancellation_reaches_the_named_handler_only() {
    let mut registry = HandlerRegistry::new();
    let (a, _, cancelled_a) = Probe::new("alpha");
    let (b, _, cancelled_b) = Probe::new("beta");
    let id_a = registry.add(a, false);
    let id_b = registry.add(b, false);

    assert!(registry.notify_cancelled(id_b, 5, 1));
    assert!(!registry.notify_cancelled(HandlerId { token: 9 }, 5, 1));

    assert_eq!(cancelled_a.get(), 0);
    assert_eq!(cancelled_b.get(), 1);
    assert!(registry.contains(id_a));
}
