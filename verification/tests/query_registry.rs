use message_router::ids::HandlerId;
use message_router::query_registry::{PendingQuery, QueryRegistry, Selector};

fn pending(id: u64, context_ref: u64, persistent: bool) -> PendingQuery {
    PendingQuery { id, context_ref, persistent, handler: None, completed: false }
}

#[test]
fn allocate_counts_up_from_one_in_each_context() {
    let mut registry = QueryRegistry::new();
    assert_eq!(registry.allocate(7, false), 1);
    assert_eq!(registry.allocate(7, false), 2);
    assert_eq!(registry.allocate(9, true), 1);
    assert_eq!(registry.allocate(7, true), 3);
    assert_eq!(registry.len(), 4);
    assert_eq!(registry.last_issued(7), 3);
    assert_eq!(registry.last_issued(9), 1);
    assert_eq!(registry.last_issued(8), 0);
}

#[test]
fn allocated_ids_are_strictly_increasing_and_unique() {
    let mut registry = QueryRegistry::new();
    let mut last = 0;
    for round in 0..200u64 {
        let id = registry.allocate(3, round % 2 == 0);
        assert!(id > last);
        last = id;
        if round % 3 == 0 {
            registry.complete(3, id, true);
        }
        if round % 50 == 49 {
            registry.cancel_all(3);
        }
    }
    assert_eq!(last, 200);
}

#[test]
fn an_id_is_not_issued_again_after_its_query_ended() {
    let mut registry = QueryRegistry::new();
    let first = registry.allocate(1, false);
    assert!(registry.complete(1, first, true).is_some());
    assert!(registry.is_empty());
    let second = registry.allocate(1, false);
    assert_eq!(first, 1);
    assert_eq!(second, 2);
}

#[test]
fn a_fresh_registry_is_empty() {
    let registry = QueryRegistry::new();
    assert!(registry.is_empty());
    assert_eq!(registry.len(), 0);
    assert!(registry.can_allocate(0));
    assert!(!registry.is_pending(0, 1));
    assert_eq!(registry.get(0, 1), None);
}

#[test]
fn complete_removes_a_query_that_is_not_persistent() {
    let mut registry = QueryRegistry::new();
    let id = registry.allocate(4, false);
    let done = registry.complete(4, id, false);
    assert_eq!(
        done,
        Some(PendingQuery { id: 1, context_ref: 4, persistent: false, handler: None, completed: true })
    );
    assert!(!registry.is_pending(4, id));
    assert!(registry.is_empty());
}

#[test]
fn complete_for_an_unknown_id_is_a_no_op() {
    let mut registry = QueryRegistry::new();
    registry.allocate(4, false);
    assert_eq!(registry.complete(4, 2, true), None);
    assert_eq!(registry.complete(5, 1, true), None);
    assert_eq!(registry.len(), 1);
    assert!(registry.is_pending(4, 1));
}

#[test]
fn a_duplicate_reply_is_a_no_op() {
    let mut registry = QueryRegistry::new();
    let id = registry.allocate(4, false);
    assert!(registry.complete(4, id, true).is_some());
    assert_eq!(registry.complete(4, id, true), None);
    assert_eq!(registry.complete(4, id, false), None);
}

#[test]
fn complete_after_cancel_all_is_a_no_op() {
    let mut registry = QueryRegistry::new();
    let a = registry.allocate(4, false);
    let b = registry.allocate(4, true);
    let cancelled = registry.cancel_all(4);
    assert_eq!(cancelled.len(), 2);
    assert_eq!(registry.complete(4, a, true), None);
    assert_eq!(registry.complete(4, b, false), None);
    assert_eq!(registry.complete(4, b, true), None);
    assert!(registry.is_empty());
}

#[test]
fn a_persistent_query_takes_three_replies_and_a_terminal_one() {
    let mut registry = QueryRegistry::new();
    let id = registry.allocate(2, true);
    let mut fired = 0;
    for _ in 0..3 {
        let reply = registry.complete(2, id, false).expect("the query is outstanding");
        assert!(!reply.completed);
        assert!(registry.is_pending(2, id));
        fired += 1;
    }
    let last = registry.complete(2, id, true).expect("the query is outstanding");
    assert!(last.completed);
    fired += 1;
    assert_eq!(fired, 4);
    assert!(!registry.is_pending(2, id));
    assert!(registry.is_empty());
    assert_eq!(registry.complete(2, id, true), None);
}

#[test]
fn cancel_all_takes_the_three_queries_of_the_context() {
    let mut registry = QueryRegistry::new();
    registry.allocate(1, false);
    registry.allocate(2, false);
    registry.allocate(1, false);
    registry.allocate(1, false);
    registry.allocate(2, true);

    let cancelled = registry.cancel_all(1);

    assert_eq!(cancelled, vec![pending(1, 1, false), pending(2, 1, false), pending(3, 1, false)]);
    assert_eq!(registry.len(), 2);
    assert!(registry.is_pending(2, 1));
    assert!(registry.is_pending(2, 2));
    assert!(registry.cancel_all(1).is_empty());
}

#[test]
fn cancel_all_of_a_context_without_queries_takes_nothing() {
    let mut registry = QueryRegistry::new();
    registry.allocate(1, false);
    assert!(registry.cancel_all(2).is_empty());
    assert_eq!(registry.len(), 1);
}

#[test]
fn cancel_takes_one_query_out() {
    let mut registry = QueryRegistry::new();
    registry.allocate(1, false);
    registry.allocate(1, true);
    assert_eq!(registry.cancel(1, 2), Some(pending(2, 1, true)));
    assert_eq!(registry.cancel(1, 2), None);
    assert_eq!(registry.len(), 1);
    assert_eq!(registry.get(1, 1), Some(pending(1, 1, false)));
}

#[test]
fn track_records_a_query_of_the_peer_once() {
    let mut registry = QueryRegistry::new();
    let handler = HandlerId { token: 3 };
    assert!(registry.track(5, 17, true, handler));
    assert!(!registry.track(5, 17, false, HandlerId { token: 4 }));
    assert_eq!(
        registry.get(5, 17),
        Some(PendingQuery {
            id: 17,
            context_ref: 5,
            persistent: true,
            handler: Some(handler),
            completed: false
        })
    );
    assert_eq!(registry.last_issued(5), 17);
    assert_eq!(registry.allocate(5, false), 18);
    assert!(registry.track(5, 4, false, handler));
    assert_eq!(registry.last_issued(5), 18);
}

#[test]
fn selectors_take_by_context_contexts_handler_or_all() {
    let one = HandlerId { token: 1 };
    let two = HandlerId { token: 2 };
    let fill = || {
        let mut registry = QueryRegistry::new();
        registry.track(1, 1, false, one);
        registry.track(2, 1, false, two);
        registry.track(3, 1, false, one);
        registry.track(1, 2, false, two);
        registry
    };
    let ids = |cancelled: Vec<PendingQuery>| -> Vec<(u64, u64)> {
        cancelled.iter().map(|q| (q.context_ref, q.id)).collect()
    };

    let mut registry = fill();
    assert_eq!(ids(registry.cancel_selected(&Selector::Context(1))), vec![(1, 1), (1, 2)]);
    assert_eq!(registry.len(), 2);

    let mut registry = fill();
    assert_eq!(
        ids(registry.cancel_selected(&Selector::Contexts(vec![3, 2]))),
        vec![(2, 1), (3, 1)]
    );
    assert_eq!(registry.len(), 2);

    let mut registry = fill();
    assert_eq!(ids(registry.cancel_selected(&Selector::Contexts(vec![]))), vec![]);
    assert_eq!(registry.len(), 4);

    let mut registry = fill();
    assert_eq!(ids(registry.cancel_selected(&Selector::Handler(two))), vec![(2, 1), (1, 2)]);
    assert_eq!(registry.len(), 2);

    let mut registry = fill();
    assert_eq!(
        ids(registry.cancel_selected(&Selector::All)),
        vec![(1, 1), (2, 1), (3, 1), (1, 2)]
    );
    assert!(registry.is_empty());
}
