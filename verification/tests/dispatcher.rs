use message_router::dispatcher::{Dispatch, ThreadAffinityDispatcher, ThreadId};

#[test]
fn work_for_the_callers_own_thread_runs_now() {
    let mut dispatcher = ThreadAffinityDispatcher::new();
    assert_eq!(dispatcher.run_on(ThreadId::UI, ThreadId::UI, 5), Dispatch::RunNow(5));
    assert_eq!(dispatcher.queued(ThreadId::UI), 0);
    assert_eq!(dispatcher.take_next(ThreadId::UI), None);
}

#[test]
fn work_for_another_thread_is_queued_first_in_first_out() {
    let mut dispatcher = ThreadAffinityDispatcher::new();
    assert_eq!(dispatcher.run_on(ThreadId::IO, ThreadId::UI, "a"), Dispatch::Posted);
    assert_eq!(dispatcher.run_on(ThreadId::Renderer, ThreadId::UI, "b"), Dispatch::Posted);
    assert_eq!(dispatcher.run_on(ThreadId::UI, ThreadId::IO, "c"), Dispatch::Posted);
    assert_eq!(dispatcher.run_on(ThreadId::IO, ThreadId::UI, "d"), Dispatch::Posted);
    assert_eq!(dispatcher.queued(ThreadId::UI), 3);
    assert_eq!(dispatcher.queued(ThreadId::IO), 1);
    assert_eq!(dispatcher.queued(ThreadId::Renderer), 0);

    assert_eq!(dispatcher.take_next(ThreadId::UI), Some("a"));
    assert_eq!(dispatcher.take_next(ThreadId::UI), Some("b"));
    assert_eq!(dispatcher.take_next(ThreadId::UI), Some("d"));
    assert_eq!(dispatcher.take_next(ThreadId::UI), None);
    assert_eq!(dispatcher.take_next(ThreadId::IO), Some("c"));
    assert_eq!(dispatcher.take_next(ThreadId::IO), None);
    assert_eq!(dispatcher.take_next(ThreadId::Renderer), None);
}

#[test]
fn posted_work_is_taken_exactly_once() {
    let mut dispatcher = ThreadAffinityDispatcher::new();
    dispatcher.run_on(ThreadId::IO, ThreadId::Renderer, 1);
    assert_eq!(dispatcher.take_next(ThreadId::Renderer), Some(1));
    assert_eq!(dispatcher.take_next(ThreadId::Renderer), None);
    assert_eq!(dispatcher.queued(ThreadId::Renderer), 0);
}

#[test]
fn work_for_a_thread_that_shut_down_is_dropped() {
    let mut dispatcher = ThreadAffinityDispatcher::new();
    dispatcher.run_on(ThreadId::IO, ThreadId::UI, 1);
    assert!(!dispatcher.is_shut_down(ThreadId::UI));

    dispatcher.shut_down(ThreadId::UI);

    assert!(dispatcher.is_shut_down(ThreadId::UI));
    assert!(!dispatcher.is_shut_down(ThreadId::IO));
    assert_eq!(dispatcher.queued(ThreadId::UI), 0);
    assert_eq!(dispatcher.take_next(ThreadId::UI), None);
    assert_eq!(dispatcher.run_on(ThreadId::IO, ThreadId::UI, 2), Dispatch::Dropped);
    assert_eq!(dispatcher.queued(ThreadId::UI), 0);
    assert_eq!(dispatcher.run_on(ThreadId::UI, ThreadId::IO, 3), Dispatch::Posted);
}
