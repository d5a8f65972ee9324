//! Running work on the thread that owns the state it touches: at once where
//! the caller is on that thread already, else queued for it, first in first
//! out.
use std::collections::VecDeque;
use vstd::prelude::*;

verus! {

/// The logical threads.
#[derive(Clone, Copy, Debug, PartialEq, Eq, Hash, Structural)]
pub enum ThreadId {
    /// Owns the lifecycle coordinator and the coordinator-side router.
    UI,
    /// Resolves resource requests.
    IO,
    /// Owns the isolated-side router.
    Renderer,
}

/// What became of a piece of work handed to the dispatcher.
#[derive(Clone, Copy, Debug, PartialEq, Eq)]
pub enum Dispatch<T> {
    /// The caller is on the target thread: it runs the work itself, now.
    RunNow(T),
    /// The work was queued for the target thread.
    Posted,
    /// The target thread has shut down: the work was dropped, and will not
    /// be tried again.
    Dropped,
}

/// The model of one thread's queue.
pub struct LaneState<T> {
    /// The work queued, oldest first.
    pub queue: Seq<T>,
    pub shut_down: bool,
}

/// The model of the dispatcher.
pub struct DispatcherState<T> {
    pub ui: LaneState<T>,
    pub io: LaneState<T>,
    pub renderer: LaneState<T>,
}

impl<T> DispatcherState<T> {
    /// Every thread is running and has nothing queued.
    pub open spec fn init() -> DispatcherState<T> {
        let idle = LaneState { queue: Seq::<T>::empty(), shut_down: false };
        DispatcherState { ui: idle, io: idle, renderer: idle }
    }

    /// The queue of `thread`.
    pub open spec fn lane(self, thread: ThreadId) -> LaneState<T> {
        match thread {
            ThreadId::UI => self.ui,
            ThreadId::IO => self.io,
            ThreadId::Renderer => self.renderer,
        }
    }

    /// The dispatcher with the queue of `thread` replaced.
    pub open spec fn with_lane(self, thread: ThreadId, lane: LaneState<T>) -> DispatcherState<T> {
        match thread {
            ThreadId::UI => DispatcherState { ui: lane, ..self },
            ThreadId::IO => DispatcherState { io: lane, ..self },
            ThreadId::Renderer => DispatcherState { renderer: lane, ..self },
        }
    }

    /// Work for `thread` is handed in by a caller on `current`.
    pub open spec fn run_on(self, current: ThreadId, thread: ThreadId, task: T) -> (
        DispatcherState<T>,
        Dispatch<T>,
    ) {
        if current == thread {
            (self, Dispatch::RunNow(task))
        } else if self.lane(thread).shut_down {
            (self, Dispatch::Dropped)
        } else {
            (
                self.with_lane(
                    thread,
                    LaneState { queue: self.lane(thread).queue.push(task), shut_down: false },
                ),
                Dispatch::Posted,
            )
        }
    }

    /// `thread` takes the oldest piece of work queued for it.
    pub open spec fn take_next(self, thread: ThreadId) -> (DispatcherState<T>, Option<T>) {
        let lane = self.lane(thread);
        if lane.queue.len() == 0 {
            (self, None)
        } else {
            (
                self.with_lane(
                    thread,
                    LaneState { queue: lane.queue.drop_first(), shut_down: lane.shut_down },
                ),
                Some(lane.queue[0]),
            )
        }
    }

    /// `thread` takes work `n` times; what it took, in the order of taking.
    pub open spec fn take_many(self, thread: ThreadId, n: nat) -> (DispatcherState<T>, Seq<T>)
        decreases n,
    {
        if n == 0 {
            (self, Seq::empty())
        } else {
            let (next, first) = self.take_next(thread);
            let (end, rest) = next.take_many(thread, (n - 1) as nat);
            match first {
                Some(t) => (end, seq![t] + rest),
                None => (end, rest),
            }
        }
    }

    /// `thread` shuts down: what was queued for it is dropped.
    pub open spec fn shut_down(self, thread: ThreadId) -> DispatcherState<T> {
        self.with_lane(thread, LaneState { queue: Seq::empty(), shut_down: true })
    }
}

/// One thread's queue.
struct Lane<T> {
    queue: VecDeque<T>,
    shut_down: bool,
}

impl<T> View for Lane<T> {
    type V = LaneState<T>;

    closed spec fn view(&self) -> LaneState<T> {
        LaneState { queue: self.queue@, shut_down: self.shut_down }
    }
}

/// The dispatcher: one queue for each logical thread.
pub struct ThreadAffinityDispatcher<T> {
    ui: Lane<T>,
    io: Lane<T>,
    renderer: Lane<T>,
}

impl<T> View for ThreadAffinityDispatcher<T> {
    type V = DispatcherState<T>;

    closed spec fn view(&self) -> DispatcherState<T> {
        DispatcherState { ui: self.ui@, io: self.io@, renderer: self.renderer@ }
    }
}

impl<T> ThreadAffinityDispatcher<T> {
    /// A dispatcher whose threads all run and have nothing queued.
    pub fn new() -> (r: ThreadAffinityDispatcher<T>)
        ensures
            r@ == DispatcherState::<T>::init(),
    {
        ThreadAffinityDispatcher {
            ui: Lane { queue: VecDeque::new(), shut_down: false },
            io: Lane { queue: VecDeque::new(), shut_down: false },
            renderer: Lane { queue: VecDeque::new(), shut_down: false },
        }
    }

    /// Hands in work for `thread`, from a caller that runs on `current`.
    ///
    /// A caller on `thread` gets the work back to run it at once. Otherwise
    /// the work goes behind whatever is queued for `thread` already, and the
    /// call returns; nothing of the work's result reaches the caller. Work for
    /// a thread that has shut down is dropped.
    pub fn run_on(&mut self, current: ThreadId, thread: ThreadId, task: T) -> (r: Dispatch<T>)
        ensures
            (final(self)@, r) == old(self)@.run_on(current, thread, task),
    {
        if current == thread {
            return Dispatch::RunNow(task);
        }
        match thread {
            ThreadId::UI => {
                if self.ui.shut_down {
                    return Dispatch::Dropped;
                }
                self.ui.queue.push_back(task);
            },
            ThreadId::IO => {
                if self.io.shut_down {
                    return Dispatch::Dropped;
                }
                self.io.queue.push_back(task);
            },
            ThreadId::Renderer => {
                if self.renderer.shut_down {
                    return Dispatch::Dropped;
                }
                self.renderer.queue.push_back(task);
            },
        }
        Dispatch::Posted
    }

    /// Takes the oldest piece of work queued for `thread`, for that thread to
    /// run it. `None` where nothing is queued.
    pub fn take_next(&mut self, thread: ThreadId) -> (r: Option<T>)
        ensures
            (final(self)@, r) == old(self)@.take_next(thread),
    {
        let r = match thread {
            ThreadId::UI => self.ui.queue.pop_front(),
            ThreadId::IO => self.io.queue.pop_front(),
            ThreadId::Renderer => self.renderer.queue.pop_front(),
        };
        assert(self@.lane(thread).queue =~= old(self)@.take_next(thread).0.lane(thread).queue);
        r
    }

    /// How many pieces of work are queued for `thread`.
    pub fn queued(&self, thread: ThreadId) -> (r: usize)
        ensures
            r == self@.lane(thread).queue.len(),
    {
        match thread {
            ThreadId::UI => self.ui.queue.len(),
            ThreadId::IO => self.io.queue.len(),
            ThreadId::Renderer => self.renderer.queue.len(),
        }
    }

    /// Whether `thread` has shut down.
    pub fn is_shut_down(&self, thread: ThreadId) -> (r: bool)
        ensures
            r == self@.lane(thread).shut_down,
    {
        match thread {
            ThreadId::UI => self.ui.shut_down,
            ThreadId::IO => self.io.shut_down,
            ThreadId::Renderer => self.renderer.shut_down,
        }
    }

    /// Records that `thread` has shut down. What was queued for it is dropped,
    /// and so is whatever is handed in for it later.
    pub fn shut_down(&mut self, thread: ThreadId)
        ensures
            final(self)@ == old(self)@.shut_down(thread),
    {
        match thread {
            ThreadId::UI => {
                self.ui.queue.clear();
                self.ui.shut_down = true;
            },
            ThreadId::IO => {
                self.io.queue.clear();
                self.io.shut_down = true;
            },
            ThreadId::Renderer => {
                self.renderer.queue.clear();
                self.renderer.shut_down = true;
            },
        }
    }
}

/// Taking as often as work is queued takes exactly the queued work, in the
/// order in which it was queued, and leaves the queue empty.
pub proof fn lemma_take_all<T>(s: DispatcherState<T>, thread: ThreadId)
    ensures
        s.take_many(thread, s.lane(thread).queue.len()).1 == s.lane(thread).queue,
        s.take_many(thread, s.lane(thread).queue.len()).0.lane(thread).queue.len() == 0,
    decreases s.lane(thread).queue.len(),
{
    let q = s.lane(thread).queue;
    if q.len() > 0 {
        let next = s.take_next(thread).0;
        assert(next.lane(thread).queue == q.drop_first());
        lemma_take_all(next, thread);
        assert(seq![q[0]] + q.drop_first() =~= q);
    }
}

/// Work posted to a running thread from another thread runs exactly once, and
/// after all the work that was queued for that thread before it: the thread,
/// taking as often as work is queued, takes the earlier work in its order and
/// then the posted work, and then nothing is left.
pub proof fn law_posted_work_runs_once_in_order<T>(
    s: DispatcherState<T>,
    current: ThreadId,
    thread: ThreadId,
    task: T,
)
    requires
        current != thread,
        !s.lane(thread).shut_down,
    ensures
        s.run_on(current, thread, task).1 == Dispatch::<T>::Posted,
        ({
            let posted = s.run_on(current, thread, task).0;
            let n = s.lane(thread).queue.len() + 1;
            &&& posted.take_many(thread, n as nat).1 == s.lane(thread).queue.push(task)
            &&& posted.take_many(thread, n as nat).0.lane(thread).queue.len() == 0
        }),
{
    let posted = s.run_on(current, thread, task).0;
    assert(posted.lane(thread).queue == s.lane(thread).queue.push(task));
    lemma_take_all(posted, thread);
}

/// Work handed in by a caller on the target thread is not queued: the caller
/// gets it back to run it, and the queues stay as they are.
pub proof fn law_work_on_own_thread_runs_now<T>(s: DispatcherState<T>, thread: ThreadId, task: T)
    ensures
        s.run_on(thread, thread, task) == (s, Dispatch::RunNow(task)),
{
}

/// Work posted to a thread that has shut down is dropped.
pub proof fn law_late_post_is_dropped<T>(
    s: DispatcherState<T>,
    current: ThreadId,
    thread: ThreadId,
    task: T,
)
    requires
        current != thread,
    ensures
        s.shut_down(thread).run_on(current, thread, task) == (
            s.shut_down(thread),
            Dispatch::<T>::Dropped,
        ),
{
}

} // verus!
