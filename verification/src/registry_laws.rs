//! What holds of every run of a query registry: ids issued to one context
//! strictly increase, and once a query has ended nothing fires for it again.
use vstd::prelude::*;
use crate::ids::{ContextRef, HandlerId, QueryId};
use crate::query_registry::{
    lemma_filter_keeps_wf, lemma_filter_origin, lemma_selection_split, PendingQuery, RegistryState,
    Selection,
};

verus! {

/// One operation of the side that issues queries.
pub enum RegistryOp {
    Allocate { context: ContextRef, persistent: bool },
    Complete { context: ContextRef, id: QueryId, terminal: bool },
    Cancel { context: ContextRef, id: QueryId },
    CancelAll { context: ContextRef },
}

/// What an operation hands back to its caller.
pub enum RegistryEvent {
    /// A new id.
    Issued { context: ContextRef, id: QueryId },
    /// A reply to deliver to the query's continuation. The query is marked
    /// completed where this reply was its last.
    Replied(PendingQuery),
    /// A query that its own caller cancelled: no continuation is invoked.
    Dropped(PendingQuery),
    /// Queries whose cancellation continuation is to be invoked.
    Cancelled(Seq<PendingQuery>),
    /// Nothing: the operation named a query that is not outstanding.
    Ignored,
}

/// `q` is the query `id` of `context`.
pub open spec fn is_query(q: PendingQuery, context: ContextRef, id: QueryId) -> bool {
    q.context_ref == context && q.id == id
}

impl RegistryEvent {
    /// The event is about the query `id` of `context`.
    pub open spec fn concerns(self, context: ContextRef, id: QueryId) -> bool {
        match self {
            RegistryEvent::Issued { context: c, id: i } => c == context && i == id,
            RegistryEvent::Replied(q) => is_query(q, context, id),
            RegistryEvent::Dropped(q) => is_query(q, context, id),
            RegistryEvent::Cancelled(qs) => exists|k: int|
                0 <= k < qs.len() && is_query(#[trigger] qs[k], context, id),
            RegistryEvent::Ignored => false,
        }
    }

    /// The event ends the query `id` of `context`: its last reply, or its
    /// cancellation.
    pub open spec fn ends(self, context: ContextRef, id: QueryId) -> bool {
        match self {
            RegistryEvent::Replied(q) => is_query(q, context, id) && q.completed,
            RegistryEvent::Dropped(q) => is_query(q, context, id),
            RegistryEvent::Cancelled(qs) => exists|k: int|
                0 <= k < qs.len() && is_query(#[trigger] qs[k], context, id),
            _ => false,
        }
    }
}

impl RegistryState {
    /// The state after `op`, and what `op` hands back.
    pub open spec fn step(self, op: RegistryOp) -> (RegistryState, RegistryEvent) {
        match op {
            RegistryOp::Allocate { context, persistent } => {
                let (next, id) = self.allocate(context, persistent);
                (next, RegistryEvent::Issued { context, id })
            },
            RegistryOp::Complete { context, id, terminal } => {
                let (next, r) = self.complete(context, id, terminal);
                match r {
                    Some(q) => (next, RegistryEvent::Replied(q)),
                    None => (next, RegistryEvent::Ignored),
                }
            },
            RegistryOp::Cancel { context, id } => {
                let (next, r) = self.cancel(context, id);
                match r {
                    Some(q) => (next, RegistryEvent::Dropped(q)),
                    None => (next, RegistryEvent::Ignored),
                }
            },
            RegistryOp::CancelAll { context } => {
                let (next, qs) = self.cancel_all(context);
                (next, RegistryEvent::Cancelled(qs))
            },
        }
    }

    /// The state after the operations `ops` in turn, and what each handed back.
    pub open spec fn run(self, ops: Seq<RegistryOp>) -> (RegistryState, Seq<RegistryEvent>)
        decreases ops.len(),
    {
        if ops.len() == 0 {
            (self, Seq::empty())
        } else {
            let (mid, events) = self.run(ops.drop_last());
            let (end, event) = mid.step(ops.last());
            (end, events.push(event))
        }
    }

    /// Every context can be issued `n` more ids.
    pub open spec fn has_room(self, n: nat) -> bool {
        forall|c: ContextRef| self.last_issued(c) + n <= u64::MAX
    }

    /// The query `id` of `context` was issued and is no longer outstanding.
    pub open spec fn spent(self, context: ContextRef, id: QueryId) -> bool {
        id <= self.last_issued(context) && !self.holds(context, id)
    }
}

/// What one operation does to the last id of a context and to a query.
proof fn lemma_step(s: RegistryState, op: RegistryOp, context: ContextRef, id: QueryId)
    requires
        s.wf(),
        s.has_room(1),
    ensures
        s.step(op).0.wf(),
        s.last_issued(context) <= s.step(op).0.last_issued(context) <= s.last_issued(context) + 1,
        s.step(op).1 matches RegistryEvent::Issued { context: c, id: a } ==> c == context ==> a
            == s.last_issued(context) + 1 && a == s.step(op).0.last_issued(context),
        s.spent(context, id) ==> s.step(op).0.spent(context, id) && !s.step(op).1.concerns(
            context,
            id,
        ),
        s.step(op).1.ends(context, id) ==> s.step(op).0.spent(context, id),
{
    let (next, event) = s.step(op);
    match op {
        RegistryOp::Allocate { context: c, persistent } => {
            assert(s.last_issued(c) + 1 <= u64::MAX);
            let a = (s.last_issued(c) + 1) as QueryId;
            assert forall|i: int| next.is_at(i, context, id) implies s.is_at(i, context, id) || (c
                == context && a == id) by {}
            assert forall|i: int, j: int| 0 <= i < j < next.pending.len() implies (
            #[trigger] next.pending[i]).context_ref != (#[trigger] next.pending[j]).context_ref
                || next.pending[i].id != next.pending[j].id by {
                if j == s.pending.len() {
                    assert(s.pending[i].id <= s.last_issued(s.pending[i].context_ref));
                }
            }
            assert forall|i: int| 0 <= i < next.pending.len() implies !(
            #[trigger] next.pending[i]).completed && next.pending[i].id <= next.last_issued(
                next.pending[i].context_ref,
            ) by {
                if i < s.pending.len() {
                    assert(s.pending[i].id <= s.last_issued(s.pending[i].context_ref));
                }
            }
        },
        RegistryOp::Complete { context: c, id: k, terminal } => {
            if s.holds(c, k) {
                let p = s.position(c, k);
                assert(s.is_at(p, c, k));
                if !s.pending[p].persistent || terminal {
                    lemma_remove(s, p, context, id);
                }
            }
        },
        RegistryOp::Cancel { context: c, id: k } => {
            if s.holds(c, k) {
                let p = s.position(c, k);
                assert(s.is_at(p, c, k));
                lemma_remove(s, p, context, id);
            }
        },
        RegistryOp::CancelAll { context: c } => {
            let sel = Selection::Context(c);
            let taken = |q: PendingQuery| sel.takes(q);
            let left = |q: PendingQuery| !sel.takes(q);
            lemma_filter_keeps_wf(s, left);
            let m = lemma_filter_origin(s.pending, left);
            let t = lemma_filter_origin(s.pending, taken);
            let qs = s.pending.filter(taken);
            assert forall|i: int| next.is_at(i, context, id) implies s.is_at(m[i], context, id)
                && c != context by {
                assert(next.pending[i] == s.pending[m[i]]);
                s.pending.lemma_filter_pred(left, i);
            }
            if event.concerns(context, id) {
                let k = choose|k: int| 0 <= k < qs.len() && is_query(#[trigger] qs[k], context, id);
                assert(qs[k] == s.pending[t[k]]);
                assert(s.is_at(t[k], context, id));
                s.pending.lemma_filter_pred(taken, k);
                assert(c == context);
                assert(s.pending[t[k]].id <= s.last_issued(context));
            }
        },
    }
}

/// Taking the entry at `p` out of a well-formed registry leaves it
/// well-formed, with the removed query no longer outstanding and no other
/// query newly outstanding.
pub proof fn lemma_remove(s: RegistryState, p: int, context: ContextRef, id: QueryId)
    requires
        s.wf(),
        0 <= p < s.pending.len(),
    ensures
        (RegistryState { pending: s.pending.remove(p), last_id: s.last_id }).wf(),
        (RegistryState { pending: s.pending.remove(p), last_id: s.last_id }).holds(context, id)
            ==> s.holds(context, id) && !is_query(s.pending[p], context, id),
        s.pending[p].id <= s.last_issued(s.pending[p].context_ref),
{
    let next = RegistryState { pending: s.pending.remove(p), last_id: s.last_id };
    assert forall|i: int| 0 <= i < next.pending.len() implies next.pending[i] == s.pending[if i
        < p {
        i
    } else {
        i + 1
    }] by {}
    assert forall|i: int| 0 <= i < next.pending.len() implies !(
    #[trigger] next.pending[i]).completed && next.pending[i].id <= next.last_issued(
        next.pending[i].context_ref,
    ) by {
        let k = if i < p {
            i
        } else {
            i + 1
        };
        assert(next.pending[i] == s.pending[k]);
    }
    assert forall|i: int, j: int| 0 <= i < j < next.pending.len() implies (
    #[trigger] next.pending[i]).context_ref != (#[trigger] next.pending[j]).context_ref
        || next.pending[i].id != next.pending[j].id by {
        let k = if i < p {
            i
        } else {
            i + 1
        };
        let l = if j < p {
            j
        } else {
            j + 1
        };
        assert(next.pending[i] == s.pending[k]);
        assert(next.pending[j] == s.pending[l]);
    }
    if next.holds(context, id) {
        let i = choose|i: int| next.is_at(i, context, id);
        let k = if i < p {
            i
        } else {
            i + 1
        };
        assert(next.pending[i] == s.pending[k]);
        assert(s.is_at(k, context, id));
        if k < p {
            assert(s.pending[k].context_ref != s.pending[p].context_ref || s.pending[k].id
                != s.pending[p].id);
        } else {
            assert(s.pending[p].context_ref != s.pending[k].context_ref || s.pending[p].id
                != s.pending[k].id);
        }
    }
    assert(s.pending[p].id <= s.last_issued(s.pending[p].context_ref));
}

/// What a run does, stated for induction over its length.
proof fn lemma_run(s: RegistryState, ops: Seq<RegistryOp>, context: ContextRef, id: QueryId)
    requires
        s.wf(),
        s.has_room(ops.len()),
    ensures
        s.run(ops).0.wf(),
        s.run(ops).1.len() == ops.len(),
        s.last_issued(context) <= s.run(ops).0.last_issued(context) <= s.last_issued(context)
            + ops.len(),
        forall|i: int|
            0 <= i < ops.len() ==> (#[trigger] s.run(ops).1[i] matches RegistryEvent::Issued {
                context: c,
                id: a,
            } ==> c == context ==> s.last_issued(context) < a <= s.run(ops).0.last_issued(context)),
        forall|i: int, j: int|
            0 <= i < j < ops.len() ==> (#[trigger] s.run(ops).1[i] matches RegistryEvent::Issued {
                context: c,
                id: a,
            } ==> (#[trigger] s.run(ops).1[j] matches RegistryEvent::Issued { context: d, id: b }
                ==> c == d ==> a < b)),
        s.spent(context, id) || (exists|i: int|
            0 <= i < ops.len() && (#[trigger] s.run(ops).1[i]).ends(context, id)) ==> s.run(
            ops,
        ).0.spent(context, id),
        s.spent(context, id) ==> forall|j: int|
            0 <= j < ops.len() ==> !(#[trigger] s.run(ops).1[j]).concerns(context, id),
        forall|i: int, j: int|
            0 <= i < j < ops.len() && (#[trigger] s.run(ops).1[i]).ends(context, id) ==> !(
            #[trigger] s.run(ops).1[j]).concerns(context, id),
    decreases ops.len(),
{
    if ops.len() > 0 {
        let front = ops.drop_last();
        let (mid, events) = s.run(front);
        let (end, event) = mid.step(ops.last());
        assert(s.has_room(front.len())) by {
            assert forall|c: ContextRef| s.last_issued(c) + front.len() <= u64::MAX by {
                assert(s.last_issued(c) + ops.len() <= u64::MAX);
            }
        }
        lemma_run(s, front, context, id);
        assert(mid.has_room(1)) by {
            assert forall|c: ContextRef| mid.last_issued(c) + 1 <= u64::MAX by {
                lemma_run(s, front, c, id);
                assert(s.last_issued(c) + ops.len() <= u64::MAX);
            }
        }
        lemma_step(mid, ops.last(), context, id);
        let all = events.push(event);
        assert(s.run(ops).1 == all);
        assert forall|i: int| 0 <= i < front.len() implies all[i] == events[i] by {}
        if exists|i: int| 0 <= i < ops.len() && (#[trigger] all[i]).ends(context, id) {
            let i = choose|i: int| 0 <= i < ops.len() && (#[trigger] all[i]).ends(context, id);
            if i < front.len() {
                assert(events[i].ends(context, id));
            }
        }
        assert forall|i: int, j: int|
            0 <= i < j < ops.len() && (#[trigger] all[i]).ends(context, id) implies !(
        #[trigger] all[j]).concerns(context, id) by {
            assert(events[i].ends(context, id));
            if j < front.len() {
                assert(all[j] == events[j]);
            }
        }
        assert forall|i: int, j: int| 0 <= i < j < ops.len() implies (
        #[trigger] all[i] matches RegistryEvent::Issued { context: c, id: a } ==> (
        #[trigger] all[j] matches RegistryEvent::Issued { context: d, id: b } ==> c == d ==> a
            < b)) by {
            if let RegistryEvent::Issued { context: c, id: a } = all[i] {
                if let RegistryEvent::Issued { context: d, id: b } = all[j] {
                    if c == d {
                        lemma_run(s, front, c, id);
                        lemma_step(mid, ops.last(), c, id);
                        assert(all[i] == events[i]);
                        if j < front.len() {
                            assert(all[j] == events[j]);
                        }
                    }
                }
            }
        }
    }
}

/// Ids issued to one context strictly increase, and so none is issued twice:
/// in every run, an id issued to a context is greater than every id issued to
/// that context earlier in the run, whatever else happened in between.
pub proof fn law_issued_ids_increase(
    s: RegistryState,
    ops: Seq<RegistryOp>,
    i: int,
    j: int,
    context: ContextRef,
    first: QueryId,
    second: QueryId,
)
    requires
        s.wf(),
        s.has_room(ops.len()),
        0 <= i < j < ops.len(),
        s.run(ops).1[i] == (RegistryEvent::Issued { context, id: first }),
        s.run(ops).1[j] == (RegistryEvent::Issued { context, id: second }),
    ensures
        first < second,
        s.last_issued(context) < first,
{
    lemma_run(s, ops, context, first);
}

/// Once a query has ended, by its last reply or by a cancellation, no later
/// operation hands anything back for it: nothing fires for a query after its
/// end, in any run.
pub proof fn law_nothing_fires_after_the_end(
    s: RegistryState,
    ops: Seq<RegistryOp>,
    i: int,
    j: int,
    context: ContextRef,
    id: QueryId,
)
    requires
        s.wf(),
        s.has_room(ops.len()),
        0 <= i < j < ops.len(),
        s.run(ops).1[i].ends(context, id),
    ensures
        !s.run(ops).1[j].concerns(context, id),
        !s.run(ops).1[j].ends(context, id),
{
    lemma_run(s, ops, context, id);
}

/// A reply that arrives after the queries of its context were cancelled is
/// ignored: the registry stays as it is and nothing is handed back.
pub proof fn law_complete_after_cancel_all_is_ignored(
    s: RegistryState,
    context: ContextRef,
    id: QueryId,
    terminal: bool,
)
    requires
        s.wf(),
    ensures
        s.cancel_all(context).0.complete(context, id, terminal) == (
            s.cancel_all(context).0,
            None::<PendingQuery>,
        ),
        s.cancel_all(context).0.of_context(context).len() == 0,
{
    let sel = Selection::Context(context);
    let left = |q: PendingQuery| !sel.takes(q);
    let next = s.cancel_all(context).0;
    assert forall|i: int| !next.is_at(i, context, id) by {
        if 0 <= i < next.pending.len() {
            s.pending.lemma_filter_pred(left, i);
        }
    }
    let taken = |q: PendingQuery| sel.takes(q);
    let rest = next.pending.filter(taken);
    if rest.len() > 0 {
        let m = lemma_filter_origin(next.pending, taken);
        next.pending.lemma_filter_pred(taken, 0);
        assert(rest[0] == next.pending[m[0]]);
        s.pending.lemma_filter_pred(left, m[0]);
    }
}

/// A reply that arrives after the last reply to its query is ignored.
pub proof fn law_complete_after_the_end_is_ignored(
    s: RegistryState,
    context: ContextRef,
    id: QueryId,
    terminal: bool,
    late: bool,
)
    requires
        s.wf(),
        s.complete(context, id, terminal).1 matches Some(q) && q.completed,
    ensures
        s.complete(context, id, terminal).0.complete(context, id, late) == (
            s.complete(context, id, terminal).0,
            None::<PendingQuery>,
        ),
{
    let p = s.position(context, id);
    assert(s.is_at(p, context, id));
    lemma_remove(s, p, context, id);
}

/// Recording a query that came from the peer keeps the registry well-formed
/// and makes the query outstanding, as the last entry.
pub proof fn lemma_track(
    s: RegistryState,
    context: ContextRef,
    id: QueryId,
    persistent: bool,
    handler: HandlerId,
)
    requires
        s.wf(),
        !s.holds(context, id),
    ensures
        s.track(context, id, persistent, handler).wf(),
        s.track(context, id, persistent, handler).holds(context, id),
        s.track(context, id, persistent, handler).position(context, id) == s.pending.len(),
{
    let next = s.track(context, id, persistent, handler);
    let n = s.pending.len() as int;
    assert(next.is_at(n, context, id));
    assert forall|i: int| 0 <= i < n implies !is_query(#[trigger] next.pending[i], context, id) by {
        assert(!s.is_at(i, context, id));
        assert(next.pending[i] == s.pending[i]);
    }
    assert forall|i: int| 0 <= i < next.pending.len() implies !(
    #[trigger] next.pending[i]).completed && next.pending[i].id <= next.last_issued(
        next.pending[i].context_ref,
    ) by {
        if i < n {
            assert(next.pending[i] == s.pending[i]);
            assert(s.pending[i].id <= s.last_issued(s.pending[i].context_ref));
        }
    }
    let p = next.position(context, id);
    assert(next.is_at(p, context, id));
    if p < n {
        assert(is_query(next.pending[p], context, id));
    }
}

/// Issuing an id keeps the registry well-formed and makes the new query
/// outstanding, as the last entry.
pub proof fn lemma_allocate(s: RegistryState, context: ContextRef, persistent: bool)
    requires
        s.wf(),
        s.last_issued(context) < u64::MAX,
    ensures
        s.allocate(context, persistent).0.wf(),
        s.allocate(context, persistent).1 == s.last_issued(context) + 1,
        !s.holds(context, s.allocate(context, persistent).1),
        s.allocate(context, persistent).0.holds(context, s.allocate(context, persistent).1),
        s.allocate(context, persistent).0.position(context, s.allocate(context, persistent).1)
            == s.pending.len(),
{
    let (next, id) = s.allocate(context, persistent);
    let n = s.pending.len() as int;
    assert forall|i: int| 0 <= i < n implies !is_query(#[trigger] s.pending[i], context, id) by {
        assert(s.pending[i].id <= s.last_issued(s.pending[i].context_ref));
    }
    assert(next.is_at(n, context, id));
    assert forall|i: int| 0 <= i < next.pending.len() implies !(
    #[trigger] next.pending[i]).completed && next.pending[i].id <= next.last_issued(
        next.pending[i].context_ref,
    ) by {
        if i < n {
            assert(next.pending[i] == s.pending[i]);
            assert(s.pending[i].id <= s.last_issued(s.pending[i].context_ref));
        }
    }
    assert forall|i: int, j: int| 0 <= i < j < next.pending.len() implies (
    #[trigger] next.pending[i]).context_ref != (#[trigger] next.pending[j]).context_ref
        || next.pending[i].id != next.pending[j].id by {
        if j == n {
            assert(next.pending[i] == s.pending[i]);
            assert(!is_query(s.pending[i], context, id));
        }
    }
    let p = next.position(context, id);
    assert(next.is_at(p, context, id));
    if p < n {
        assert(next.pending[p] == s.pending[p]);
        assert(!is_query(s.pending[p], context, id));
    }
}

/// A persistent query outlives every reply that is not terminal: such a
/// reply hands the query on, not completed, and leaves the registry as it is.
/// Its terminal reply, and any reply to a query that is not persistent, hands
/// the query on as completed and takes it out of the table.
pub proof fn law_replies_end_a_query_only_when_last(
    s: RegistryState,
    context: ContextRef,
    id: QueryId,
    terminal: bool,
)
    requires
        s.wf(),
        s.holds(context, id),
    ensures
        ({
            let q = s.pending[s.position(context, id)];
            let last = !q.persistent || terminal;
            let (next, handed) = s.complete(context, id, terminal);
            &&& handed == Some(PendingQuery { completed: last, ..q })
            &&& is_query(q, context, id)
            &&& !last ==> next == s
            &&& last ==> !next.holds(context, id) && next.pending.len() == s.pending.len() - 1
            &&& next.wf()
        }),
{
    let p = s.position(context, id);
    assert(s.is_at(p, context, id));
    lemma_remove(s, p, context, id);
}

/// Cancelling a context takes exactly the queries of that context, each once
/// and in their order, and leaves the queries of every other context where
/// they are.
pub proof fn law_cancel_all_takes_the_context(s: RegistryState, context: ContextRef)
    requires
        s.wf(),
    ensures
        ({
            let (next, cancelled) = s.cancel_all(context);
            &&& next.wf()
            &&& cancelled == s.of_context(context)
            &&& cancelled.len() + next.pending.len() == s.pending.len()
            &&& forall|k: int|
                0 <= k < cancelled.len() ==> (#[trigger] cancelled[k]).context_ref == context
                    && s.holds(context, cancelled[k].id)
            &&& forall|k: int|
                0 <= k < next.pending.len() ==> (#[trigger] next.pending[k]).context_ref
                    != context
            &&& forall|c: ContextRef, i: QueryId|
                c != context ==> next.holds(c, i) == s.holds(c, i)
            &&& forall|i: QueryId| !next.holds(context, i)
        }),
{
    let sel = Selection::Context(context);
    let taken = |q: PendingQuery| sel.takes(q);
    let left = |q: PendingQuery| !sel.takes(q);
    let (next, cancelled) = s.cancel_all(context);
    lemma_filter_keeps_wf(s, left);
    let m = lemma_filter_origin(s.pending, left);
    let t = lemma_filter_origin(s.pending, taken);
    lemma_selection_split(s.pending, sel);
    assert forall|k: int| 0 <= k < cancelled.len() implies (#[trigger] cancelled[k]).context_ref
        == context && s.holds(context, cancelled[k].id) by {
        s.pending.lemma_filter_pred(taken, k);
        assert(cancelled[k] == s.pending[t[k]]);
        assert(s.is_at(t[k], context, cancelled[k].id));
    }
    assert forall|k: int| 0 <= k < next.pending.len() implies (
    #[trigger] next.pending[k]).context_ref != context by {
        s.pending.lemma_filter_pred(left, k);
    }
    assert forall|c: ContextRef, i: QueryId| c != context implies next.holds(c, i) == s.holds(
        c,
        i,
    ) by {
        if next.holds(c, i) {
            let k = choose|k: int| next.is_at(k, c, i);
            assert(next.pending[k] == s.pending[m[k]]);
            assert(s.is_at(m[k], c, i));
        }
        if s.holds(c, i) {
            let k = choose|k: int| s.is_at(k, c, i);
            assert(left(s.pending[k]));
            s.pending.lemma_filter_contains(left, k);
            let l = choose|l: int| 0 <= l < next.pending.len() && next.pending[l] == s.pending[k];
            assert(next.is_at(l, c, i));
        }
    }
    assert forall|i: QueryId| !next.holds(context, i) by {
        if next.holds(context, i) {
            let k = choose|k: int| next.is_at(k, context, i);
            assert(next.pending[k].context_ref != context);
        }
    }
}

/// Taking the entry at `p` out of a well-formed registry leaves every other
/// query outstanding.
pub proof fn lemma_remove_keeps_others(s: RegistryState, p: int, context: ContextRef, id: QueryId)
    requires
        s.wf(),
        0 <= p < s.pending.len(),
        s.holds(context, id),
        !is_query(s.pending[p], context, id),
    ensures
        (RegistryState { pending: s.pending.remove(p), last_id: s.last_id }).holds(context, id),
{
    let next = RegistryState { pending: s.pending.remove(p), last_id: s.last_id };
    let k = choose|k: int| s.is_at(k, context, id);
    let l = if k < p {
        k
    } else {
        k - 1
    };
    assert(next.pending[l] == s.pending[k]);
    assert(next.is_at(l, context, id));
}

/// No query leaves the table unheard. Whenever an operation takes a query out
/// of the table, what the operation hands back names that query as ended: as
/// answered for the last time, as dropped by its own caller, or among the
/// cancelled. A query never vanishes in silence.
pub proof fn law_no_query_leaves_unheard(
    s: RegistryState,
    op: RegistryOp,
    context: ContextRef,
    id: QueryId,
)
    requires
        s.wf(),
        s.holds(context, id),
        !s.step(op).0.holds(context, id),
    ensures
        s.step(op).1.ends(context, id),
{
    let (next, event) = s.step(op);
    let k = choose|k: int| s.is_at(k, context, id);
    assert(s.is_at(k, context, id));
    match op {
        RegistryOp::Allocate { context: c, persistent } => {
            assert(next.pending[k] == s.pending[k]);
            assert(next.is_at(k, context, id));
        },
        RegistryOp::Complete { context: c, id: i, terminal } => {
            if s.holds(c, i) {
                let p = s.position(c, i);
                assert(s.is_at(p, c, i));
                if !is_query(s.pending[p], context, id) {
                    if !s.pending[p].persistent || terminal {
                        lemma_remove_keeps_others(s, p, context, id);
                    }
                }
            }
        },
        RegistryOp::Cancel { context: c, id: i } => {
            if s.holds(c, i) {
                let p = s.position(c, i);
                assert(s.is_at(p, c, i));
                if !is_query(s.pending[p], context, id) {
                    lemma_remove_keeps_others(s, p, context, id);
                }
            }
        },
        RegistryOp::CancelAll { context: c } => {
            let sel = Selection::Context(c);
            let taken = |q: PendingQuery| sel.takes(q);
            let left = |q: PendingQuery| !sel.takes(q);
            if left(s.pending[k]) {
                s.pending.lemma_filter_contains(left, k);
                let l = choose|l: int|
                    0 <= l < next.pending.len() && next.pending[l] == s.pending[k];
                assert(next.is_at(l, context, id));
            } else {
                assert(taken(s.pending[k]));
                s.pending.lemma_filter_contains(taken, k);
                let cancelled = s.pending.filter(taken);
                assert(cancelled.contains(s.pending[k]));
                let l = choose|l: int| 0 <= l < cancelled.len() && cancelled[l] == s.pending[k];
                assert(is_query(cancelled[l], context, id));
                assert(event->Cancelled_0 == cancelled);
            }
        },
    }
}

} // verus!
