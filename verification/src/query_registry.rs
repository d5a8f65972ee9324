//! The table of outstanding queries, kept per context.
//!
//! [`RegistryState`] is the mathematical model: the outstanding queries in the
//! order in which they were recorded, and the last id issued to each context.
//! Every operation of [`QueryRegistry`] is stated as a step of that model.
use std::collections::HashMap;
use vstd::prelude::*;
use crate::ids::{ContextRef, HandlerId, QueryId};

verus! {

broadcast use vstd::std_specs::hash::group_hash_axioms;

/// One outstanding query.
#[derive(Clone, Copy, Debug, PartialEq, Eq)]
pub struct PendingQuery {
    pub id: QueryId,
    pub context_ref: ContextRef,
    /// A persistent query stays outstanding after a reply that is not terminal.
    pub persistent: bool,
    /// The handler that claimed the query, on the side that knows handlers.
    pub handler: Option<HandlerId>,
    /// False while the query is in the table. In a record handed back by the
    /// registry, true says that the reply just recorded ended the query.
    pub completed: bool,
}

/// Which outstanding queries a cancellation takes.
#[derive(Clone, Debug)]
pub enum Selector {
    /// Those of one context.
    Context(ContextRef),
    /// Those of any of several contexts.
    Contexts(Vec<ContextRef>),
    /// Those claimed by one handler.
    Handler(HandlerId),
    /// All of them.
    All,
}

/// A selector, in contracts.
pub enum Selection {
    Context(ContextRef),
    Contexts(Seq<ContextRef>),
    Handler(HandlerId),
    All,
}

impl View for Selector {
    type V = Selection;

    open spec fn view(&self) -> Selection {
        match self {
            Selector::Context(c) => Selection::Context(*c),
            Selector::Contexts(cs) => Selection::Contexts(cs@),
            Selector::Handler(h) => Selection::Handler(*h),
            Selector::All => Selection::All,
        }
    }
}

impl Selection {
    /// Whether the selection takes `q`.
    pub open spec fn takes(self, q: PendingQuery) -> bool {
        match self {
            Selection::Context(c) => q.context_ref == c,
            Selection::Contexts(cs) => cs.contains(q.context_ref),
            Selection::Handler(h) => q.handler == Some(h),
            Selection::All => true,
        }
    }
}

impl Selector {
    /// Whether the selector takes `q`.
    pub fn selects(&self, q: &PendingQuery) -> (r: bool)
        ensures
            r == self@.takes(*q),
    {
        match self {
            Selector::Context(c) => q.context_ref == *c,
            Selector::Contexts(cs) => {
                let mut i: usize = 0;
                while i < cs.len()
                    invariant
                        i <= cs.len(),
                        self@ == Selection::Contexts(cs@),
                        forall|k: int| 0 <= k < i ==> cs@[k] != q.context_ref,
                    decreases cs.len() - i,
                {
                    if cs[i] == q.context_ref {
                        assert(cs@[i as int] == q.context_ref);
                        return true;
                    }
                    i += 1;
                }
                false
            },
            Selector::Handler(h) => match q.handler {
                Some(g) => g == *h,
                None => false,
            },
            Selector::All => true,
        }
    }
}

/// The model of a registry.
pub struct RegistryState {
    /// The outstanding queries, oldest first.
    pub pending: Seq<PendingQuery>,
    /// The last id issued to, or seen from, each context that has had one.
    pub last_id: Map<ContextRef, QueryId>,
}

impl RegistryState {
    /// The registry with no query and no id issued.
    pub open spec fn empty() -> RegistryState {
        RegistryState { pending: Seq::empty(), last_id: Map::empty() }
    }

    /// The last id issued to `context`, 0 before the first.
    pub open spec fn last_issued(self, context: ContextRef) -> nat {
        if self.last_id.contains_key(context) {
            self.last_id[context] as nat
        } else {
            0
        }
    }

    /// The entry at position `i` is the query `id` of `context`.
    pub open spec fn is_at(self, i: int, context: ContextRef, id: QueryId) -> bool {
        &&& 0 <= i < self.pending.len()
        &&& self.pending[i].context_ref == context
        &&& self.pending[i].id == id
    }

    /// The query `id` of `context` is outstanding.
    pub open spec fn holds(self, context: ContextRef, id: QueryId) -> bool {
        exists|i: int| self.is_at(i, context, id)
    }

    /// Where the query `id` of `context` stands among the outstanding ones.
    pub open spec fn position(self, context: ContextRef, id: QueryId) -> int {
        choose|i: int| self.is_at(i, context, id)
    }

    /// The outstanding queries that `sel` takes, oldest first.
    pub open spec fn selected(self, sel: Selection) -> Seq<PendingQuery> {
        self.pending.filter(|q: PendingQuery| sel.takes(q))
    }

    /// The outstanding queries of `context`, oldest first.
    pub open spec fn of_context(self, context: ContextRef) -> Seq<PendingQuery> {
        self.selected(Selection::Context(context))
    }

    /// No query is recorded twice, none is marked completed, and no id is
    /// beyond the last one of its context.
    pub open spec fn wf(self) -> bool {
        &&& forall|i: int|
            0 <= i < self.pending.len() ==> {
                &&& !(#[trigger] self.pending[i]).completed
                &&& self.pending[i].id <= self.last_issued(self.pending[i].context_ref)
            }
        &&& forall|i: int, j: int|
            0 <= i < j < self.pending.len() ==> {
                ||| (#[trigger] self.pending[i]).context_ref != (#[trigger] self.pending[j]).context_ref
                ||| self.pending[i].id != self.pending[j].id
            }
    }

    /// Issues the next id of `context` and records the query.
    pub open spec fn allocate(self, context: ContextRef, persistent: bool) -> (
        RegistryState,
        QueryId,
    ) {
        let id = (self.last_issued(context) + 1) as QueryId;
        let q = PendingQuery {
            id,
            context_ref: context,
            persistent,
            handler: None,
            completed: false,
        };
        (
            RegistryState {
                pending: self.pending.push(q),
                last_id: self.last_id.insert(context, id),
            },
            id,
        )
    }

    /// Records a query whose id was issued elsewhere, as claimed by `handler`.
    /// Nothing changes where the query is outstanding already.
    pub open spec fn track(
        self,
        context: ContextRef,
        id: QueryId,
        persistent: bool,
        handler: HandlerId,
    ) -> RegistryState {
        if self.holds(context, id) {
            self
        } else {
            let q = PendingQuery {
                id,
                context_ref: context,
                persistent,
                handler: Some(handler),
                completed: false,
            };
            let last = if id > self.last_issued(context) {
                id
            } else {
                self.last_issued(context) as QueryId
            };
            RegistryState {
                pending: self.pending.push(q),
                last_id: self.last_id.insert(context, last),
            }
        }
    }

    /// Records a reply to the query `id` of `context`. An unknown query changes
    /// nothing and gives `None`. A known one is handed back; it leaves the
    /// table, and is marked completed, unless it is persistent and the reply
    /// is not terminal.
    pub open spec fn complete(self, context: ContextRef, id: QueryId, terminal: bool) -> (
        RegistryState,
        Option<PendingQuery>,
    ) {
        if self.holds(context, id) {
            let i = self.position(context, id);
            let q = self.pending[i];
            if !q.persistent || terminal {
                (
                    RegistryState { pending: self.pending.remove(i), last_id: self.last_id },
                    Some(PendingQuery { completed: true, ..q }),
                )
            } else {
                (self, Some(q))
            }
        } else {
            (self, None)
        }
    }

    /// Takes the query `id` of `context` out of the table and hands it back;
    /// an unknown query changes nothing and gives `None`.
    pub open spec fn cancel(self, context: ContextRef, id: QueryId) -> (
        RegistryState,
        Option<PendingQuery>,
    ) {
        if self.holds(context, id) {
            let i = self.position(context, id);
            (
                RegistryState { pending: self.pending.remove(i), last_id: self.last_id },
                Some(self.pending[i]),
            )
        } else {
            (self, None)
        }
    }

    /// Takes out every query that `sel` takes and hands them back, oldest first.
    pub open spec fn cancel_selected(self, sel: Selection) -> (RegistryState, Seq<PendingQuery>) {
        (
            RegistryState {
                pending: self.pending.filter(|q: PendingQuery| !sel.takes(q)),
                last_id: self.last_id,
            },
            self.selected(sel),
        )
    }

    /// Takes out every query of `context` and hands them back, oldest first.
    pub open spec fn cancel_all(self, context: ContextRef) -> (RegistryState, Seq<PendingQuery>) {
        self.cancel_selected(Selection::Context(context))
    }
}

/// The table of outstanding queries of one router.
pub struct QueryRegistry {
    pending: Vec<PendingQuery>,
    last_id: HashMap<ContextRef, QueryId>,
}

impl View for QueryRegistry {
    type V = RegistryState;

    closed spec fn view(&self) -> RegistryState {
        RegistryState { pending: self.pending@, last_id: self.last_id@ }
    }
}

impl QueryRegistry {
    /// The registry's invariant: that of its model.
    pub open spec fn wf(&self) -> bool {
        self@.wf()
    }

    /// A registry with no query and no id issued.
    pub fn new() -> (r: QueryRegistry)
        ensures
            r.wf(),
            r@ == RegistryState::empty(),
    {
        QueryRegistry { pending: Vec::new(), last_id: HashMap::new() }
    }

    /// The last id issued to `context`, 0 before the first.
    pub fn last_issued(&self, context: ContextRef) -> (r: QueryId)
        ensures
            r == self@.last_issued(context),
    {
        match self.last_id.get(&context) {
            Some(v) => *v,
            None => 0,
        }
    }

    /// Whether `context` can be issued another id.
    pub fn can_allocate(&self, context: ContextRef) -> (r: bool)
        ensures
            r == (self@.last_issued(context) < u64::MAX),
    {
        self.last_issued(context) < u64::MAX
    }

    /// How many queries are outstanding.
    pub fn len(&self) -> (r: usize)
        ensures
            r == self@.pending.len(),
    {
        self.pending.len()
    }

    /// Whether no query is outstanding.
    pub fn is_empty(&self) -> (r: bool)
        ensures
            r == (self@.pending.len() == 0),
    {
        self.pending.len() == 0
    }

    /// The position of the query `id` of `context`, where it is outstanding.
    fn find(&self, context: ContextRef, id: QueryId) -> (r: Option<usize>)
        requires
            self.wf(),
        ensures
            r is Some == self@.holds(context, id),
            r matches Some(i) ==> i == self@.position(context, id) && self@.is_at(
                i as int,
                context,
                id,
            ),
    {
        let mut i: usize = 0;
        while i < self.pending.len()
            invariant
                i <= self.pending.len(),
                self.wf(),
                forall|k: int| 0 <= k < i ==> !self@.is_at(k, context, id),
            decreases self.pending.len() - i,
        {
            if self.pending[i].context_ref == context && self.pending[i].id == id {
                assert(self@.is_at(i as int, context, id));
                return Some(i);
            }
            i += 1;
        }
        None
    }

    /// Whether the query `id` of `context` is outstanding.
    pub fn is_pending(&self, context: ContextRef, id: QueryId) -> (r: bool)
        requires
            self.wf(),
        ensures
            r == self@.holds(context, id),
    {
        self.find(context, id).is_some()
    }

    /// Issues the next id of `context`, which is one more than the last, and
    /// records the query as outstanding.
    pub fn allocate(&mut self, context: ContextRef, persistent: bool) -> (id: QueryId)
        requires
            old(self).wf(),
            old(self)@.last_issued(context) < u64::MAX,
        ensures
            final(self).wf(),
            (final(self)@, id) == old(self)@.allocate(context, persistent),
            id == old(self)@.last_issued(context) + 1,
    {
        let id: QueryId = self.last_issued(context) + 1;
        self.last_id.insert(context, id);
        self.pending.push(
            PendingQuery { id, context_ref: context, persistent, handler: None, completed: false },
        );
        id
    }

    /// Records the query `id` of `context`, whose id was issued by the peer, as
    /// claimed by `handler`. Returns false, and changes nothing, where that
    /// query is outstanding already.
    pub fn track(
        &mut self,
        context: ContextRef,
        id: QueryId,
        persistent: bool,
        handler: HandlerId,
    ) -> (added: bool)
        requires
            old(self).wf(),
        ensures
            final(self).wf(),
            added == !old(self)@.holds(context, id),
            final(self)@ == old(self)@.track(context, id, persistent, handler),
    {
        if self.find(context, id).is_some() {
            return false;
        }
        let seen = self.last_issued(context);
        let last: QueryId = if id > seen {
            id
        } else {
            seen
        };
        self.last_id.insert(context, last);
        self.pending.push(
            PendingQuery {
                id,
                context_ref: context,
                persistent,
                handler: Some(handler),
                completed: false,
            },
        );
        proof {
            let n = old(self)@.pending.len() as int;
            assert forall|i: int| 0 <= i < n implies !((#[trigger] self@.pending[i]).context_ref
                == context && self@.pending[i].id == id) by {
                assert(!old(self)@.is_at(i, context, id));
            }
        }
        true
    }

    /// The outstanding query `id` of `context`, where there is one.
    pub fn get(&self, context: ContextRef, id: QueryId) -> (r: Option<PendingQuery>)
        requires
            self.wf(),
        ensures
            r is Some == self@.holds(context, id),
            r matches Some(q) ==> q == self@.pending[self@.position(context, id)],
    {
        match self.find(context, id) {
            Some(i) => Some(self.pending[i]),
            None => None,
        }
    }

    /// Records a reply to the query `id` of `context`.
    ///
    /// A reply to a query that is not outstanding, because it was completed or
    /// cancelled before or never existed, changes nothing and gives `None`. A
    /// reply to an outstanding query gives the query back. The query has left
    /// the table by then, and is marked completed, unless it is persistent and
    /// the reply is not terminal.
    pub fn complete(&mut self, context: ContextRef, id: QueryId, terminal: bool) -> (r: Option<
        PendingQuery,
    >)
        requires
            old(self).wf(),
        ensures
            final(self).wf(),
            (final(self)@, r) == old(self)@.complete(context, id, terminal),
    {
        match self.find(context, id) {
            Some(i) => {
                let q = self.pending[i];
                if !q.persistent || terminal {
                    self.pending.remove(i);
                    Some(
                        PendingQuery {
                            id: q.id,
                            context_ref: q.context_ref,
                            persistent: q.persistent,
                            handler: q.handler,
                            completed: true,
                        },
                    )
                } else {
                    Some(q)
                }
            },
            None => None,
        }
    }

    /// Takes the query `id` of `context` out of the table and gives it back;
    /// where it is not outstanding, changes nothing and gives `None`.
    pub fn cancel(&mut self, context: ContextRef, id: QueryId) -> (r: Option<PendingQuery>)
        requires
            old(self).wf(),
        ensures
            final(self).wf(),
            (final(self)@, r) == old(self)@.cancel(context, id),
    {
        match self.find(context, id) {
            Some(i) => {
                let q = self.pending.remove(i);
                Some(q)
            },
            None => None,
        }
    }

    /// Takes every query that `sel` takes out of the table and gives them
    /// back, oldest first. The others stay, in their order.
    pub fn cancel_selected(&mut self, sel: &Selector) -> (cancelled: Vec<PendingQuery>)
        requires
            old(self).wf(),
        ensures
            final(self).wf(),
            (final(self)@, cancelled@) == old(self)@.cancel_selected(sel@),
    {
        let ghost taken = |q: PendingQuery| sel@.takes(q);
        let ghost left = |q: PendingQuery| !sel@.takes(q);
        let mut kept: Vec<PendingQuery> = Vec::new();
        let mut cancelled: Vec<PendingQuery> = Vec::new();
        let mut i: usize = 0;
        proof {
            lemma_filter_empty(taken);
            lemma_filter_empty(left);
            assert(self.pending@.take(0) =~= Seq::empty());
        }
        while i < self.pending.len()
            invariant
                i <= self.pending.len(),
                self.pending == old(self).pending,
                taken == |q: PendingQuery| sel@.takes(q),
                left == |q: PendingQuery| !sel@.takes(q),
                kept@ == self.pending@.take(i as int).filter(left),
                cancelled@ == self.pending@.take(i as int).filter(taken),
            decreases self.pending.len() - i,
        {
            let q = self.pending[i];
            proof {
                lemma_filter_take_next(self.pending@, taken, i as int);
                lemma_filter_take_next(self.pending@, left, i as int);
            }
            if sel.selects(&q) {
                cancelled.push(q);
            } else {
                kept.push(q);
            }
            i += 1;
        }
        proof {
            assert(self.pending@.take(i as int) =~= self.pending@);
            lemma_filter_keeps_wf(old(self)@, left);
        }
        self.pending = kept;
        cancelled
    }

    /// Takes every outstanding query of `context` out of the table and gives
    /// them back, oldest first, for their cancellation to be carried out.
    pub fn cancel_all(&mut self, context: ContextRef) -> (cancelled: Vec<PendingQuery>)
        requires
            old(self).wf(),
        ensures
            final(self).wf(),
            (final(self)@, cancelled@) == old(self)@.cancel_all(context),
    {
        self.cancel_selected(&Selector::Context(context))
    }
}

/// Filtering the empty sequence gives the empty sequence.
pub proof fn lemma_filter_empty(pred: spec_fn(PendingQuery) -> bool)
    ensures
        Seq::<PendingQuery>::empty().filter(pred) == Seq::<PendingQuery>::empty(),
{
    reveal(Seq::filter);
}

/// Filtering one element more of a sequence appends that element where the
/// predicate holds of it.
pub proof fn lemma_filter_take_next(s: Seq<PendingQuery>, pred: spec_fn(PendingQuery) -> bool, i: int)
    requires
        0 <= i < s.len(),
    ensures
        s.take(i + 1).filter(pred) == if pred(s[i]) {
            s.take(i).filter(pred).push(s[i])
        } else {
            s.take(i).filter(pred)
        },
{
    reveal(Seq::filter);
    assert(s.take(i + 1).drop_last() =~= s.take(i));
}

/// Every element of a filtered sequence comes from the sequence, and elements
/// keep their order: positions in the result map to increasing positions.
pub proof fn lemma_filter_origin(s: Seq<PendingQuery>, pred: spec_fn(PendingQuery) -> bool) -> (m: Seq<
    int,
>)
    ensures
        m.len() == s.filter(pred).len(),
        forall|k: int| 0 <= k < m.len() ==> 0 <= #[trigger] m[k] < s.len() && s[m[k]] == s.filter(pred)[k],
        forall|k: int, l: int| 0 <= k < l < m.len() ==> m[k] < m[l],
    decreases s.len(),
{
    reveal(Seq::filter);
    if s.len() == 0 {
        Seq::empty()
    } else {
        let m0 = lemma_filter_origin(s.drop_last(), pred);
        if pred(s.last()) {
            m0.push(s.len() - 1)
        } else {
            m0
        }
    }
}

/// A well-formed registry stays well-formed when queries are filtered out.
pub proof fn lemma_filter_keeps_wf(st: RegistryState, pred: spec_fn(PendingQuery) -> bool)
    requires
        st.wf(),
    ensures
        (RegistryState { pending: st.pending.filter(pred), last_id: st.last_id }).wf(),
{
    let m = lemma_filter_origin(st.pending, pred);
    let f = st.pending.filter(pred);
    assert forall|i: int| 0 <= i < f.len() implies !(#[trigger] f[i]).completed && f[i].id
        <= st.last_issued(f[i].context_ref) by {
        assert(f[i] == st.pending[m[i]]);
    }
    assert forall|i: int, j: int| 0 <= i < j < f.len() implies (#[trigger] f[i]).context_ref != (
    #[trigger] f[j]).context_ref || f[i].id != f[j].id by {
        assert(f[i] == st.pending[m[i]]);
        assert(f[j] == st.pending[m[j]]);
        assert(m[i] < m[j]);
    }
}

/// A predicate that holds of every element filters nothing out.
pub proof fn lemma_filter_all(s: Seq<PendingQuery>, pred: spec_fn(PendingQuery) -> bool)
    requires
        forall|k: int| 0 <= k < s.len() ==> pred(#[trigger] s[k]),
    ensures
        s.filter(pred) == s,
    decreases s.len(),
{
    reveal(Seq::filter);
    if s.len() > 0 {
        assert forall|k: int| 0 <= k < s.drop_last().len() implies pred(
            #[trigger] s.drop_last()[k],
        ) by {
            assert(s.drop_last()[k] == s[k]);
        }
        lemma_filter_all(s.drop_last(), pred);
        assert(s.drop_last().push(s.last()) =~= s);
    }
}

/// A selection parts the queries in two: those it takes and those it
/// leaves are as many as there were.
pub proof fn lemma_selection_split(s: Seq<PendingQuery>, sel: Selection)
    ensures
        s.filter(|q: PendingQuery| sel.takes(q)).len() + s.filter(
            |q: PendingQuery| !sel.takes(q),
        ).len() == s.len(),
    decreases s.len(),
{
    reveal(Seq::filter);
    if s.len() > 0 {
        lemma_selection_split(s.drop_last(), sel);
    }
}

} // verus!
