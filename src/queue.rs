//! The connection queue: pending connections, served last-in first-out.

use vstd::prelude::*;

verus! {

/// Pending connections; the most recently added one is taken first.
pub struct ConnQueue<T> {
    items: Vec<T>,
}

impl<T> View for ConnQueue<T> {
    type V = Seq<T>;

    /// Pending connections, oldest first.
    closed spec fn view(&self) -> Seq<T> {
        self.items@
    }
}

/// The queue after adding a connection.
pub open spec fn after_push<T>(q: Seq<T>, c: T) -> Seq<T> {
    q.push(c)
}

/// What taking from a queue gives, and the queue left behind.
pub open spec fn after_pop<T>(q: Seq<T>) -> (Option<T>, Seq<T>) {
    if q.len() == 0 {
        (None, q)
    } else {
        (Some(q.last()), q.drop_last())
    }
}

impl<T> ConnQueue<T> {
    pub fn new() -> (r: Self)
        ensures
            r@ == Seq::<T>::empty(),
    {
        ConnQueue { items: Vec::new() }
    }

    pub fn push(&mut self, c: T)
        ensures
            final(self)@ == after_push(old(self)@, c),
    {
        self.items.push(c);
    }

    /// Takes the most recently added connection, if any.
    pub fn pop(&mut self) -> (r: Option<T>)
        ensures
            (r, final(self)@) == after_pop(old(self)@),
    {
        self.items.pop()
    }

    pub fn len(&self) -> (r: usize)
        ensures
            r == self@.len(),
    {
        self.items.len()
    }

    pub fn is_empty(&self) -> (r: bool)
        ensures
            r == (self@.len() == 0),
    {
        self.items.len() == 0
    }
}

/// The queue after adding the given connections in order.
pub open spec fn push_all<T>(q: Seq<T>, cs: Seq<T>) -> Seq<T>
    decreases cs.len(),
{
    if cs.len() == 0 {
        q
    } else {
        after_push(push_all(q, cs.drop_last()), cs.last())
    }
}

/// What `n` successive takes give, in order, and the queue left behind.
pub open spec fn pop_n<T>(q: Seq<T>, n: nat) -> (Seq<Option<T>>, Seq<T>)
    decreases n,
{
    if n == 0 {
        (Seq::empty(), q)
    } else {
        let (outs, rest) = pop_n(q, (n - 1) as nat);
        let (o, left) = after_pop(rest);
        (outs.push(o), left)
    }
}

proof fn lemma_push_all<T>(q: Seq<T>, cs: Seq<T>)
    ensures
        push_all(q, cs) == q + cs,
    decreases cs.len(),
{
    if cs.len() > 0 {
        lemma_push_all(q, cs.drop_last());
        assert(q + cs =~= (q + cs.drop_last()).push(cs.last()));
    }
}

proof fn lemma_pop_n<T>(q: Seq<T>, cs: Seq<T>, k: nat)
    requires
        k <= cs.len(),
    ensures
        pop_n(q + cs, k).0 == Seq::new(k, |j: int| Some(cs[cs.len() - 1 - j])),
        pop_n(q + cs, k).1 == q + cs.subrange(0, cs.len() - k),
    decreases k,
{
    if k == 0 {
        assert(cs.subrange(0, cs.len() as int) =~= cs);
        assert(Seq::new(0, |j: int| Some(cs[cs.len() - 1 - j])) =~= Seq::<Option<T>>::empty());
    } else {
        lemma_pop_n(q, cs, (k - 1) as nat);
        let rest = q + cs.subrange(0, cs.len() - (k - 1));
        assert(rest.last() == cs[cs.len() - k]);
        assert(rest.drop_last() =~= q + cs.subrange(0, cs.len() - k));
        assert(Seq::new((k - 1) as nat, |j: int| Some(cs[cs.len() - 1 - j])).push(
            Some(cs[cs.len() - k]),
        ) =~= Seq::new(k, |j: int| Some(cs[cs.len() - 1 - j])));
    }
}

/// Connections added to an empty queue and all taken before any other step
/// come out in reverse order of addition.
pub proof fn lemma_lifo_order<T>(cs: Seq<T>)
    ensures
        pop_n(push_all(Seq::empty(), cs), cs.len()).0 == Seq::new(
            cs.len(),
            |j: int| Some(cs[cs.len() - 1 - j]),
        ),
{
    lemma_push_all(Seq::empty(), cs);
    lemma_pop_n(Seq::empty(), cs, cs.len());
}

/// As many takes as additions, starting from any queue, give back each added
/// connection once and leave the queue as it was; from an empty queue, empty.
pub proof fn lemma_drained<T>(q: Seq<T>, cs: Seq<T>)
    ensures
        pop_n(push_all(q, cs), cs.len()).1 == q,
        forall|j: int| 0 <= j < cs.len() ==> #[trigger] pop_n(push_all(q, cs), cs.len()).0[j] is Some,
        pop_n(push_all(Seq::empty(), cs), cs.len()).1.len() == 0,
{
    lemma_push_all(q, cs);
    lemma_pop_n(q, cs, cs.len());
    assert(q + cs.subrange(0, 0) =~= q);
    lemma_push_all(Seq::empty(), cs);
    lemma_pop_n(Seq::empty(), cs, cs.len());
    assert(Seq::<T>::empty() + cs.subrange(0, 0) =~= Seq::<T>::empty());
}

} // verus!
