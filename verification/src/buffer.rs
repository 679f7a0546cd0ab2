//! Bounded FIFO event buffer with optional backpressure.
//!
//! The buffer sits between ingestion and the workers. Capacity is fixed at
//! construction. With backpressure enabled a push onto a full buffer fails
//! fast with `BufferError::Full` instead of blocking or silently dropping;
//! with it disabled every push succeeds and the caller accepts unbounded
//! growth. Pops are non-blocking and strictly FIFO over the whole buffer.

use std::collections::VecDeque;
use vstd::prelude::*;

verus! {

#[derive(Clone, Copy, Debug, PartialEq, Eq, Structural)]
pub enum BufferError {
    Full,
}

pub struct BoundedBuffer<T> {
    pub items: VecDeque<T>,
    pub capacity: usize,
    pub backpressure: bool,
}

impl<T> View for BoundedBuffer<T> {
    type V = Seq<T>;

    open spec fn view(&self) -> Seq<T> {
        self.items@
    }
}

/// One push against contents `s`: the new contents and whether the value
/// was admitted. Backpressure refuses exactly when the buffer is at (or
/// beyond) capacity.
pub open spec fn buffer_push_spec<T>(
    s: Seq<T>,
    capacity: usize,
    backpressure: bool,
    x: T,
) -> (Seq<T>, bool) {
    if backpressure && s.len() >= capacity {
        (s, false)
    } else {
        (s.push(x), true)
    }
}

/// Pushing each element of `xs` in order against contents `s`: the final
/// contents and how many elements were admitted.
pub open spec fn buffer_push_all_spec<T>(
    s: Seq<T>,
    capacity: usize,
    backpressure: bool,
    xs: Seq<T>,
) -> (Seq<T>, nat)
    decreases xs.len(),
{
    if xs.len() == 0 {
        (s, 0)
    } else {
        let first = buffer_push_spec(s, capacity, backpressure, xs[0]);
        let rest = buffer_push_all_spec(first.0, capacity, backpressure, xs.drop_first());
        (rest.0, (if first.1 { 1nat } else { 0nat }) + rest.1)
    }
}

/// Popping `k` times from contents `s`: the values handed out, in order,
/// and the remaining contents.
pub open spec fn buffer_pop_all_spec<T>(s: Seq<T>, k: nat) -> (Seq<T>, Seq<T>)
    decreases k,
{
    if k == 0 || s.len() == 0 {
        (Seq::empty(), s)
    } else {
        let rest = buffer_pop_all_spec(s.drop_first(), (k - 1) as nat);
        (seq![s[0]] + rest.0, rest.1)
    }
}

impl<T> BoundedBuffer<T> {
    pub fn new(capacity: usize, backpressure: bool) -> (b: BoundedBuffer<T>)
        ensures
            b@ == Seq::<T>::empty(),
            b.capacity == capacity,
            b.backpressure == backpressure,
    {
        BoundedBuffer { items: VecDeque::new(), capacity, backpressure }
    }

    pub fn len(&self) -> (n: usize)
        ensures
            n == self@.len(),
    {
        self.items.len()
    }

    pub fn is_empty(&self) -> (r: bool)
        ensures
            r == (self@.len() == 0),
    {
        self.items.len() == 0
    }

    /// Whether a push with backpressure enabled would be refused now.
    pub fn is_full(&self) -> (r: bool)
        ensures
            r == (self@.len() >= self.capacity),
    {
        self.items.len() >= self.capacity
    }

    /// Append `x` at the back, unless backpressure refuses it.
    pub fn push(&mut self, x: T) -> (r: Result<(), BufferError>)
        ensures
            final(self)@ == buffer_push_spec(old(self)@, old(self).capacity, old(self).backpressure, x).0,
            r is Ok == buffer_push_spec(old(self)@, old(self).capacity, old(self).backpressure, x).1,
            final(self).capacity == old(self).capacity,
            final(self).backpressure == old(self).backpressure,
    {
        if self.backpressure && self.items.len() >= self.capacity {
            Err(BufferError::Full)
        } else {
            self.items.push_back(x);
            Ok(())
        }
    }

    /// Borrow the oldest element, if any.
    pub fn front(&self) -> (r: Option<&T>)
        ensures
            match r {
                Some(x) => self@.len() > 0 && *x == self@[0],
                None => self@.len() == 0,
            },
    {
        if self.items.len() == 0 {
            None
        } else {
            Some(&self.items[0])
        }
    }

    /// Hand out the oldest element, if any.
    pub fn pop(&mut self) -> (r: Option<T>)
        ensures
            old(self)@.len() == 0 ==> r is None && final(self)@ == old(self)@,
            old(self)@.len() > 0 ==> r == Some(old(self)@[0]) && final(self)@ == old(self)@.drop_first(),
            final(self).capacity == old(self).capacity,
            final(self).backpressure == old(self).backpressure,
    {
        self.items.pop_front()
    }
}

/// Law: any sequence of pushes that fits the remaining capacity is admitted
/// in full, each push succeeding, and the contents end as the old contents
/// followed by the pushed values in order.
pub proof fn lemma_buffer_admits_below_capacity<T>(
    s: Seq<T>,
    capacity: usize,
    backpressure: bool,
    xs: Seq<T>,
)
    requires
        s.len() + xs.len() <= capacity,
    ensures
        buffer_push_all_spec(s, capacity, backpressure, xs).0 == s + xs,
        buffer_push_all_spec(s, capacity, backpressure, xs).1 == xs.len(),
    decreases xs.len(),
{
    if xs.len() == 0 {
        assert(s + xs =~= s);
    } else {
        let first = buffer_push_spec(s, capacity, backpressure, xs[0]);
        lemma_buffer_admits_below_capacity(first.0, capacity, backpressure, xs.drop_first());
        assert(s.push(xs[0]) + xs.drop_first() =~= s + xs);
    }
}

/// Law: with backpressure on, the push that meets a buffer exactly at
/// capacity is refused and changes nothing; after a single pop the freed
/// slot admits the next push.
pub proof fn lemma_buffer_full_cycle<T>(s: Seq<T>, capacity: usize, x: T, y: T)
    requires
        s.len() == capacity,
        capacity >= 1,
    ensures
        buffer_push_spec(s, capacity, true, x) == (s, false),
        buffer_push_spec(s.drop_first(), capacity, true, y) == (s.drop_first().push(y), true),
{
}

/// Law: pops are strictly FIFO. Popping `k` times hands out exactly the
/// first `k` elements of the contents, in push order, and leaves the rest.
pub proof fn lemma_buffer_fifo<T>(s: Seq<T>, k: nat)
    requires
        k <= s.len(),
    ensures
        buffer_pop_all_spec(s, k).0 == s.take(k as int),
        buffer_pop_all_spec(s, k).1 == s.skip(k as int),
    decreases k,
{
    if k == 0 {
        assert(s.take(0) =~= Seq::<T>::empty());
        assert(s.skip(0) =~= s);
    } else {
        lemma_buffer_fifo(s.drop_first(), (k - 1) as nat);
        assert(seq![s[0]] + s.drop_first().take(k as int - 1) =~= s.take(k as int));
        assert(s.drop_first().skip(k as int - 1) =~= s.skip(k as int));
    }
}

} // verus!
