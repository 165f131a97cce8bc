//! Fixed-capacity rolling windows of recent samples.

use vstd::prelude::*;

verus! {

/// Samples kept per metric: two minutes at one sample a second.
pub const HISTORY_CAPACITY: usize = 120;

/// The newest `capacity` entries of `entries`, oldest first; all of them where
/// there are no more than `capacity`.
pub open spec fn retained<T>(entries: Seq<T>, capacity: nat) -> Seq<T> {
    if entries.len() <= capacity {
        entries
    } else {
        entries.subrange(entries.len() - capacity, entries.len() as int)
    }
}

/// The window that results from pushing `values` one after the other, each
/// push followed by a trim to `capacity`.
pub open spec fn push_all<T>(start: Seq<T>, values: Seq<T>, capacity: nat) -> Seq<T>
    decreases values.len(),
{
    if values.len() == 0 {
        start
    } else {
        retained(push_all(start, values.drop_last(), capacity).push(values.last()), capacity)
    }
}

/// A window as contracts see it: its entries, oldest first, and the capacity
/// it was made with.
pub struct Window<T> {
    pub entries: Seq<T>,
    pub capacity: nat,
}

impl<T> Window<T> {
    /// The window after `value` was pushed.
    pub open spec fn push(self, value: T) -> Window<T> {
        Window { entries: retained(self.entries.push(value), self.capacity), capacity: self.capacity }
    }

    /// An empty window of the given capacity.
    pub open spec fn empty(capacity: nat) -> Window<T> {
        Window { entries: Seq::empty(), capacity }
    }

    /// Whether the window holds no more than its capacity.
    pub open spec fn bounded(self) -> bool {
        self.entries.len() <= self.capacity
    }
}

/// Drops entries from the head of `history` until no more than `capacity` are
/// left. The survivors keep their order.
pub fn trim_history<T>(history: &mut Vec<T>, capacity: usize)
    ensures
        final(history)@ == retained(old(history)@, capacity as nat),
        final(history)@.len() <= capacity,
{
    if history.len() > capacity {
        let extra: usize = history.len() - capacity;
        let kept = history.split_off(extra);
        *history = kept;
    }
}

/// A first-in first-out buffer of at most `capacity` entries, oldest first.
pub struct RollingHistory<T> {
    items: Vec<T>,
    capacity: usize,
}

impl<T> View for RollingHistory<T> {
    type V = Seq<T>;

    closed spec fn view(&self) -> Seq<T> {
        self.items@
    }
}

impl<T> RollingHistory<T> {
    #[verifier::type_invariant]
    spec fn bounded(self) -> bool {
        self.items@.len() <= self.capacity
    }

    /// The capacity the buffer was made with.
    pub closed spec fn spec_capacity(&self) -> nat {
        self.capacity as nat
    }

    /// The buffer as contracts see it.
    pub open spec fn window(&self) -> Window<T> {
        Window { entries: self@, capacity: self.spec_capacity() }
    }

    /// An empty buffer that will hold up to `capacity` entries.
    pub fn with_capacity(capacity: usize) -> (h: Self)
        ensures
            h@ == Seq::<T>::empty(),
            h.spec_capacity() == capacity,
    {
        RollingHistory { items: Vec::new(), capacity }
    }

    /// An empty buffer of the standard capacity.
    pub fn new() -> (h: Self)
        ensures
            h@ == Seq::<T>::empty(),
            h.spec_capacity() == HISTORY_CAPACITY,
    {
        RollingHistory { items: Vec::new(), capacity: HISTORY_CAPACITY }
    }

    /// Appends `value` at the tail and evicts from the head what no longer
    /// fits. With a capacity of zero the buffer stays empty.
    pub fn push(&mut self, value: T)
        ensures
            final(self)@ == retained(old(self)@.push(value), old(self).spec_capacity()),
            final(self).spec_capacity() == old(self).spec_capacity(),
            final(self)@.len() <= final(self).spec_capacity(),
            final(self).window() == old(self).window().push(value),
    {
        proof {
            use_type_invariant(&*self);
        }
        let capacity = self.capacity;
        let mut items: Vec<T> = Vec::new();
        core::mem::swap(&mut self.items, &mut items);
        items.push(value);
        trim_history(&mut items, capacity);
        core::mem::swap(&mut self.items, &mut items);
    }

    /// The entries, oldest first.
    pub fn as_slice(&self) -> (s: &[T])
        ensures
            s@ == self@,
            s@.len() <= self.spec_capacity(),
    {
        proof {
            use_type_invariant(self);
        }
        self.items.as_slice()
    }

    /// The number of entries held.
    pub fn len(&self) -> (n: usize)
        ensures
            n == self@.len(),
            n <= self.spec_capacity(),
    {
        proof {
            use_type_invariant(self);
        }
        self.items.len()
    }

    /// Whether no entry is held.
    pub fn is_empty(&self) -> (e: bool)
        ensures
            e <==> self@.len() == 0,
    {
        self.items.len() == 0
    }

    /// The capacity the buffer was made with.
    pub fn capacity(&self) -> (c: usize)
        ensures
            c == self.spec_capacity(),
    {
        self.capacity
    }
}

/// After any run of pushes the window holds no more than `capacity` entries,
/// and they are the newest of everything that was offered, in the order in
/// which it was offered.
pub proof fn lemma_push_all_retains_newest<T>(start: Seq<T>, values: Seq<T>, capacity: nat)
    requires
        start.len() <= capacity,
    ensures
        push_all(start, values, capacity) == retained(start + values, capacity),
        push_all(start, values, capacity).len() <= capacity,
    decreases values.len(),
{
    if values.len() == 0 {
        assert(start + values =~= start);
    } else {
        let earlier = values.drop_last();
        lemma_push_all_retains_newest(start, earlier, capacity);
        let before = push_all(start, earlier, capacity);
        assert((start + earlier).push(values.last()) =~= start + values);
        assert(retained(before.push(values.last()), capacity) =~= retained(
            start + values,
            capacity,
        ));
    }
}

/// A push keeps a bounded window bounded, adds at most one entry and puts the
/// pushed value last wherever the capacity is not zero.
pub proof fn lemma_window_push<T>(window: Window<T>, value: T)
    requires
        window.bounded(),
    ensures
        window.push(value).bounded(),
        window.push(value).entries.len() <= window.entries.len() + 1,
        window.capacity > 0 ==> window.push(value).entries.last() == value,
        window.entries.len() < window.capacity ==> window.push(value).entries
            == window.entries.push(value),
        window.entries.len() == window.capacity && window.capacity > 0 ==> window.push(
            value,
        ).entries == window.entries.drop_first().push(value),
{
    if window.entries.len() == window.capacity && window.capacity > 0 {
        assert(window.push(value).entries =~= window.entries.drop_first().push(value));
    }
}

/// From a cold start, what is held after pushing `values` is exactly their
/// last `min(values.len(), capacity)` entries.
pub proof fn lemma_bounded_history<T>(values: Seq<T>, capacity: nat)
    ensures
        push_all(Seq::<T>::empty(), values, capacity).len() == if values.len() <= capacity {
            values.len()
        } else {
            capacity
        },
        forall|i: int|
            0 <= i < push_all(Seq::<T>::empty(), values, capacity).len() ==> push_all(
                Seq::<T>::empty(),
                values,
                capacity,
            )[i] == values[values.len() - push_all(Seq::<T>::empty(), values, capacity).len() + i],
{
    lemma_push_all_retains_newest(Seq::<T>::empty(), values, capacity);
    assert(Seq::<T>::empty() + values =~= values);
}

} // verus!
