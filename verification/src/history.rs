//! Rolling sample history: a bounded buffer that keeps the latest samples in
//! the order in which they arrived.

use std::collections::VecDeque;
use vstd::prelude::*;

verus! {

/// Number of samples that a history made by [`RingHistory::new`] retains.
pub const HISTORY_CAPACITY: usize = 60;

/// The latest `capacity` entries of `samples`, oldest first.
pub open spec fn keep_latest<T>(samples: Seq<T>, capacity: nat) -> Seq<T> {
    if samples.len() <= capacity {
        samples
    } else {
        samples.subrange(samples.len() - capacity, samples.len() as int)
    }
}

/// A history after one more sample: the sample is appended, and the oldest
/// entry leaves if the capacity would be exceeded.
pub open spec fn pushed<T>(history: Seq<T>, value: T, capacity: nat) -> Seq<T> {
    keep_latest(history.push(value), capacity)
}

/// The history that results from pushing `samples` one by one, first to last,
/// into an empty history of the given capacity.
pub open spec fn replayed<T>(samples: Seq<T>, capacity: nat) -> Seq<T>
    decreases samples.len(),
{
    if samples.len() == 0 {
        Seq::empty()
    } else {
        pushed(replayed(samples.drop_last(), capacity), samples.last(), capacity)
    }
}

/// Pushing any run of samples into an empty history leaves exactly the latest
/// `capacity` of them, in arrival order: the length is the smaller of the
/// number of pushes and the capacity, and once more samples than the capacity
/// have arrived the oldest retained one is the sample that arrived `capacity`
/// pushes before the end.
pub proof fn lemma_replayed_keeps_latest<T>(samples: Seq<T>, capacity: nat)
    ensures
        replayed(samples, capacity) == keep_latest(samples, capacity),
        replayed(samples, capacity).len() == if samples.len() <= capacity {
            samples.len()
        } else {
            capacity
        },
        samples.len() > capacity && capacity > 0 ==> replayed(samples, capacity)[0]
            == samples[samples.len() - capacity],
    decreases samples.len(),
{
    if samples.len() > 0 {
        lemma_replayed_keeps_latest(samples.drop_last(), capacity);
        assert(samples.drop_last().push(samples.last()) =~= samples);
        assert(replayed(samples, capacity) =~= keep_latest(samples, capacity));
    }
}

/// The entries of `samples`, each paired with its position counted from the
/// oldest (position 0).
pub open spec fn enumerated<T>(samples: Seq<T>) -> Seq<(usize, T)> {
    Seq::new(samples.len(), |i: int| (i as usize, samples[i]))
}

/// Fixed-capacity rolling buffer of samples, oldest first.
#[derive(Debug)]
pub struct RingHistory<T> {
    items: VecDeque<T>,
    capacity: usize,
}

impl<T> View for RingHistory<T> {
    type V = Seq<T>;

    closed spec fn view(&self) -> Seq<T> {
        self.items@
    }
}

impl<T> RingHistory<T> {
    #[verifier::type_invariant]
    spec fn within_capacity(self) -> bool {
        self.items@.len() <= self.capacity
    }

    /// The capacity in contracts; see [`RingHistory::capacity`].
    pub closed spec fn spec_capacity(&self) -> usize {
        self.capacity
    }

    /// An empty history that retains [`HISTORY_CAPACITY`] samples.
    pub fn new() -> (r: Self)
        ensures
            r@ == Seq::<T>::empty(),
            r.capacity() == HISTORY_CAPACITY,
    {
        RingHistory { items: VecDeque::new(), capacity: HISTORY_CAPACITY }
    }

    /// An empty history that retains `capacity` samples.
    pub fn with_capacity(capacity: usize) -> (r: Self)
        ensures
            r@ == Seq::<T>::empty(),
            r.capacity() == capacity,
    {
        RingHistory { items: VecDeque::new(), capacity }
    }

    /// The number of samples that the history retains at most.
    #[verifier::when_used_as_spec(spec_capacity)]
    pub fn capacity(&self) -> (r: usize)
        ensures
            r == self.spec_capacity(),
    {
        self.capacity
    }

    /// Number of retained samples; never more than the capacity.
    pub fn len(&self) -> (r: usize)
        ensures
            r == self@.len(),
            r <= self.capacity(),
    {
        proof {
            use_type_invariant(self);
        }
        self.items.len()
    }

    /// Whether no sample is retained.
    pub fn is_empty(&self) -> (r: bool)
        ensures
            r == (self@.len() == 0),
    {
        self.items.len() == 0
    }

    /// The sample at `position`, counted from the oldest retained one.
    pub fn get(&self, position: usize) -> (r: Option<&T>)
        ensures
            position < self@.len() ==> r == Some(&self@[position as int]),
            position >= self@.len() ==> r is None,
    {
        if position < self.items.len() {
            Some(&self.items[position])
        } else {
            None
        }
    }

    /// Appends `value`; at capacity the oldest sample is evicted to make room.
    pub fn push(&mut self, value: T)
        ensures
            final(self)@ == pushed(old(self)@, value, old(self).capacity() as nat),
            final(self).capacity() == old(self).capacity(),
    {
        proof {
            use_type_invariant(&*self);
        }
        if self.capacity > 0 {
            let mut items = VecDeque::new();
            core::mem::swap(&mut self.items, &mut items);
            if items.len() >= self.capacity {
                items.pop_front();
            }
            items.push_back(value);
            core::mem::swap(&mut self.items, &mut items);
        }
    }
}

impl<T: Copy> RingHistory<T> {
    /// The retained samples as (position, value) pairs, oldest first, with
    /// position 0 at the oldest retained sample.
    pub fn as_sequence(&self) -> (r: Vec<(usize, T)>)
        ensures
            r@ == enumerated(self@),
    {
        let mut pairs: Vec<(usize, T)> = Vec::new();
        let mut i: usize = 0;
        while i < self.items.len()
            invariant
                i <= self.items@.len(),
                pairs@ == enumerated(self.items@.subrange(0, i as int)),
            decreases self.items@.len() - i,
        {
            pairs.push((i, self.items[i]));
            i += 1;
        }
        assert(self.items@.subrange(0, i as int) == self.items@);
        pairs
    }
}

} // verus!
