//! Bounded ring buffer for metric history.
//!
//! The buffer keeps a sliding window of the most recent values: it never holds
//! more than its capacity, and pushing into a full buffer drops the oldest value.

use std::collections::VecDeque;
use std::collections::vec_deque::Iter;
use vstd::math::min;
use vstd::prelude::*;
use vstd::std_specs::vecdeque::*;
use vstd::std_specs::iter::IteratorSpec;

verus! {

broadcast use group_vec_dequeue_axioms;

/// The contents after pushing `v` onto `s` in a buffer of capacity `cap`.
pub open spec fn push_window<T>(s: Seq<T>, cap: nat, v: T) -> Seq<T> {
    if s.len() >= cap {
        s.drop_first().push(v)
    } else {
        s.push(v)
    }
}

/// The contents after pushing every value of `vals`, in order.
pub open spec fn push_all<T>(s: Seq<T>, cap: nat, vals: Seq<T>) -> Seq<T>
    decreases vals.len(),
{
    if vals.len() == 0 {
        s
    } else {
        push_window(push_all(s, cap, vals.drop_last()), cap, vals.last())
    }
}

/// The last `k` values of `s` (all of `s` when `k` exceeds its length).
pub open spec fn last_k<T>(s: Seq<T>, k: nat) -> Seq<T> {
    if s.len() <= k {
        s
    } else {
        s.subrange(s.len() - k, s.len() as int)
    }
}

/// Pushing never makes a buffer exceed its capacity, and the pushed value becomes the latest.
pub proof fn lemma_push_window_bounded<T>(s: Seq<T>, cap: nat, v: T)
    requires
        0 < cap,
        s.len() <= cap,
    ensures
        push_window(s, cap, v).len() <= cap,
        push_window(s, cap, v).len() == (if s.len() < cap { s.len() + 1 } else { cap }),
        push_window(s, cap, v).last() == v,
{
}

/// After any sequence of pushes, a buffer holds exactly the most recent `cap` values
/// (of its earlier contents followed by the pushed values), oldest first.
pub proof fn lemma_push_all_keeps_latest<T>(s: Seq<T>, cap: nat, vals: Seq<T>)
    requires
        0 < cap,
        s.len() <= cap,
    ensures
        push_all(s, cap, vals) == last_k(s + vals, cap),
    decreases vals.len(),
{
    if vals.len() == 0 {
        assert(s + vals =~= s);
    } else {
        let pre = vals.drop_last();
        let v = vals.last();
        lemma_push_all_keeps_latest(s, cap, pre);
        let t = s + pre;
        assert(s + vals =~= t.push(v));
        let w = last_k(t, cap);
        if t.len() < cap {
            assert(push_window(w, cap, v) =~= t.push(v));
        } else {
            assert(w.len() == cap);
            assert(push_window(w, cap, v) =~= last_k(t.push(v), cap));
        }
    }
}

/// Pushing into an empty buffer keeps the last `cap` pushed values in push order: the
/// length is the smaller of the number of pushes and the capacity (so once `cap` values
/// have been pushed the buffer stays full), and the latest value is the last one pushed.
pub proof fn lemma_fresh_buffer_contents<T>(cap: nat, vals: Seq<T>)
    requires
        0 < cap,
    ensures
        push_all(Seq::<T>::empty(), cap, vals) == last_k(vals, cap),
        push_all(Seq::<T>::empty(), cap, vals).len() <= cap,
        push_all(Seq::<T>::empty(), cap, vals).len() == min(vals.len() as int, cap as int),
        vals.len() >= cap ==> push_all(Seq::<T>::empty(), cap, vals).len() == cap,
        vals.len() > 0 ==> push_all(Seq::<T>::empty(), cap, vals).last() == vals.last(),
{
    lemma_push_all_keeps_latest(Seq::<T>::empty(), cap, vals);
    assert(Seq::<T>::empty() + vals =~= vals);
}

/// A fixed-capacity ring buffer for time-series data.
///
/// Values are kept from oldest to newest; the buffer never holds more than
/// `capacity` values.
#[derive(Debug)]
pub struct RingBuffer<T> {
    data: VecDeque<T>,
    capacity: usize,
}

impl<T> View for RingBuffer<T> {
    type V = Seq<T>;

    /// The stored values, oldest first.
    closed spec fn view(&self) -> Seq<T> {
        self.data@
    }
}

impl<T> RingBuffer<T> {
    #[verifier::type_invariant]
    spec fn inv(self) -> bool {
        &&& 0 < self.capacity
        &&& self.data@.len() <= self.capacity
    }

    /// The maximum number of values the buffer holds.
    pub closed spec fn cap(self) -> nat {
        self.capacity as nat
    }

    /// Creates a new, empty ring buffer with the given capacity.
    pub fn new(capacity: usize) -> (b: Self)
        requires
            capacity > 0,
        ensures
            b@ == Seq::<T>::empty(),
            b.cap() == capacity,
    {
        RingBuffer { data: VecDeque::with_capacity(capacity), capacity }
    }

    /// Pushes a value; when the buffer is full, the oldest value is dropped first.
    pub fn push(&mut self, value: T)
        ensures
            final(self)@ == push_window(old(self)@, old(self).cap(), value),
            final(self).cap() == old(self).cap(),
            final(self)@.len() <= final(self).cap(),
    {
        proof { use_type_invariant(&*self); }
        let mut data: VecDeque<T> = VecDeque::new();
        std::mem::swap(&mut data, &mut self.data);
        if data.len() >= self.capacity {
            data.pop_front();
        }
        data.push_back(value);
        self.data = data;
    }

    /// The most recent value, if any.
    pub fn latest(&self) -> (r: Option<&T>)
        ensures
            r == (if self@.len() == 0 { None } else { Some(&self@.last()) }),
    {
        let n = self.data.len();
        if n == 0 {
            None
        } else {
            Some(&self.data[n - 1])
        }
    }

    /// The oldest value, if any.
    pub fn oldest(&self) -> (r: Option<&T>)
        ensures
            r == (if self@.len() == 0 { None } else { Some(&self@[0]) }),
    {
        if self.data.len() == 0 {
            None
        } else {
            Some(&self.data[0])
        }
    }

    /// The number of values held.
    pub fn len(&self) -> (n: usize)
        ensures
            n == self@.len(),
            n <= self.cap(),
            0 < self.cap(),
    {
        proof { use_type_invariant(self); }
        self.data.len()
    }

    /// True when the buffer holds no value.
    pub fn is_empty(&self) -> (b: bool)
        ensures
            b == (self@.len() == 0),
    {
        self.data.len() == 0
    }

    /// True when the buffer holds as many values as its capacity.
    pub fn is_full(&self) -> (b: bool)
        ensures
            b == (self@.len() >= self.cap()),
    {
        self.data.len() >= self.capacity
    }

    /// The maximum number of values the buffer holds.
    pub fn capacity(&self) -> (c: usize)
        ensures
            c == self.cap(),
    {
        self.capacity
    }

    /// An iterator over the values from oldest to newest.
    pub fn iter(&self) -> (it: Iter<'_, T>)
        ensures
            it.remaining() == self@.as_ref(),
    {
        self.data.iter()
    }

    /// The values as two slices that, put together, hold them from oldest to newest.
    pub fn as_slices(&self) -> (r: (&[T], &[T]))
        ensures
            r.0@ + r.1@ == self@,
    {
        deque_as_slices(&self.data)
    }

    /// Makes the storage contiguous and returns all values, oldest first.
    pub fn make_contiguous(&mut self) -> (r: &[T])
        ensures
            final(self)@ == old(self)@,
            final(self).cap() == old(self).cap(),
            r@ == old(self)@,
    {
        proof { use_type_invariant(&*self); }
        deque_make_contiguous(&mut self.data)
    }

    /// Removes every value; the capacity is unchanged.
    pub fn clear(&mut self)
        ensures
            final(self)@ == Seq::<T>::empty(),
            final(self).cap() == old(self).cap(),
    {
        proof { use_type_invariant(&*self); }
        let mut data: VecDeque<T> = VecDeque::new();
        std::mem::swap(&mut data, &mut self.data);
        data.clear();
        self.data = data;
    }

    /// The last `n` values, oldest first (all values when `n` exceeds the length).
    pub fn last_n(&self, n: usize) -> (r: Vec<&T>)
        ensures
            r@.len() == last_k(self@, n as nat).len(),
            forall|i: int| 0 <= i < r@.len() ==> *#[trigger] r@[i] == last_k(self@, n as nat)[i],
    {
        let len = self.data.len();
        let skip = len.saturating_sub(n);
        let mut r: Vec<&T> = Vec::new();
        let mut i = skip;
        while i < len
            invariant
                skip <= i <= len,
                len == self@.len(),
                skip == (if len >= n { len - n } else { 0 }),
                r@.len() == i - skip,
                forall|j: int| 0 <= j < r@.len() ==> *#[trigger] r@[j] == self@[skip + j],
            decreases len - i,
        {
            r.push(&self.data[i]);
            i = i + 1;
        }
        r
    }
}

impl<T: Clone> RingBuffer<T> {
    /// Clones of the last `n` values, oldest first (all values when `n` exceeds the length).
    pub fn last_n_cloned(&self, n: usize) -> (r: Vec<T>)
        ensures
            r@.len() == last_k(self@, n as nat).len(),
            forall|i: int| 0 <= i < r@.len() ==> cloned(last_k(self@, n as nat)[i], #[trigger] r@[i]),
    {
        let len = self.data.len();
        let skip = len.saturating_sub(n);
        let mut r: Vec<T> = Vec::new();
        let mut i = skip;
        while i < len
            invariant
                skip <= i <= len,
                len == self@.len(),
                skip == (if len >= n { len - n } else { 0 }),
                r@.len() == i - skip,
                forall|j: int| 0 <= j < r@.len() ==> cloned(self@[skip + j], #[trigger] r@[j]),
            decreases len - i,
        {
            r.push(self.data[i].clone());
            i = i + 1;
        }
        r
    }
}

impl<T: Default + Clone> RingBuffer<T> {
    /// A full buffer whose values are all clones of one default value.
    pub fn with_default(capacity: usize) -> (b: Self)
        requires
            capacity > 0,
        ensures
            b@.len() == capacity,
            b.cap() == capacity,
            exists|d: T| call_ensures(T::default, (), d)
                && forall|i: int| 0 <= i < capacity ==> cloned(d, #[trigger] b@[i]),
    {
        let mut data: VecDeque<T> = VecDeque::with_capacity(capacity);
        let d = T::default();
        data.resize(capacity, d);
        RingBuffer { data, capacity }
    }
}

impl<T: Clone> Clone for RingBuffer<T> {
    /// A buffer of the same capacity holding clones of the same values, in the same order.
    fn clone(&self) -> (b: Self)
        ensures
            b.cap() == self.cap(),
            b@.len() == self@.len(),
            forall|i: int| 0 <= i < self@.len() ==> cloned(self@[i], #[trigger] b@[i]),
    {
        proof { use_type_invariant(self); }
        RingBuffer { data: self.data.clone(), capacity: self.capacity }
    }
}

impl<T> Default for RingBuffer<T> {
    /// An empty buffer of capacity 300 (five minutes at one sample per second).
    fn default() -> (b: Self)
        ensures
            b@ == Seq::<T>::empty(),
            b.cap() == 300,
    {
        Self::new(300)
    }
}

/// `VecDeque::as_slices`: the two slices hold the values, front part first.
#[verifier::external_body]
fn deque_as_slices<T>(d: &VecDeque<T>) -> (r: (&[T], &[T]))
    ensures
        r.0@ + r.1@ == d@,
{
    d.as_slices()
}

/// `VecDeque::make_contiguous`: the values stay in order and the returned slice holds all of them.
#[verifier::external_body]
fn deque_make_contiguous<T>(d: &mut VecDeque<T>) -> (r: &[T])
    ensures
        final(d)@ == old(d)@,
        r@ == old(d)@,
    no_unwind
{
    d.make_contiguous()
}

} // verus!
