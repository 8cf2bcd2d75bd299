use std::collections::VecDeque;
use vstd::prelude::*;

verus! {

/// The last `c` elements of `s` (all of `s` when it is shorter).
pub open spec fn recent<T>(s: Seq<T>, c: nat) -> Seq<T> {
    if s.len() <= c {
        s
    } else {
        s.subrange(s.len() - c, s.len() as int)
    }
}

/// What a window of capacity `c` that holds `start` holds after each element
/// of `xs` has been pushed into it, in order.
pub open spec fn after_pushes<T>(start: Seq<T>, c: nat, xs: Seq<T>) -> Seq<T>
    decreases xs.len(),
{
    if xs.len() == 0 {
        start
    } else {
        after_pushes(recent(start.push(xs[0]), c), c, xs.drop_first())
    }
}

proof fn lemma_recent_concat<T>(a: Seq<T>, b: Seq<T>, c: nat)
    ensures
        recent(recent(a, c) + b, c) == recent(a + b, c),
{
    let l = recent(recent(a, c) + b, c);
    let r = recent(a + b, c);
    assert(l.len() == r.len());
    assert forall|i: int| 0 <= i < l.len() implies l[i] == r[i] by {}
    assert(l =~= r);
}

/// Pushing samples one by one into a window of capacity `c` that holds
/// `start` (no more than `c` samples) leaves exactly the `c` most recent
/// samples of `start` followed by the pushed ones, so never more than `c`.
pub proof fn lemma_window_keeps_most_recent<T>(start: Seq<T>, c: nat, xs: Seq<T>)
    requires
        start.len() <= c,
    ensures
        after_pushes(start, c, xs) == recent(start + xs, c),
        after_pushes(start, c, xs).len() <= c,
    decreases xs.len(),
{
    if xs.len() == 0 {
        assert(start + xs =~= start);
    } else {
        let next = recent(start.push(xs[0]), c);
        lemma_window_keeps_most_recent(next, c, xs.drop_first());
        lemma_recent_concat(start.push(xs[0]), xs.drop_first(), c);
        assert(start.push(xs[0]) + xs.drop_first() =~= start + xs);
    }
}

/// A bounded window of the most recent samples: pushing past the capacity
/// drops the oldest ones.
///
/// One writer pushes at the audio rate and one reader takes snapshots at the
/// frame rate; the owner shares it behind a lock held for a single push or a
/// single snapshot.
pub struct SampleWindow<T> {
    items: VecDeque<T>,
    capacity: usize,
}

impl<T> View for SampleWindow<T> {
    type V = Seq<T>;

    closed spec fn view(&self) -> Seq<T> {
        self.items@
    }
}

impl<T> SampleWindow<T> {
    /// The largest number of samples the window holds.
    pub closed spec fn spec_capacity(&self) -> nat {
        self.capacity as nat
    }

    /// The window never holds more samples than its capacity.
    pub closed spec fn wf(&self) -> bool {
        self.items@.len() <= self.capacity
    }

    /// An empty window that keeps at most `capacity` samples.
    pub fn new(capacity: usize) -> (w: Self)
        ensures
            w.wf(),
            w@ == Seq::<T>::empty(),
            w.spec_capacity() == capacity,
    {
        // One slot over the capacity: a push into a full window briefly
        // holds one extra sample and never has to grow the storage.
        let room: usize = if capacity < usize::MAX { capacity + 1 } else { capacity };
        SampleWindow { items: VecDeque::with_capacity(room), capacity }
    }

    pub fn capacity(&self) -> (r: usize)
        ensures
            r == self.spec_capacity(),
    {
        self.capacity
    }

    pub fn len(&self) -> (r: usize)
        ensures
            r == self@.len(),
    {
        self.items.len()
    }

    /// Appends one sample, then drops the oldest samples beyond the capacity.
    pub fn push(&mut self, sample: T)
        requires
            old(self).wf(),
        ensures
            final(self).wf(),
            final(self).spec_capacity() == old(self).spec_capacity(),
            final(self)@ == recent(old(self)@.push(sample), old(self).spec_capacity()),
    {
        let ghost pushed = self.items@.push(sample);
        self.items.push_back(sample);
        let mut dropped: usize = 0;
        while self.items.len() > self.capacity
            invariant
                self.items@.len() + dropped == pushed.len(),
                self.items@ == pushed.subrange(dropped as int, pushed.len() as int),
                pushed.len() <= self.capacity + 1,
                self.capacity == old(self).capacity,
                dropped > 0 ==> self.items@.len() >= self.capacity,
            decreases self.items@.len(),
        {
            self.items.pop_front();
            dropped = dropped + 1;
        }
        assert(self.items@ =~= recent(pushed, self.capacity as nat));
    }
}

impl<T: Copy> SampleWindow<T> {
    /// Passes one item of a sample stream through: a sample is pushed into
    /// the window and handed back unchanged; the end of the stream is handed
    /// back and leaves the window as it was.
    pub fn tap(&mut self, item: Option<T>) -> (r: Option<T>)
        requires
            old(self).wf(),
        ensures
            r == item,
            final(self).wf(),
            final(self).spec_capacity() == old(self).spec_capacity(),
            final(self)@ == match item {
                Some(x) => recent(old(self)@.push(x), old(self).spec_capacity()),
                None => old(self)@,
            },
    {
        match item {
            Some(x) => {
                self.push(x);
                Some(x)
            },
            None => None,
        }
    }

    /// A copy of the `n` oldest samples held, or `None` when fewer than `n`
    /// are held.
    pub fn snapshot_first(&self, n: usize) -> (r: Option<Vec<T>>)
        ensures
            r is None <==> self@.len() < n,
            r matches Some(v) ==> v@ == self@.subrange(0, n as int),
    {
        if self.items.len() < n {
            return None;
        }
        let mut out: Vec<T> = Vec::with_capacity(n);
        let mut i: usize = 0;
        while i < n
            invariant
                i <= n,
                n <= self.items@.len(),
                out@ == self.items@.subrange(0, i as int),
            decreases n - i,
        {
            out.push(self.items[i]);
            i = i + 1;
            assert(out@ =~= self.items@.subrange(0, i as int));
        }
        Some(out)
    }
}

} // verus!
