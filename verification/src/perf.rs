//! The sample window behind frame-timing statistics: explicit bounded runs
//! keep every sample, interactive sessions keep the most recent ones in
//! constant memory; and the nearest-rank index of a percentile.

use vstd::prelude::*;

verus! {

/// Samples an interactive session keeps.
pub const SAMPLE_CAPACITY: usize = 1024;

/// The samples kept, in the order they were written.
pub struct SampleWindow<T> {
    samples: Vec<T>,
    /// Next slot to overwrite once the window is full.
    cursor: usize,
    full_run: bool,
}

pub struct WindowModel<T> {
    pub samples: Seq<T>,
    pub cursor: int,
    pub full_run: bool,
}

impl<T> View for SampleWindow<T> {
    type V = WindowModel<T>;

    closed spec fn view(&self) -> WindowModel<T> {
        WindowModel { samples: self.samples@, cursor: self.cursor as int, full_run: self.full_run }
    }
}

/// The samples oldest first: from the cursor to the end, then the start.
pub open spec fn in_order<T>(s: Seq<T>, cursor: int) -> Seq<T> {
    s.skip(cursor) + s.take(cursor)
}

/// The last `k` elements of `xs` (all of them when there are fewer).
pub open spec fn last_n<T>(xs: Seq<T>, k: int) -> Seq<T> {
    if xs.len() <= k { xs } else { xs.skip(xs.len() - k) }
}

impl<T> WindowModel<T> {
    /// A bounded window holds at most the capacity and only overwrites
    /// once full; a full run never overwrites.
    pub open spec fn wf(self) -> bool {
        &&& 0 <= self.cursor < SAMPLE_CAPACITY
        &&& !self.full_run ==> self.samples.len() <= SAMPLE_CAPACITY
        &&& (self.full_run || self.samples.len() < SAMPLE_CAPACITY) ==> self.cursor == 0
    }

    /// The window after one sample.
    pub open spec fn pushed(self, x: T) -> WindowModel<T> {
        if self.full_run || self.samples.len() < SAMPLE_CAPACITY {
            WindowModel { samples: self.samples.push(x), ..self }
        } else {
            WindowModel {
                samples: self.samples.update(self.cursor, x),
                cursor: (self.cursor + 1) % (SAMPLE_CAPACITY as int),
                ..self
            }
        }
    }
}

/// The window after each of `xs` in turn.
pub open spec fn pushed_all<T>(m: WindowModel<T>, xs: Seq<T>) -> WindowModel<T>
    decreases xs.len(),
{
    if xs.len() == 0 { m } else { pushed_all(m, xs.drop_last()).pushed(xs.last()) }
}

impl<T> SampleWindow<T> {
    /// An empty window; `full_run` keeps every sample.
    pub fn new(full_run: bool) -> (w: Self)
        ensures
            w@ == (WindowModel { samples: Seq::<T>::empty(), cursor: 0, full_run }),
            w@.wf(),
    {
        SampleWindow { samples: Vec::new(), cursor: 0, full_run }
    }

    /// Add a sample: appended while there is room (always in a full run),
    /// else written over the oldest.
    pub fn push(&mut self, x: T)
        requires
            old(self)@.wf(),
            old(self)@.full_run ==> old(self)@.samples.len() < usize::MAX,
        ensures
            final(self)@ == old(self)@.pushed(x),
            final(self)@.wf(),
    {
        if self.full_run || self.samples.len() < SAMPLE_CAPACITY {
            self.samples.push(x);
        } else {
            self.samples.set(self.cursor, x);
            self.cursor = (self.cursor + 1) % SAMPLE_CAPACITY;
        }
    }

    /// The samples kept.
    pub fn samples(&self) -> (s: &Vec<T>)
        ensures
            s@ == self@.samples,
    {
        &self.samples
    }
}

/// A bounded window holds the most recent samples: after any sequence of
/// samples, read oldest first from the cursor, it is the last
/// [`SAMPLE_CAPACITY`] of them (all of them while fewer came).
pub proof fn lemma_window_keeps_most_recent<T>(xs: Seq<T>)
    ensures
        ({
            let m = pushed_all(WindowModel { samples: Seq::<T>::empty(), cursor: 0, full_run: false }, xs);
            &&& m.wf()
            &&& !m.full_run
            &&& in_order(m.samples, m.cursor) == last_n(xs, SAMPLE_CAPACITY as int)
        }),
    decreases xs.len(),
{
    let m0 = WindowModel { samples: Seq::<T>::empty(), cursor: 0, full_run: false };
    if xs.len() == 0 {
        assert(in_order(m0.samples, 0) =~= Seq::<T>::empty());
        assert(xs =~= Seq::<T>::empty());
        assert(pushed_all(m0, xs) == m0);
        assert(last_n(xs, SAMPLE_CAPACITY as int) == xs);
    } else {
        let init = xs.drop_last();
        let x = xs.last();
        lemma_window_keeps_most_recent(init);
        let m = pushed_all(m0, init);
        let n = m.pushed(x);
        assert(pushed_all(m0, xs) == n);
        let cap = SAMPLE_CAPACITY as int;
        let tail = last_n(init, cap);
        assert(in_order(m.samples, m.cursor) == tail);
        if m.samples.len() < cap {
            assert(m.cursor == 0);
            assert(in_order(m.samples, 0) =~= m.samples);
            assert(in_order(n.samples, 0) =~= m.samples.push(x));
            assert(m.samples.len() == tail.len());
            assert(tail.len() <= init.len());
            if init.len() > cap {
                assert(tail.len() == cap);
            }
            assert(init.len() <= cap);
            assert(tail =~= init);
            assert(xs =~= init.push(x));
            if xs.len() <= cap {
                assert(last_n(xs, cap) == xs);
            }
            assert(in_order(n.samples, n.cursor) =~= last_n(xs, cap));
            assert(n.wf());
            assert(in_order(pushed_all(m0, xs).samples, pushed_all(m0, xs).cursor) == last_n(xs, cap));
        } else {
            let s = m.samples;
            let c = m.cursor;
            assert(s.len() == cap);
            assert(tail.len() == cap);
            assert(init.len() >= cap);
            let s2 = s.update(c, x);
            let c2 = (c + 1) % cap;
            assert(in_order(s2, c2) =~= (s.skip(c + 1) + s.take(c)).push(x)) by {
                if c + 1 < cap {
                    assert(c2 == c + 1);
                    assert(s2.skip(c + 1) =~= s.skip(c + 1));
                    assert(s2.take(c + 1) =~= s.take(c).push(x));
                } else {
                    assert(c2 == 0);
                    assert(s2.skip(0) =~= s.take(c).push(x));
                    assert(s.skip(c + 1) =~= Seq::<T>::empty());
                }
            }
            assert(s.skip(c + 1) + s.take(c) =~= tail.drop_first()) by {
                assert(tail =~= s.skip(c) + s.take(c));
            }
            assert(tail =~= init.skip(init.len() - cap));
            assert(last_n(xs, cap) =~= tail.drop_first().push(x));
            assert(n.wf());
            assert(in_order(n.samples, n.cursor) =~= last_n(xs, cap));
        }
    }
}

/// Index of the nearest-rank 95th percentile in `len` sorted samples:
/// `ceil(len * 95 / 100) - 1`.
pub fn p95_index(len: usize) -> (i: usize)
    requires
        1 <= len,
        len * 95 <= usize::MAX,
    ensures
        i == (len * 95 + 99) / 100 - 1,
        i < len,
{
    let p = len * 95;
    let q = p / 100 + if p % 100 != 0 { 1 } else { 0 };
    assert(q == (len * 95 + 99) / 100);
    q - 1
}

} // verus!
