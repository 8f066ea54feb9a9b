//! Fixed-capacity history of samples.
use crate::num::{larger, peak_bounds, peak_from, Num};
use vstd::prelude::*;

verus! {

/// A fixed-capacity ring buffer of samples, allocation-free on the push path.
/// Backs every sparkline and braille graph. At one sample a second a capacity of
/// 1024 holds about 17 minutes of history, wider than any real terminal at two
/// samples a cell.
pub struct Ring<N> {
    buf: Vec<N>,
    /// Next write position (also, when full, the oldest sample).
    head: usize,
    len: usize,
}

/// History capacity: enough for the widest conceivable terminal at two samples
/// a braille cell, with headroom.
pub const HIST_CAP: usize = 1024;

/// The last `n` items of `s`, all of them where there are fewer.
pub open spec fn newest<T>(s: Seq<T>, n: nat) -> Seq<T> {
    if n < s.len() {
        s.skip(s.len() - n)
    } else {
        s
    }
}

impl<N> Ring<N> {
    #[verifier::type_invariant]
    spec fn wf(self) -> bool {
        self.head < self.buf@.len() && self.len <= self.buf@.len()
    }

    /// How many samples the ring can hold.
    pub closed spec fn cap(self) -> nat {
        self.buf@.len()
    }

    /// The place in the buffer of the sample `back` steps before the next write.
    spec fn slot(self, back: int) -> int {
        if back <= self.head {
            self.head - back
        } else {
            self.head + self.buf@.len() - back
        }
    }
}

impl<N> View for Ring<N> {
    type V = Seq<N>;

    /// The samples, oldest first.
    closed spec fn view(&self) -> Seq<N> {
        Seq::new(self.len as nat, |i: int| self.buf@[self.slot(self.len - i)])
    }
}

impl<N: Num> Ring<N> {
    pub fn new(cap: usize) -> (r: Self)
        ensures
            r@ == Seq::<N>::empty(),
            r.cap() == if cap == 0 {
                1
            } else {
                cap as int
            },
    {
        let n: usize = if cap == 0 {
            1
        } else {
            cap
        };
        let mut buf: Vec<N> = Vec::with_capacity(n);
        let mut i: usize = 0;
        while i < n
            invariant
                i <= n,
                buf@.len() == i,
            decreases n - i,
        {
            buf.push(N::zero());
            i += 1;
        }
        let r = Ring { buf, head: 0, len: 0 };
        assert(r@ =~= Seq::empty());
        r
    }

    /// Push exactly one sample. Call once per poll tick, never per draw tick
    /// (the scroll illusion depends on one cell-shift per collected sample).
    pub fn push(&mut self, v: N)
        ensures
            old(self).cap() > 0,
            final(self).cap() == old(self).cap(),
            final(self)@ == newest(old(self)@.push(v), old(self).cap()),
    {
        proof {
            use_type_invariant(&*self);
        }
        let at: usize = self.head;
        let n: usize = self.buf.len();
        self.buf[at] = v;
        self.head = if at == n - 1 {
            0
        } else {
            at + 1
        };
        if self.len < n {
            self.len = self.len + 1;
        }
        assert(self@ =~= newest(old(self)@.push(v), old(self).cap()));
    }

    /// Number of valid samples (up to the capacity).
    pub fn len(&self) -> (r: usize)
        ensures
            r == self@.len(),
            r <= self.cap(),
    {
        proof {
            use_type_invariant(self);
        }
        self.len
    }

    pub fn is_empty(&self) -> (r: bool)
        ensures
            r == (self@.len() == 0),
    {
        self.len == 0
    }

    /// The sample `back` steps before the next write.
    fn nth_back(&self, back: usize) -> (r: N)
        requires
            1 <= back <= self@.len(),
        ensures
            r == self@[self@.len() - back],
    {
        proof {
            use_type_invariant(self);
        }
        if back <= self.head {
            self.buf[self.head - back]
        } else {
            self.buf[self.buf.len() - (back - self.head)]
        }
    }

    /// Oldest-to-newest view of the last `n` samples (all of them where there are
    /// fewer). The window is the *newest* `n` samples, ending at the last write,
    /// so a peak over the visible window always covers the current sample.
    pub fn tail(&self, n: usize, out: &mut Vec<N>)
        ensures
            final(out)@ == newest(self@, n as nat),
    {
        out.clear();
        let mut back: usize = if n < self.len {
            n
        } else {
            self.len
        };
        let ghost w = newest(self@, n as nat);
        while back > 0
            invariant
                back <= w.len() <= self@.len(),
                w == newest(self@, n as nat),
                out@ == w.take(w.len() - back),
            decreases back,
        {
            out.push(self.nth_back(back));
            back -= 1;
            assert(out@ =~= w.take(w.len() - back));
        }
        assert(out@ =~= w);
    }

    /// Owned last-`n` samples, oldest first. Convenience wrapper over [`Ring::tail`].
    pub fn tail_owned(&self, n: usize) -> (r: Vec<N>)
        ensures
            r@ == newest(self@, n as nat),
    {
        let mut v: Vec<N> = Vec::new();
        self.tail(n, &mut v);
        v
    }

    /// All samples, oldest first.
    pub fn samples(&self) -> (r: Vec<N>)
        ensures
            r@ == self@,
    {
        self.tail_owned(self.len())
    }

    /// Most recent sample, if any.
    pub fn last(&self) -> (r: Option<N>)
        ensures
            r == if self@.len() == 0 {
                None
            } else {
                Some(self@.last())
            },
    {
        if self.len == 0 {
            None
        } else {
            Some(self.nth_back(1))
        }
    }

    /// Largest of all valid samples (for a "peak" readout).
    pub fn max(&self) -> (r: Option<N>)
        ensures
            r == if self@.len() == 0 {
                None
            } else {
                Some(peak_from(self@, N::lowest_spec()))
            },
    {
        if self.len == 0 {
            return None;
        }
        let mut m = N::lowest();
        let mut back: usize = self.len;
        while back > 0
            invariant
                back <= self@.len(),
                m == peak_from(self@.take(self@.len() - back), N::lowest_spec()),
            decreases back,
        {
            m = larger(m, self.nth_back(back));
            back -= 1;
            assert(self@.take(self@.len() - back).drop_last() =~= self@.take(
                self@.len() - back - 1,
            ));
        }
        assert(self@.take(self@.len() as int) =~= self@);
        Some(m)
    }
}

impl<N: Num> Clone for Ring<N> {
    fn clone(&self) -> (r: Self)
        ensures
            r@ == self@,
            r.cap() == self.cap(),
    {
        proof {
            use_type_invariant(self);
        }
        let n: usize = self.buf.len();
        let mut buf: Vec<N> = Vec::with_capacity(n);
        let mut i: usize = 0;
        while i < n
            invariant
                i <= n,
                n == self.buf@.len(),
                buf@ == self.buf@.take(i as int),
            decreases n - i,
        {
            buf.push(self.buf[i]);
            i += 1;
            assert(buf@ =~= self.buf@.take(i as int));
        }
        assert(buf@ =~= self.buf@);
        Ring { buf, head: self.head, len: self.len }
    }
}

impl<N: Num> Default for Ring<N> {
    fn default() -> (r: Self)
        ensures
            r@ == Seq::<N>::empty(),
            r.cap() == HIST_CAP,
    {
        Ring::new(HIST_CAP)
    }
}

/// The peak over the newest `n` samples is never below the current sample.
pub proof fn window_peak_covers_current<N: Num>(s: Seq<N>, n: nat, start: N)
    requires
        s.len() > 0,
        n > 0,
        !start.is_nan_spec(),
    ensures
        !peak_from(newest(s, n), start).less_spec(s.last()),
{
    let w = newest(s, n);
    peak_bounds(w, start);
    assert(w[w.len() - 1] == s.last());
}

/// Pushing `v` makes it the current sample, and the `n` newest samples before it
/// stay in their order behind it, for every window shorter than the capacity.
pub proof fn push_shifts_the_window<N>(s: Seq<N>, v: N, cap: nat, n: nat)
    requires
        n < cap,
    ensures
        newest(newest(s.push(v), cap), n + 1) == newest(s, n).push(v),
{
    assert(newest(newest(s.push(v), cap), n + 1) =~= newest(s, n).push(v));
}

}
