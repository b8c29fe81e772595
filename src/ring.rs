//! Fixed-capacity FIFO history of a scalar counter.

use std::collections::VecDeque;
use vstd::prelude::*;
use vstd::relations::{sorted_by, total_ordering};
use vstd::seq_lib::{group_to_multiset_ensures, lemma_sorted_unique};

verus! {

broadcast use group_to_multiset_ensures;

/// Clamp quantile `P`, in percent: a clamped value never exceeds the
/// `P`-th percentile of the history and itself.
pub const CLAMP_QUANTILE_PERCENT: u64 = 95;

/// The last `n` elements of `s` (all of `s` when it is shorter).
pub open spec fn window<T>(s: Seq<T>, n: nat) -> Seq<T> {
    if s.len() <= n {
        s
    } else {
        s.subrange(s.len() - n, s.len() as int)
    }
}

/// The contents of a buffer of capacity `n` after pushing each of `pushed`,
/// in order, into an empty one.
pub open spec fn replay<T>(pushed: Seq<T>, n: nat) -> Seq<T>
    decreases pushed.len(),
{
    if pushed.len() == 0 {
        Seq::empty()
    } else {
        window(replay(pushed.drop_last(), n).push(pushed.last()), n)
    }
}

/// After any sequence of pushes a buffer of capacity `n` holds at most `n`
/// values, and they are the last `n` values pushed, in the order of pushing.
pub proof fn lemma_replay_keeps_last<T>(pushed: Seq<T>, n: nat)
    ensures
        replay(pushed, n) == window(pushed, n),
        replay(pushed, n).len() <= n,
    decreases pushed.len(),
{
    if pushed.len() > 0 {
        lemma_replay_keeps_last(pushed.drop_last(), n);
        let prev = pushed.drop_last();
        assert(pushed =~= prev.push(pushed.last()));
        assert(window(window(prev, n).push(pushed.last()), n) =~= window(pushed, n));
    }
}

/// Ascending order on counter values.
pub open spec fn ascending() -> spec_fn(u64, u64) -> bool {
    |a: u64, b: u64| a <= b
}

/// The value at position `k` of `s` in ascending order.
pub open spec fn order_statistic(s: Seq<u64>, k: int) -> u64 {
    s.sort_by(ascending())[k]
}

/// `round(k * P)` for `k >= 0`, halves rounded up.
pub open spec fn percentile_index(k: nat) -> nat {
    ((2 * k * CLAMP_QUANTILE_PERCENT + 100) / 200) as nat
}

/// The percentile threshold for a candidate `v` against a non-empty history:
/// the order statistic at `round((n - 1) * P)` of the history and `v`, where
/// `n` is their number.
pub open spec fn percentile_threshold(history: Seq<u64>, v: u64) -> u64 {
    order_statistic(history.push(v), percentile_index(history.len()) as int)
}

/// The value that a clamped push stores for candidate `v`: `v` itself on an
/// empty history, else `v` capped at the percentile threshold.
pub open spec fn clamp_to_percentile(history: Seq<u64>, v: u64) -> u64 {
    if history.len() == 0 {
        v
    } else if v > percentile_threshold(history, v) {
        percentile_threshold(history, v)
    } else {
        v
    }
}

/// Fixed-capacity ring buffer: holds at most `N` values, oldest first.
pub struct Ring<T, const N: usize> {
    inner: VecDeque<T>,
}

impl<T, const N: usize> View for Ring<T, N> {
    type V = Seq<T>;

    closed spec fn view(&self) -> Seq<T> {
        self.inner@
    }
}

impl<T, const N: usize> Ring<T, N> {
    /// Well formed: at most `N` values stored. Every buffer built by `new`,
    /// `push` and `push_clamped` is.
    pub open spec fn wf(&self) -> bool {
        self@.len() <= N
    }

    /// Creates an empty buffer.
    pub fn new() -> (r: Self)
        ensures
            r@ == Seq::<T>::empty(),
            r.wf(),
    {
        Ring { inner: VecDeque::with_capacity(N) }
    }

    /// Number of stored values.
    pub fn len(&self) -> (r: usize)
        ensures
            r == self@.len(),
    {
        self.inner.len()
    }

    /// Appends `value`, evicting the oldest value when the buffer is full.
    /// A buffer of capacity zero stays empty.
    pub fn push(&mut self, value: T)
        ensures
            final(self)@ == window(old(self)@.push(value), N as nat),
            final(self).wf(),
    {
        if N == 0 {
            self.inner.clear();
            proof {
                assert(self.inner@ =~= window(old(self)@.push(value), N as nat));
            }
            return;
        }
        // Only `push` fills the buffer, so this evicts at most one value.
        while self.inner.len() >= N
            invariant
                N > 0,
                self.inner@.len() <= old(self)@.len(),
                self.inner@ == old(self)@.subrange(
                    old(self)@.len() - self.inner@.len(),
                    old(self)@.len() as int,
                ),
                self.inner@.len() < old(self)@.len() ==> self.inner@.len() >= N - 1,
            decreases self.inner@.len(),
        {
            self.inner.pop_front();
        }
        self.inner.push_back(value);
        proof {
            assert(self.inner@ =~= window(old(self)@.push(value), N as nat));
        }
    }

    /// The stored values, oldest first, as one slice.
    pub fn make_contiguous(&mut self) -> (r: &mut [T])
        ensures
            r@ == old(self)@,
            final(r)@ == final(self)@,
            final(self)@.len() == old(self)@.len(),
    {
        deque_make_contiguous(&mut self.inner)
    }
}

/// Relies on `VecDeque::make_contiguous`: it returns the deque's values in
/// order as one slice, which the deque then consists of; the slice, being
/// borrowed as `&mut [T]`, keeps its length.
#[verifier::external_body]
fn deque_make_contiguous<T>(q: &mut VecDeque<T>) -> (r: &mut [T])
    ensures
        r@ == old(q)@,
        final(r)@ == final(q)@,
        final(r)@.len() == r@.len(),
{
    q.make_contiguous()
}

impl<const N: usize> Ring<u64, N> {
    /// A copy of the stored values, oldest first.
    pub fn values(&self) -> (r: Vec<u64>)
        ensures
            r@ == self@,
    {
        let mut out: Vec<u64> = Vec::new();
        let mut i: usize = 0;
        while i < self.inner.len()
            invariant
                i <= self.inner@.len(),
                out@ == self.inner@.subrange(0, i as int),
            decreases self.inner@.len() - i,
        {
            out.push(self.inner[i]);
            proof {
                assert(out@ =~= self.inner@.subrange(0, i + 1));
            }
            i = i + 1;
        }
        assert(out@ =~= self.inner@);
        out
    }

    /// Appends `value`, first capped at the percentile threshold of the
    /// stored values and itself, so that a transient spike cannot dominate
    /// the history. On an empty buffer the raw value is stored.
    pub fn push_clamped(&mut self, value: u64)
        requires
            old(self).wf(),
        ensures
            final(self).wf(),
            final(self)@ == window(old(self)@.push(clamp_to_percentile(old(self)@, value)), N as nat),
            old(self)@.len() == 0 ==> final(self)@ == window(seq![value], N as nat),
            old(self)@.len() > 0 ==> final(self)@.last() <= percentile_threshold(
                old(self)@,
                value,
            ),
    {
        if self.inner.len() == 0 {
            self.push(value);
            proof {
                assert(old(self)@.push(value) =~= seq![value]);
            }
            return;
        }
        let ghost history = self@;
        let sorted = sorted_with(&self.inner, value);
        let k = self.inner.len() as u128;
        assert(k * 2 * 95 + 100 <= u128::MAX) by (nonlinear_arith)
            requires
                k <= usize::MAX,
                usize::MAX <= u64::MAX,
        ;
        let p_index = ((k * 2 * (CLAMP_QUANTILE_PERCENT as u128) + 100) / 200) as usize;
        assert(p_index == percentile_index(history.len())) by {
            assert(CLAMP_QUANTILE_PERCENT == 95);
        }
        assert(p_index < sorted@.len()) by (nonlinear_arith)
            requires
                p_index == (2 * k * 95 + 100) / 200,
                sorted@.len() == k + 1,
        ;
        let threshold = sorted[p_index];
        let clamped = if value > threshold {
            threshold
        } else {
            value
        };
        self.push(clamped);
    }
}

/// Inserts `x` into the ascending `out`, after the values not above it.
fn insert_ascending(out: &mut Vec<u64>, x: u64)
    requires
        sorted_by(old(out)@, ascending()),
    ensures
        sorted_by(final(out)@, ascending()),
        final(out)@.to_multiset() == old(out)@.to_multiset().insert(x),
{
    let mut pos: usize = 0;
    while pos < out.len() && out[pos] <= x
        invariant
            pos <= out@.len(),
            forall|j: int| 0 <= j < pos ==> out@[j] <= x,
        decreases out@.len() - pos,
    {
        pos = pos + 1;
    }
    let ghost before = out@;
    out.insert(pos, x);
    proof {
        assert forall|a: int, b: int| 0 <= a < b < out@.len() implies #[trigger] (ascending())(
            out@[a],
            out@[b],
        ) by {
            if b < pos {
                assert((ascending())(before[a], before[b]));
            } else if b == pos {
            } else if a < pos {
                if b - 1 > a {
                    assert((ascending())(before[a], before[b - 1]));
                }
                assert((ascending())(before[pos as int], before[b - 1]) || b - 1 == pos as int);
            } else if a == pos {
                assert((ascending())(before[pos as int], before[b - 1]) || b - 1 == pos as int);
            } else {
                assert((ascending())(before[a - 1], before[b - 1]));
            }
        }
    }
}

/// `s` and `v` together, in ascending order.
fn sorted_with(s: &VecDeque<u64>, v: u64) -> (r: Vec<u64>)
    ensures
        r@ == s@.push(v).sort_by(ascending()),
        r@.len() == s@.len() + 1,
{
    let ghost data = s@.push(v);
    let mut out: Vec<u64> = Vec::new();
    let n = s.len();
    let mut i: usize = 0;
    while i < n
        invariant
            n == s@.len(),
            i <= n,
            sorted_by(out@, ascending()),
            out@.to_multiset() == s@.subrange(0, i as int).to_multiset(),
        decreases n - i,
    {
        insert_ascending(&mut out, s[i]);
        proof {
            assert(s@.subrange(0, i + 1) =~= s@.subrange(0, i as int).push(s@[i as int]));
        }
        i = i + 1;
    }
    insert_ascending(&mut out, v);
    proof {
        assert(s@.subrange(0, n as int) =~= s@);
        assert(total_ordering(ascending())) by {
            assert forall|a: u64, b: u64, c: u64|
                #[trigger] (ascending())(a, b) && #[trigger] (ascending())(b, c) implies (ascending())(
                a,
                c,
            ) by {}
        }
        data.lemma_sort_by_ensures(ascending());
        lemma_sorted_unique(out@, data.sort_by(ascending()), ascending());
        assert(out@.to_multiset().len() == data.to_multiset().len());
    }
    out
}

} // verus!
