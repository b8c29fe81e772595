//! Decisions of the refresh loop: how long to wait for input, and when a
//! scheduled refresh is due. The loop itself (waiting, reading keys,
//! drawing) runs around the library.

use vstd::prelude::*;

verus! {

/// Refresh interval used when none is configured, in milliseconds.
pub const DEFAULT_INTERVAL_MS: u64 = 1000;

/// Schedule of refreshes: the configured interval and the time of the last
/// refresh, both in milliseconds.
pub struct RefreshClock {
    pub interval_ms: u64,
    pub last_tick_ms: u64,
}

/// Time since the last refresh at `now` (none if the clock reads earlier).
pub open spec fn elapsed_ms(c: RefreshClock, now: u64) -> int {
    if now >= c.last_tick_ms {
        now - c.last_tick_ms
    } else {
        0
    }
}

/// How long the loop waits for input at `now`: until the next refresh is
/// due, or not at all when it is due already.
pub open spec fn wait_ms(c: RefreshClock, now: u64) -> int {
    if elapsed_ms(c, now) >= c.interval_ms {
        0
    } else {
        c.interval_ms - elapsed_ms(c, now)
    }
}

/// Whether a refresh is due at `now`.
pub open spec fn refresh_due(c: RefreshClock, now: u64) -> bool {
    elapsed_ms(c, now) >= c.interval_ms
}

/// The schedule after one refresh cycle with no key: the loop waits from
/// the last refresh until the wait runs out, then refreshes if one is due.
pub open spec fn idle_step(c: RefreshClock) -> RefreshClock {
    let wake = (c.last_tick_ms + wait_ms(c, c.last_tick_ms)) as u64;
    RefreshClock {
        interval_ms: c.interval_ms,
        last_tick_ms: if refresh_due(c, wake) {
            wake
        } else {
            c.last_tick_ms
        },
    }
}

/// The schedule after `k` refresh cycles with no key.
pub open spec fn idle_run(c: RefreshClock, k: nat) -> RefreshClock
    decreases k,
{
    if k == 0 {
        c
    } else {
        idle_step(idle_run(c, (k - 1) as nat))
    }
}

/// With no key, a refresh is due exactly one interval after the last one
/// and at no moment before it, and waiting from the last refresh ends right
/// then.
pub proof fn lemma_idle_wait(c: RefreshClock)
    requires
        c.interval_ms > 0,
        c.last_tick_ms + c.interval_ms <= u64::MAX,
    ensures
        c.last_tick_ms + wait_ms(c, c.last_tick_ms) == c.last_tick_ms + c.interval_ms,
        refresh_due(c, (c.last_tick_ms + c.interval_ms) as u64),
        forall|t: u64|
            c.last_tick_ms <= t < c.last_tick_ms + c.interval_ms ==> !#[trigger] refresh_due(c, t),
        idle_step(c).last_tick_ms == c.last_tick_ms + c.interval_ms,
        idle_step(c).interval_ms == c.interval_ms,
{
}

/// With no key, the `k`-th refresh comes `k` intervals after the start.
/// So within `h` milliseconds exactly `h / interval` refreshes happen: the
/// last of them is at most `h` after the start and the next is later.
pub proof fn lemma_idle_refreshes(c: RefreshClock, k: nat, h: nat)
    requires
        c.interval_ms > 0,
        c.last_tick_ms + (k + 1) * c.interval_ms <= u64::MAX,
        c.last_tick_ms + (h / (c.interval_ms as nat) + 1) * c.interval_ms <= u64::MAX,
    ensures
        idle_run(c, k).last_tick_ms == c.last_tick_ms + k * c.interval_ms,
        idle_run(c, k).interval_ms == c.interval_ms,
        idle_run(c, h / (c.interval_ms as nat)).last_tick_ms <= c.last_tick_ms + h,
        idle_run(c, h / (c.interval_ms as nat) + 1).last_tick_ms > c.last_tick_ms + h,
{
    let q = h / (c.interval_ms as nat);
    let i = c.interval_ms as nat;
    assert(k * i <= (k + 1) * i && q * i <= (q + 1) * i) by (nonlinear_arith)
        requires
            i > 0,
    ;
    lemma_idle_run(c, k);
    lemma_idle_run(c, q);
    lemma_idle_run(c, q + 1);
    assert(q * i <= h && h < (q + 1) * i) by (nonlinear_arith)
        requires
            q == h / i,
            i > 0,
    ;
}

proof fn lemma_idle_run(c: RefreshClock, k: nat)
    requires
        c.interval_ms > 0,
        c.last_tick_ms + k * c.interval_ms <= u64::MAX,
    ensures
        idle_run(c, k).last_tick_ms == c.last_tick_ms + k * c.interval_ms,
        idle_run(c, k).interval_ms == c.interval_ms,
    decreases k,
{
    if k > 0 {
        let i = c.interval_ms as int;
        assert((k - 1) * i + i == k * i && (k - 1) * i <= k * i) by (nonlinear_arith)
            requires
                k > 0,
                i > 0,
        ;
        lemma_idle_run(c, (k - 1) as nat);
        let p = idle_run(c, (k - 1) as nat);
        assert(p.last_tick_ms + p.interval_ms == c.last_tick_ms + k * i);
        lemma_idle_wait(p);
        assert(idle_run(c, k) == idle_step(p));
    } else {
        assert(k * c.interval_ms == 0) by (nonlinear_arith)
            requires
                k == 0,
        ;
    }
}

impl RefreshClock {
    /// A schedule whose first refresh is due one interval after `now_ms`.
    pub fn new(interval_ms: u64, now_ms: u64) -> (r: Self)
        ensures
            r.interval_ms == interval_ms,
            r.last_tick_ms == now_ms,
    {
        RefreshClock { interval_ms, last_tick_ms: now_ms }
    }

    /// How long to wait for input at `now_ms` before the next refresh is
    /// due; zero when it is due already.
    pub fn timeout_ms(&self, now_ms: u64) -> (r: u64)
        ensures
            r == wait_ms(*self, now_ms),
    {
        let elapsed = if now_ms >= self.last_tick_ms {
            now_ms - self.last_tick_ms
        } else {
            0
        };
        if elapsed >= self.interval_ms {
            0
        } else {
            self.interval_ms - elapsed
        }
    }

    /// Whether a refresh is due at `now_ms`; if so the schedule restarts
    /// from `now_ms`.
    pub fn tick_due(&mut self, now_ms: u64) -> (r: bool)
        ensures
            r == refresh_due(*old(self), now_ms),
            final(self).interval_ms == old(self).interval_ms,
            final(self).last_tick_ms == (if r {
                now_ms
            } else {
                old(self).last_tick_ms
            }),
    {
        let due = self.timeout_ms(now_ms) == 0;
        if due {
            self.last_tick_ms = now_ms;
        }
        due
    }
}

} // verus!
