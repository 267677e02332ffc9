//! The adaptive rate limiter: the more requests a source received in the
//! recent window, the longer the next one waits, and a burst of requests
//! waits for the oldest to leave the window. The clock and the sleeping are
//! the caller's: times are nanoseconds on a monotonic clock.
use vstd::prelude::*;
use std::collections::VecDeque;

verus! {

/// Nanoseconds in a millisecond.
pub const NANOS_PER_MILLI: u64 = 1_000_000;

/// The extra wait after a burst, in milliseconds.
pub const BURST_MARGIN_MS: u64 = 500;

/// The delay before the next request when `recent` requests fell in the
/// window, in milliseconds.
pub open spec fn delay_for(recent: nat) -> nat {
    if recent == 0 { 800 }
    else if recent == 1 { 1000 }
    else if recent == 2 { 1200 }
    else if recent == 3 { 1500 }
    else if recent == 4 { 2000 }
    else if recent == 5 { 2500 }
    else if recent == 6 { 3000 }
    else if recent == 7 { 3500 }
    else if recent == 8 { 4000 }
    else if recent == 9 { 5000 }
    else { 6000 }
}

/// How loaded a source is, by the share of the burst threshold used.
#[derive(Debug, Clone, Copy, PartialEq, Eq, Structural)]
pub enum LoadLevel {
    Idle,
    Low,
    Medium,
    High,
    Critical,
}

impl LoadLevel {
    /// The level's name.
    pub fn as_str(&self) -> (r: &'static str)
        ensures
            r@ == (match *self {
                LoadLevel::Idle => "IDLE"@,
                LoadLevel::Low => "LOW"@,
                LoadLevel::Medium => "MEDIUM"@,
                LoadLevel::High => "HIGH"@,
                LoadLevel::Critical => "CRITICAL"@,
            }),
    {
        match self {
            LoadLevel::Idle => { proof { reveal_strlit("IDLE"); } "IDLE" },
            LoadLevel::Low => { proof { reveal_strlit("LOW"); } "LOW" },
            LoadLevel::Medium => { proof { reveal_strlit("MEDIUM"); } "MEDIUM" },
            LoadLevel::High => { proof { reveal_strlit("HIGH"); } "HIGH" },
            LoadLevel::Critical => { proof { reveal_strlit("CRITICAL"); } "CRITICAL" },
        }
    }
}

/// The load level when `recent` requests fell in the window: by the percentage
/// (rounded down) of the burst threshold, up to 20 idle, up to 40 low, up to
/// 60 medium, up to 80 high, above that critical.
pub open spec fn level_for(recent: nat, burst_threshold: nat) -> LoadLevel {
    let percent = (recent * 100) / burst_threshold;
    if percent <= 20 { LoadLevel::Idle }
    else if percent <= 40 { LoadLevel::Low }
    else if percent <= 60 { LoadLevel::Medium }
    else if percent <= 80 { LoadLevel::High }
    else { LoadLevel::Critical }
}

/// The delay for `recent` requests, raised to the minimum delay, scaled by
/// `100 + jitter` percent (rounded toward zero) and raised to the minimum again.
pub open spec fn jittered_delay(recent: nat, min_delay_ms: nat, jitter: int) -> nat {
    let base = if delay_for(recent) >= min_delay_ms { delay_for(recent) } else { min_delay_ms };
    let scaled = (base * (100 + jitter)) / 100;
    if scaled >= min_delay_ms { scaled as nat } else { min_delay_ms }
}

/// How long a burst waits at `now` (nanoseconds): with at least `threshold`
/// requests in the history, the time until the oldest leaves the window plus
/// half a second, when that time is not already up.
pub open spec fn burst_wait(times: Seq<u64>, window: nat, threshold: nat, now: nat) -> Option<u64> {
    if times.len() >= threshold && times.len() > 0 {
        let elapsed: int = if now >= times[0] { now - times[0] } else { 0 };
        let remaining: int = if window >= elapsed { window - elapsed } else { 0 };
        if remaining > 0 { Some((remaining + BURST_MARGIN_MS * NANOS_PER_MILLI) as u64) } else { None }
    } else {
        None
    }
}

/// The last `keep` of the times (all of them when there are fewer).
pub open spec fn kept_times(times: Seq<u64>, keep: nat) -> Seq<u64> {
    if times.len() > keep { times.subrange(times.len() - keep, times.len() as int) } else { times }
}

/// A busier window never asks for a shorter delay.
pub proof fn law_delay_grows_with_load(fewer: nat, more: nat)
    requires
        fewer <= more,
    ensures
        delay_for(fewer) <= delay_for(more),
{
}


/// Wraps `fastrand::i64` on the inclusive range from `low` to `high`: a
/// random number in that range.
#[verifier::external_body]
fn random_between(low: i64, high: i64) -> (r: i64)
    requires
        low <= high,
    ensures
        low <= r <= high,
{
    fastrand::i64(low..=high)
}

/// Paces the requests to one source.
#[derive(Debug)]
pub struct AdaptiveRateLimiter {
    /// When the recent requests were made, oldest first.
    history: VecDeque<u64>,
    /// The window, in nanoseconds.
    time_window_ns: u64,
    /// The least delay between requests, in milliseconds.
    min_delay_ms: u64,
    /// How many requests in the window make a burst.
    burst_threshold: usize,
}

impl AdaptiveRateLimiter {
    /// The request times, oldest first.
    pub closed spec fn times(&self) -> Seq<u64> {
        self.history@
    }

    /// The window, in nanoseconds.
    pub closed spec fn window(&self) -> nat {
        self.time_window_ns as nat
    }

    /// The least delay, in milliseconds.
    pub closed spec fn min_delay(&self) -> nat {
        self.min_delay_ms as nat
    }

    /// The burst threshold.
    pub closed spec fn threshold(&self) -> nat {
        self.burst_threshold as nat
    }

    /// The times are in order and no more than five past the threshold are kept.
    pub open spec fn well_formed(&self) -> bool {
        &&& forall|i: int, j: int| 0 <= i <= j < self.times().len() ==> self.times()[i] <= self.times()[j]
        &&& self.times().len() <= self.threshold() + 5
        &&& self.window() + BURST_MARGIN_MS * NANOS_PER_MILLI <= u64::MAX
        &&& self.min_delay() * 125 <= i64::MAX
    }

    /// A limiter with an empty history, a window of `time_window_secs`
    /// seconds, the given minimum delay and burst threshold.
    pub fn new(time_window_secs: u64, min_delay_ms: u64, burst_threshold: usize) -> (r: Self)
        requires
            time_window_secs * 1_000_000_000 + BURST_MARGIN_MS * NANOS_PER_MILLI <= u64::MAX,
            min_delay_ms * 125 <= i64::MAX,
        ensures
            r.times().len() == 0,
            r.window() == time_window_secs * 1_000_000_000,
            r.min_delay() == min_delay_ms,
            r.threshold() == burst_threshold,
            r.well_formed(),
    {
        AdaptiveRateLimiter {
            history: VecDeque::new(),
            time_window_ns: time_window_secs * 1_000_000_000,
            min_delay_ms,
            burst_threshold,
        }
    }

    /// The number of requests in the history.
    pub fn recent_requests(&self) -> (n: usize)
        ensures
            n == self.times().len(),
    {
        self.history.len()
    }

    /// Forgets the requests older than the window at `now`: the oldest ones
    /// that lie more than a window before `now` leave, the others stay.
    pub fn prune(&mut self, now: u64)
        requires
            old(self).well_formed(),
        ensures
            final(self).well_formed(),
            final(self).window() == old(self).window(),
            final(self).min_delay() == old(self).min_delay(),
            final(self).threshold() == old(self).threshold(),
            exists|k: int| 0 <= k <= old(self).times().len() && final(self).times() == #[trigger] old(self).times().subrange(k, old(self).times().len() as int)
                && forall|i: int| 0 <= i < k ==> now - #[trigger] old(self).times()[i] > old(self).window(),
            final(self).times().len() > 0 ==> now - final(self).times()[0] <= final(self).window(),
    {
        let ghost start = self.history@;
        let ghost mut k: int = 0;
        let mut go = true;
        while go
            invariant
                0 <= k <= start.len(),
                start == old(self).times(),
                self.time_window_ns == old(self).time_window_ns,
                self.min_delay_ms == old(self).min_delay_ms,
                self.burst_threshold == old(self).burst_threshold,
                old(self).well_formed(),
                self.history@ == start.subrange(k, start.len() as int),
                forall|i: int| 0 <= i < k ==> now - #[trigger] start[i] > self.time_window_ns,
                !go ==> (self.history@.len() > 0 ==> now - self.history@[0] <= self.time_window_ns),
            decreases self.history@.len() + (if go { 1int } else { 0int }),
        {
            if self.history.len() > 0 {
                let oldest = self.history[0];
                if now < oldest || now - oldest <= self.time_window_ns {
                    go = false;
                } else {
                    self.history.pop_front();
                    proof { k = k + 1; }
                }
            } else {
                go = false;
            }
        }
        proof {
            assert(self.times() == start.subrange(k, start.len() as int));
        }
    }

    /// How long a burst waits at `now`, in nanoseconds: when the history holds
    /// at least the threshold of requests, the time until the oldest leaves
    /// the window plus half a second; nothing when that time is already up.
    pub fn burst_wait_ns(&self, now: u64) -> (r: Option<u64>)
        requires
            self.well_formed(),
        ensures
            r == burst_wait(self.times(), self.window(), self.threshold(), now as nat),
    {
        if self.history.len() >= self.burst_threshold && self.history.len() > 0 {
            let oldest = self.history[0];
            let elapsed = if now >= oldest { now - oldest } else { 0 };
            let remaining = if self.time_window_ns >= elapsed { self.time_window_ns - elapsed } else { 0 };
            if remaining > 0 {
                Some(remaining + BURST_MARGIN_MS * NANOS_PER_MILLI)
            } else {
                None
            }
        } else {
            None
        }
    }

    /// The base delay when `recent_requests` fell in the window, in milliseconds.
    pub fn calculate_delay(&self, recent_requests: usize) -> (r: u64)
        ensures
            r == delay_for(recent_requests as nat),
    {
        match recent_requests {
            0 => 800,
            1 => 1000,
            2 => 1200,
            3 => 1500,
            4 => 2000,
            5 => 2500,
            6 => 3000,
            7 => 3500,
            8 => 4000,
            9 => 5000,
            _ => 6000,
        }
    }

    /// The load level when `recent_requests` fell in the window.
    pub fn get_load_level(&self, recent_requests: usize) -> (r: LoadLevel)
        requires
            self.threshold() > 0,
            recent_requests * 100 <= usize::MAX,
        ensures
            r == level_for(recent_requests as nat, self.threshold()),
    {
        let percent = (recent_requests * 100) / self.burst_threshold;
        if percent <= 20 {
            LoadLevel::Idle
        } else if percent <= 40 {
            LoadLevel::Low
        } else if percent <= 60 {
            LoadLevel::Medium
        } else if percent <= 80 {
            LoadLevel::High
        } else {
            LoadLevel::Critical
        }
    }

    /// The delay before the next request with a jitter of `jitter` percent, in
    /// milliseconds; never below the minimum delay.
    pub fn delay_with_jitter(&self, jitter: i64) -> (r: u64)
        requires
            self.well_formed(),
            -25 <= jitter <= 25,
        ensures
            r == jittered_delay(self.times().len(), self.min_delay(), jitter as int),
            r >= self.min_delay(),
    {
        let base = self.calculate_delay(self.history.len());
        let guaranteed = if base >= self.min_delay_ms { base } else { self.min_delay_ms };
        assert(guaranteed <= 6000 || guaranteed == self.min_delay_ms);
        assert(guaranteed * 125 <= i64::MAX);
        let g = guaranteed as i64;
        assert(0 <= g * (100 + jitter) <= g * 125) by (nonlinear_arith)
            requires 0 <= g, -25 <= jitter <= 25;
        let scaled = (g * (100 + jitter)) / 100;
        if scaled >= self.min_delay_ms as i64 {
            scaled as u64
        } else {
            self.min_delay_ms
        }
    }

    /// The delay before the next request, with a random jitter: some jitter
    /// from -25 to 25 percent gives it.
    pub fn next_delay_ms(&self) -> (r: u64)
        requires
            self.well_formed(),
        ensures
            exists|j: int| -25 <= j <= 25 && r == #[trigger] jittered_delay(self.times().len(), self.min_delay(), j),
            r >= self.min_delay(),
    {
        let jitter = random_between(-25, 25);
        self.delay_with_jitter(jitter)
    }

    /// Records a request made at `now` (no earlier than the last one), keeping
    /// no more than five requests past the threshold: the oldest leave first.
    pub fn record(&mut self, now: u64)
        requires
            old(self).well_formed(),
            old(self).times().len() > 0 ==> old(self).times().last() <= now,
        ensures
            final(self).well_formed(),
            final(self).window() == old(self).window(),
            final(self).min_delay() == old(self).min_delay(),
            final(self).threshold() == old(self).threshold(),
            final(self).times() == kept_times(old(self).times().push(now), old(self).threshold() + 5),
    {
        let ghost pushed = self.history@.push(now);
        self.history.push_back(now);
        assert(self.history@ == pushed);
        if self.history.len() > 5 && self.history.len() - 5 > self.burst_threshold {
            self.history.pop_front();
            assert(self.history@ == pushed.subrange(1, pushed.len() as int));
        } else {
            assert(pushed.subrange(0, pushed.len() as int) == pushed);
        }
    }
}

} // verus!
