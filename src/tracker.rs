//! A smoothed estimate of the time left in a stage, from bursty progress
//! samples.
//!
//! Progress is kept as a fraction in millionths, times as milliseconds on a
//! clock the caller reads. Samples older than five seconds leave the window;
//! each update with at least two samples adds an instantaneous estimate to a
//! history of the last five; at most every three seconds the mean of that
//! history becomes the published estimate.

use vstd::prelude::*;

verus! {

/// One whole, in the millionths that fractions are kept in.
pub const SCALE: u64 = 1_000_000;

/// How far back the sample window reaches, in milliseconds.
pub const WINDOW_MS: u64 = 5000;

/// The least time between two publications, in milliseconds.
pub const PUBLISH_MS: u64 = 3000;

/// How many instantaneous estimates are averaged.
pub const HISTORY_LEN: usize = 5;

/// Below this fraction an update counts as the start of a run (a multi-file
/// job restarts per file), and the stopwatch restarts.
pub const RESTART_BELOW: u64 = 10_000;

/// The largest estimate the tracker can produce, in milliseconds.
pub const MAX_ETA_MS: u64 = 5_000_000_000;

/// Why an update was refused.
#[derive(Debug, Clone, Copy, PartialEq, Eq)]
pub enum TrackerError {
    /// The total amount of work is zero.
    ZeroTotal,
    /// The clock reads earlier than at the previous update.
    ClockWentBack,
}

/// The state of a [`ProgressTracker`].
pub struct TrackerView {
    pub last_progress: u64,
    pub samples: Seq<(u64, u64)>,
    pub etas: Seq<u64>,
    pub last_eta_update: u64,
    pub publish_timer: u64,
    pub stopwatch: u64,
    pub eta: u64,
    pub latest: u64,
}

/// A windowed, smoothed estimator of the time left.
pub struct ProgressTracker {
    last_cycle_progress: u64,
    progress_history: Vec<(u64, u64)>,
    eta_history: Vec<u64>,
    last_eta_update: u64,
    eta_update_timer: u64,
    eta_timer: u64,
    current_eta: u64,
    latest: u64,
}

/// `curr` out of `total` in millionths, `curr` capped at `total`.
pub open spec fn fraction_of(curr: u64, total: u64) -> u64
    recommends
        total > 0,
{
    let c = if curr > total {
        total
    } else {
        curr
    };
    (c as int * SCALE as int / total as int) as u64
}

/// The samples left once those more than a window older than `now` are
/// dropped from the front.
pub open spec fn evict(samples: Seq<(u64, u64)>, now: u64) -> Seq<(u64, u64)>
    decreases samples.len(),
{
    if samples.len() > 0 && now as int - samples[0].0 as int > WINDOW_MS as int {
        evict(samples.drop_first(), now)
    } else {
        samples
    }
}

/// The instantaneous estimate: the time taken for the progress made, scaled
/// to the progress left.
pub open spec fn estimate(elapsed: int, progress_made: int, progress_left: int) -> int {
    elapsed * progress_left / progress_made
}

/// The sum of a sequence of estimates.
pub open spec fn sum(s: Seq<u64>) -> int
    decreases s.len(),
{
    if s.len() == 0 {
        0
    } else {
        sum(s.drop_last()) + s.last() as int
    }
}

/// The tracker after an update at time `now` with `curr` of `total` done.
pub open spec fn update_spec(v: TrackerView, now: u64, curr: u64, total: u64) -> Result<TrackerView, TrackerError> {
    if total == 0 {
        Err(TrackerError::ZeroTotal)
    } else if now < v.latest {
        Err(TrackerError::ClockWentBack)
    } else {
        let f = fraction_of(curr, total);
        let stopwatch = if f < RESTART_BELOW {
            now
        } else {
            v.stopwatch
        };
        let samples = evict(v.samples.push((now, f)), now);
        let start = samples[0];
        let grows = samples.len() > 1 && f > start.1;
        let pushed = v.etas.push(estimate(now - start.0, f - start.1, SCALE - f) as u64);
        let etas = if !grows {
            v.etas
        } else if pushed.len() > HISTORY_LEN {
            pushed.drop_first()
        } else {
            pushed
        };
        let last_eta_update = if grows {
            now
        } else {
            v.last_eta_update
        };
        let publish = now - v.publish_timer >= PUBLISH_MS && etas.len() > 0;
        Ok(TrackerView {
            last_progress: f,
            samples,
            etas,
            last_eta_update,
            publish_timer: if publish {
                now
            } else {
                v.publish_timer
            },
            stopwatch,
            eta: if publish {
                (sum(etas) / etas.len() as int) as u64
            } else {
                v.eta
            },
            latest: now,
        })
    }
}

/// A tracker started at time `now`: no samples, no estimates, nothing
/// published.
pub open spec fn fresh_tracker(now: u64) -> TrackerView {
    TrackerView {
        last_progress: 0,
        samples: Seq::empty(),
        etas: Seq::empty(),
        last_eta_update: now,
        publish_timer: now,
        stopwatch: now,
        eta: 0,
        latest: now,
    }
}

/// The tracker's invariant: every time is at most the latest one, fractions
/// are at most one whole, and the estimates are bounded.
pub open spec fn tracker_ok(v: TrackerView) -> bool {
    &&& v.publish_timer <= v.latest
    &&& v.stopwatch <= v.latest
    &&& v.last_eta_update <= v.latest
    &&& forall|i: int| 0 <= i < v.samples.len() ==> (#[trigger] v.samples[i]).0 <= v.latest && v.samples[i].1 <= SCALE
    &&& v.etas.len() <= HISTORY_LEN
    &&& forall|i: int| 0 <= i < v.etas.len() ==> #[trigger] v.etas[i] <= MAX_ETA_MS
    &&& v.eta <= MAX_ETA_MS
}

proof fn lemma_sum_bound(s: Seq<u64>)
    requires
        forall|i: int| 0 <= i < s.len() ==> #[trigger] s[i] <= MAX_ETA_MS,
    ensures
        0 <= sum(s) <= s.len() * MAX_ETA_MS,
    decreases s.len(),
{
    if s.len() > 0 {
        lemma_sum_bound(s.drop_last());
    }
}

proof fn lemma_evict_facts(samples: Seq<(u64, u64)>, now: u64)
    ensures
        evict(samples, now).len() <= samples.len(),
        forall|i: int| 0 <= i < evict(samples, now).len()
            ==> exists|j: int| 0 <= j < samples.len() && #[trigger] evict(samples, now)[i] == samples[j],
        evict(samples, now).len() > 0 ==> now as int - evict(samples, now)[0].0 as int <= WINDOW_MS as int,
        samples.len() > 0 && samples.last().0 == now ==> evict(samples, now).len() > 0,
    decreases samples.len(),
{
    if samples.len() > 0 && now as int - samples[0].0 as int > WINDOW_MS as int {
        let rest = samples.drop_first();
        lemma_evict_facts(rest, now);
        assert forall|i: int| 0 <= i < evict(samples, now).len()
            implies exists|j: int| 0 <= j < samples.len() && #[trigger] evict(samples, now)[i] == samples[j] by {
            let j = choose|j: int| 0 <= j < rest.len() && evict(rest, now)[i] == rest[j];
            assert(samples[j + 1] == rest[j]);
        }
        if samples.len() > 0 && samples.last().0 == now {
            if rest.len() == 0 {
                assert(samples.len() == 1);
                assert(samples[0] == samples.last());
            } else {
                assert(rest.last() == samples.last());
            }
        }
    } else {
        assert forall|i: int| 0 <= i < evict(samples, now).len()
            implies exists|j: int| 0 <= j < samples.len() && #[trigger] evict(samples, now)[i] == samples[j] by {
            assert(evict(samples, now)[i] == samples[i]);
        }
    }
}

impl ProgressTracker {
    /// The tracker's state.
    pub closed spec fn view(&self) -> TrackerView {
        TrackerView {
            last_progress: self.last_cycle_progress,
            samples: self.progress_history@,
            etas: self.eta_history@,
            last_eta_update: self.last_eta_update,
            publish_timer: self.eta_update_timer,
            stopwatch: self.eta_timer,
            eta: self.current_eta,
            latest: self.latest,
        }
    }

    /// The tracker's invariant.
    pub open spec fn wf(&self) -> bool {
        tracker_ok(self.view())
    }

    /// A tracker started at time `now_ms`, with nothing published yet.
    pub fn new(now_ms: u64) -> (t: ProgressTracker)
        ensures
            t.wf(),
            t.view() == fresh_tracker(now_ms),
    {
        let t = ProgressTracker {
            last_cycle_progress: 0,
            progress_history: Vec::new(),
            eta_history: Vec::new(),
            last_eta_update: now_ms,
            eta_update_timer: now_ms,
            eta_timer: now_ms,
            current_eta: 0,
            latest: now_ms,
        };
        assert(t.view().samples =~= Seq::empty());
        assert(t.view().etas =~= Seq::empty());
        t
    }

    /// The published estimate of the time left, in milliseconds; 0 until the
    /// first publication.
    pub fn get_eta(&self) -> (r: u64)
        ensures
            r == self.view().eta,
    {
        self.current_eta
    }

    /// Records that `curr` of `total` is done at time `now_ms`, and publishes
    /// a new estimate where one is due. A refused update changes nothing.
    pub fn update(&mut self, now_ms: u64, curr: u64, total: u64) -> (r: Result<(), TrackerError>)
        requires
            old(self).wf(),
        ensures
            final(self).wf(),
            match update_spec(old(self).view(), now_ms, curr, total) {
                Ok(v) => r is Ok && final(self).view() == v,
                Err(e) => r == Err::<(), TrackerError>(e) && final(self).view() == old(self).view(),
            },
    {
        if total == 0 {
            return Err(TrackerError::ZeroTotal);
        }
        if now_ms < self.latest {
            return Err(TrackerError::ClockWentBack);
        }
        let ghost v = self.view();
        let c = if curr > total { total } else { curr };
        assert(c as int * SCALE as int / total as int <= SCALE) by (nonlinear_arith)
            requires
                c <= total,
                total > 0,
        {
            assert(c as int * SCALE as int <= total as int * SCALE as int);
        }
        let current_progress: u64 = ((c as u128 * SCALE as u128) / total as u128) as u64;
        if current_progress < RESTART_BELOW {
            self.eta_timer = now_ms;
        }
        self.progress_history.push((now_ms, current_progress));
        let ghost pushed = self.progress_history@;
        let ghost stopwatch = self.eta_timer;
        proof {
            lemma_evict_facts(pushed, now_ms);
        }
        while self.progress_history.len() > 0 && now_ms - self.progress_history[0].0 > WINDOW_MS
            invariant
                evict(self.progress_history@, now_ms) == evict(pushed, now_ms),
                forall|i: int| 0 <= i < self.progress_history@.len() ==> (#[trigger] self.progress_history@[i]).0 <= now_ms,
                self.eta_history@ == v.etas,
                self.last_eta_update == v.last_eta_update,
                self.eta_update_timer == v.publish_timer,
                self.eta_timer == stopwatch,
                self.current_eta == v.eta,
                self.last_cycle_progress == v.last_progress,
                self.latest == v.latest,
            decreases self.progress_history@.len(),
        {
            let ghost before = self.progress_history@;
            self.progress_history.remove(0);
            assert(self.progress_history@ =~= before.drop_first());
        }
        assert(self.progress_history@ == evict(pushed, now_ms));
        if self.progress_history.len() > 1 {
            let (start_time, start_progress) = self.progress_history[0];
            if current_progress > start_progress {
                assert(now_ms as int - start_time as int <= WINDOW_MS as int);
                let elapsed = now_ms - start_time;
                let left = SCALE - current_progress;
                let made = current_progress - start_progress;
                assert(elapsed as int * left as int / made as int <= MAX_ETA_MS) by (nonlinear_arith)
                    requires
                        elapsed <= WINDOW_MS,
                        left <= SCALE,
                        made >= 1,
                {
                    assert(elapsed as int * left as int <= WINDOW_MS as int * SCALE as int);
                }
                assert(elapsed as int * left as int <= WINDOW_MS as int * SCALE as int) by (nonlinear_arith)
                    requires
                        elapsed <= WINDOW_MS,
                        left <= SCALE,
                {
                }
                let eta = (elapsed * left) / made;
                self.eta_history.push(eta);
                if self.eta_history.len() > HISTORY_LEN {
                    let ghost before = self.eta_history@;
                    self.eta_history.remove(0);
                    assert(self.eta_history@ =~= before.drop_first());
                }
                self.last_eta_update = now_ms;
            }
        }
        if now_ms - self.eta_update_timer >= PUBLISH_MS && self.eta_history.len() > 0 {
            let mut total_eta: u64 = 0;
            let mut i: usize = 0;
            proof {
                lemma_sum_bound(self.eta_history@);
            }
            while i < self.eta_history.len()
                invariant
                    i <= self.eta_history@.len(),
                    self.eta_history@.len() <= HISTORY_LEN,
                    forall|k: int| 0 <= k < self.eta_history@.len() ==> #[trigger] self.eta_history@[k] <= MAX_ETA_MS,
                    total_eta == sum(self.eta_history@.take(i as int)),
                decreases self.eta_history@.len() - i,
            {
                assert(self.eta_history@.take(i + 1).drop_last() =~= self.eta_history@.take(i as int));
                proof {
                    lemma_sum_bound(self.eta_history@.take(i as int));
                }
                total_eta = total_eta + self.eta_history[i];
                i = i + 1;
            }
            assert(self.eta_history@.take(i as int) =~= self.eta_history@);
            let n = self.eta_history.len() as u64;
            assert(total_eta as int / n as int <= MAX_ETA_MS) by (nonlinear_arith)
                requires
                    total_eta <= n * MAX_ETA_MS,
                    n >= 1,
            {
            }
            self.current_eta = total_eta / n;
            self.eta_update_timer = now_ms;
        }
        self.last_cycle_progress = current_progress;
        self.latest = now_ms;
        Ok(())
    }
}

/// Every accepted update keeps the tracker's invariant, so no estimate, and
/// no published value, ever exceeds the bound.
pub proof fn lemma_update_keeps_bound(v: TrackerView, now: u64, curr: u64, total: u64)
    requires
        tracker_ok(v),
    ensures
        update_spec(v, now, curr, total) matches Ok(v2) ==> tracker_ok(v2) && v2.eta <= MAX_ETA_MS,
{
    if total > 0 && now >= v.latest {
        let f = fraction_of(curr, total);
        let c = if curr > total { total } else { curr };
        assert(c as int * SCALE as int / total as int <= SCALE) by (nonlinear_arith)
            requires
                c <= total,
                total > 0,
        {
            assert(c as int * SCALE as int <= total as int * SCALE as int);
        }
        let pushed = v.samples.push((now, f));
        lemma_evict_facts(pushed, now);
        let samples = evict(pushed, now);
        assert forall|i: int| 0 <= i < samples.len() implies (#[trigger] samples[i]).0 <= now && samples[i].1 <= SCALE by {
            let j = choose|j: int| 0 <= j < pushed.len() && samples[i] == pushed[j];
            if j < v.samples.len() {
                assert(pushed[j] == v.samples[j]);
            }
        }
        let start = samples[0];
        if samples.len() > 1 && f > start.1 {
            let elapsed = now - start.0;
            let made = f - start.1;
            let left = SCALE - f;
            assert(elapsed * left / made <= MAX_ETA_MS) by (nonlinear_arith)
                requires
                    elapsed <= WINDOW_MS,
                    0 <= left <= SCALE,
                    made >= 1,
            {
                assert(elapsed * left <= WINDOW_MS as int * SCALE as int);
            }
        }
        let v2 = update_spec(v, now, curr, total)->Ok_0;
        assert forall|i: int| 0 <= i < v2.etas.len() implies #[trigger] v2.etas[i] <= MAX_ETA_MS by {
            let pushed_e = v.etas.push(estimate(now - start.0, f - start.1, SCALE - f) as u64);
            if samples.len() > 1 && f > start.1 && pushed_e.len() > HISTORY_LEN {
                assert(v2.etas[i] == pushed_e[i + 1]);
            }
        }
        if now - v.publish_timer >= PUBLISH_MS && v2.etas.len() > 0 {
            lemma_sum_bound(v2.etas);
            let n = v2.etas.len() as int;
            assert(sum(v2.etas) / n <= MAX_ETA_MS) by (nonlinear_arith)
                requires
                    sum(v2.etas) <= n * MAX_ETA_MS,
                    n >= 1,
            {
            }
        }
    }
}

/// Progress that falls back near zero (a new file of a multi-file job)
/// restarts the stopwatch, and the estimates stay bounded: none is negative
/// and none exceeds the bound.
pub proof fn lemma_reset_restarts_stopwatch(v: TrackerView, now: u64, curr: u64, total: u64)
    requires
        tracker_ok(v),
        update_spec(v, now, curr, total) is Ok,
        fraction_of(curr, total) < RESTART_BELOW,
    ensures
        update_spec(v, now, curr, total)->Ok_0.stopwatch == now,
        update_spec(v, now, curr, total)->Ok_0.eta <= MAX_ETA_MS,
        forall|i: int| 0 <= i < update_spec(v, now, curr, total)->Ok_0.etas.len()
            ==> #[trigger] update_spec(v, now, curr, total)->Ok_0.etas[i] <= MAX_ETA_MS,
{
    lemma_update_keeps_bound(v, now, curr, total);
}

/// At a steady rate the instantaneous estimate is exact: where the progress
/// `made` in `elapsed` milliseconds would cover the progress `left` in `rest`
/// milliseconds, the estimate is `rest`.
pub proof fn lemma_steady_rate_estimate(elapsed: int, made: int, left: int, rest: int)
    requires
        made > 0,
        rest >= 0,
        made * rest == elapsed * left,
    ensures
        estimate(elapsed, made, left) == rest,
{
    assert(elapsed * left / made == rest) by (nonlinear_arith)
        requires
            made > 0,
            made * rest == elapsed * left,
    {
        vstd::arithmetic::div_mod::lemma_div_multiples_vanish(rest, made);
    }
}

/// The published value is the mean of the recent estimates, so it lies
/// between the smallest and the largest of them.
pub proof fn lemma_mean_within(etas: Seq<u64>, lo: u64, hi: u64)
    requires
        etas.len() > 0,
        forall|i: int| 0 <= i < etas.len() ==> lo <= #[trigger] etas[i] <= hi,
    ensures
        lo <= sum(etas) / etas.len() as int <= hi,
{
    lemma_sum_between(etas, lo, hi);
    let n = etas.len() as int;
    let s = sum(etas);
    assert(lo <= s / n <= hi) by (nonlinear_arith)
        requires
            n > 0,
            n * lo <= s <= n * hi,
    {
        vstd::arithmetic::div_mod::lemma_div_is_ordered(n * lo, s, n);
        vstd::arithmetic::div_mod::lemma_div_is_ordered(s, n * hi, n);
        vstd::arithmetic::div_mod::lemma_div_multiples_vanish(lo as int, n);
        vstd::arithmetic::div_mod::lemma_div_multiples_vanish(hi as int, n);
    }
}

proof fn lemma_sum_between(etas: Seq<u64>, lo: u64, hi: u64)
    requires
        forall|i: int| 0 <= i < etas.len() ==> lo <= #[trigger] etas[i] <= hi,
    ensures
        etas.len() * lo <= sum(etas) <= etas.len() * hi,
    decreases etas.len(),
{
    if etas.len() > 0 {
        lemma_sum_between(etas.drop_last(), lo, hi);
        assert(etas.last() == etas[etas.len() - 1]);
        assert(etas.len() * lo == (etas.len() - 1) * lo + lo) by (nonlinear_arith);
        assert(etas.len() * hi == (etas.len() - 1) * hi + hi) by (nonlinear_arith);
    }
}

} // verus!
