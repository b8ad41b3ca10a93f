//! The fixed-rate congestion controller.
//!
//! The controller keeps a smoothed round-trip-time estimate as a fixed-point
//! ratio (a weighted sum of RTT samples over a sum of weights) and, on every
//! acknowledgment, recomputes the congestion window that would sustain the
//! configured target rate at that RTT:
//! `window_bytes == kbits_per_sec * rtt_msec / 8`.
//! Congestion signals are ignored by design: the sending rate is pinned to
//! the configured target, not to what a loss-reactive algorithm would pick.

use vstd::prelude::*;

verus! {

/// Fixed-point weight carried by each new RTT sample.
pub const SAMPLE_WEIGHT: u64 = 0x1_0000_0000;

/// Steady value of the weight sum. With a decay of 1/256 per step, the weight
/// sum is stationary exactly where the decay removes one sample weight, at
/// `256 * SAMPLE_WEIGHT`; the constructor seeds it there, and it never moves.
pub const FULL_WEIGHT: u64 = 0x100_0000_0000;

/// RTT seed at construction, in milliseconds: the controller starts out as if
/// a one-second round trip had been measured, so the estimate is well defined
/// before the first acknowledgment.
pub const SEED_RTT_MSEC: u64 = 1000;

/// Largest admissible RTT sample, in milliseconds (about 17.5 minutes).
/// Keeps the fixed-point sample sum within `MAX_RTT_SUM`.
pub const MAX_RTT_MSEC: u64 = 0x10_0000;

/// Largest supported target rate, in kilobits per second (about 10^12).
/// Keeps the window formula free of overflow for every admissible estimate.
pub const MAX_KBITS_PER_SEC: u64 = 0x100_0000_0000;

/// Invariant bound on the fixed-point RTT sample sum.
pub const MAX_RTT_SUM: u64 = 0x1000_0000_0000_0000;

/// The sample sum seeded at construction: `SEED_RTT_MSEC` carried at the
/// steady weight, that is `1000 * FULL_WEIGHT`.
pub const SEED_RTT_SUM: u64 = 1_099_511_627_776_000;

/// Configuration of the controller: the desired sustained sending rate, in
/// kilobits per second. Immutable after construction.
#[derive(Clone, Copy, Debug, PartialEq, Eq, Structural)]
pub struct FixedRateConfig {
    pub kbits_per_sec: u64,
}

/// The fixed-rate controller: the target rate, the fixed-point smoothed-RTT
/// state, and the congestion window derived from them.
#[derive(Clone, Copy, Debug, PartialEq, Eq, Structural)]
pub struct FixedRate {
    pub config: FixedRateConfig,
    pub rtt_msec_sum: u64,
    pub rtt_msec_weight: u64,
    pub window: u64,
}

/// One decay-and-sample step of the RTT sample sum: shrink by 1/256, then add
/// the new sample carried at one sample weight (`SAMPLE_WEIGHT`).
pub open spec fn next_rtt_sum(sum: u64, rtt_msec: u64) -> int {
    sum - sum / 256 + rtt_msec * SAMPLE_WEIGHT
}

/// One decay-and-sample step of the weight sum: shrink by 1/256, then add one
/// sample weight (`SAMPLE_WEIGHT`).
pub open spec fn next_rtt_weight(weight: u64) -> int {
    weight - weight / 256 + SAMPLE_WEIGHT
}

/// The smoothed RTT estimate, in milliseconds, read off the fixed-point
/// ratio.
pub open spec fn rtt_estimate(sum: int, weight: int) -> int {
    sum / weight
}

/// The window formula: the byte budget that sustains `kbits_per_sec` when a
/// round trip takes `rtt_msec` (kilobits/s * ms = bits, and bits / 8 = bytes).
pub open spec fn window_formula(kbits_per_sec: int, rtt_msec: int) -> int {
    kbits_per_sec * rtt_msec / 8
}

impl FixedRate {
    /// The smoothed RTT estimate of this controller state.
    pub open spec fn smoothed_rtt_msec(&self) -> int {
        rtt_estimate(self.rtt_msec_sum as int, self.rtt_msec_weight as int)
    }

    /// Well-formedness: the rate is within the supported range, the weight
    /// sum sits at its steady value, the sample sum is bounded, and the
    /// window caches exactly the formula value for the current estimate.
    pub open spec fn wf(&self) -> bool {
        &&& self.config.kbits_per_sec <= MAX_KBITS_PER_SEC
        &&& self.rtt_msec_weight == FULL_WEIGHT
        &&& self.rtt_msec_sum <= MAX_RTT_SUM
        &&& self.window == window_formula(self.config.kbits_per_sec as int, self.smoothed_rtt_msec())
    }
}

/// The controller state after one acknowledgment whose RTT sample is
/// `rtt_msec`: both fixed-point sums take a decay-and-sample step, and the
/// window is recomputed from the new estimate.
pub open spec fn spec_on_ack(c: FixedRate, rtt_msec: u64) -> FixedRate {
    let sum = next_rtt_sum(c.rtt_msec_sum, rtt_msec);
    let weight = next_rtt_weight(c.rtt_msec_weight);
    FixedRate {
        config: c.config,
        rtt_msec_sum: sum as u64,
        rtt_msec_weight: weight as u64,
        window: window_formula(c.config.kbits_per_sec as int, rtt_estimate(sum, weight)) as u64,
    }
}

/// The controller state produced by construction: the RTT estimate seeded to
/// `SEED_RTT_MSEC` at the steady weight, and the window set for a one-second
/// round trip.
pub open spec fn spec_new(config: FixedRateConfig) -> FixedRate {
    FixedRate {
        config,
        rtt_msec_sum: SEED_RTT_SUM,
        rtt_msec_weight: FULL_WEIGHT,
        window: (config.kbits_per_sec * 125) as u64,
    }
}

impl FixedRate {
    /// Builds a controller for the given target rate.
    pub fn new(config: FixedRateConfig) -> (controller: FixedRate)
        requires
            config.kbits_per_sec <= MAX_KBITS_PER_SEC,
        ensures
            controller == spec_new(config),
            controller.wf(),
            controller.window == config.kbits_per_sec * 1000 / 8,
    {
        FixedRate {
            rtt_msec_sum: SEED_RTT_SUM,
            rtt_msec_weight: FULL_WEIGHT,
            window: config.kbits_per_sec * 125,
            config,
        }
    }

    /// Returns the current congestion window, in bytes. A pure read of the
    /// cached value; only `on_ack` recomputes it.
    pub fn window(&self) -> (bytes: u64)
        ensures
            bytes == self.window,
    {
        self.window
    }

    /// Records an acknowledgment: folds the RTT sample into the smoothed
    /// estimate and recomputes the window for the configured rate.
    ///
    /// `_bytes_acked` and `_app_limited` are accepted per the controller
    /// interface but deliberately have no effect: a fixed-rate policy ignores
    /// flight size and application-limited signals.
    pub fn on_ack(&mut self, _bytes_acked: u64, _app_limited: bool, rtt_msec: u64)
        requires
            old(self).wf(),
            rtt_msec <= MAX_RTT_MSEC,
        ensures
            *final(self) == spec_on_ack(*old(self), rtt_msec),
            final(self).wf(),
            final(self).config == old(self).config,
    {
        self.rtt_msec_sum = self.rtt_msec_sum - self.rtt_msec_sum / 256 + rtt_msec * SAMPLE_WEIGHT;
        self.rtt_msec_weight = self.rtt_msec_weight - self.rtt_msec_weight / 256 + SAMPLE_WEIGHT;

        let rtt_msec_avg: u64 = self.rtt_msec_sum / self.rtt_msec_weight;
        proof {
            assert(self.config.kbits_per_sec * rtt_msec_avg <= 0x1000_0000_0000_0000)
                by (nonlinear_arith)
                requires
                    self.config.kbits_per_sec <= 0x100_0000_0000,
                    rtt_msec_avg <= 0x10_0000;
        }
        self.window = self.config.kbits_per_sec * rtt_msec_avg / 8;
    }

    /// Receives a congestion signal (loss, an ECN mark, or persistent
    /// congestion) — and deliberately does nothing. Not backing off is the
    /// defining choice of a fixed-rate policy.
    pub fn on_congestion_event(&mut self, _is_persistent_congestion: bool)
        ensures
            *final(self) == *old(self),
    {
    }

    /// Returns an independent copy with identical state. The copy shares no
    /// mutable state with the original, so later calls on one never affect
    /// the other.
    pub fn duplicate(&self) -> (copy: FixedRate)
        ensures
            copy == *self,
    {
        self.clone()
    }

    /// Returns the byte budget for a connection that has not yet measured any
    /// round trip: the formula value at the one-second seed RTT.
    pub fn initial_window(&self) -> (bytes: u64)
        requires
            self.config.kbits_per_sec <= MAX_KBITS_PER_SEC,
        ensures
            bytes == self.config.kbits_per_sec * 1000 / 8,
            bytes == window_formula(self.config.kbits_per_sec as int, SEED_RTT_MSEC as int),
    {
        self.config.kbits_per_sec * 125
    }
}

impl FixedRateConfig {
    /// Builds a fresh controller seeded from this configuration. Each call
    /// yields an independent instance: one configuration can seed many
    /// controllers.
    pub fn build(&self) -> (controller: FixedRate)
        requires
            self.kbits_per_sec <= MAX_KBITS_PER_SEC,
        ensures
            controller == spec_new(*self),
            controller.wf(),
    {
        FixedRate::new(self.clone())
    }
}

/// An input to the controller, as its state sees one: an acknowledgment
/// carrying an RTT sample, or a congestion signal.
pub enum ControllerEvent {
    Ack { rtt_msec: u64 },
    Congestion,
}

/// The controller state after one event: an acknowledgment takes the
/// decay-and-sample step, a congestion signal leaves the state untouched.
pub open spec fn spec_on_event(c: FixedRate, event: ControllerEvent) -> FixedRate {
    match event {
        ControllerEvent::Ack { rtt_msec } => spec_on_ack(c, rtt_msec),
        ControllerEvent::Congestion => c,
    }
}

/// The controller state after a run of events, applied in order.
pub open spec fn run_events(c: FixedRate, events: Seq<ControllerEvent>) -> FixedRate
    decreases events.len(),
{
    if events.len() == 0 {
        c
    } else {
        run_events(spec_on_event(c, events[0]), events.subrange(1, events.len() as int))
    }
}

/// The controller state after a run of acknowledgments carrying the given RTT
/// samples, in order.
pub open spec fn run_acks(c: FixedRate, rtt_samples: Seq<u64>) -> FixedRate
    decreases rtt_samples.len(),
{
    if rtt_samples.len() == 0 {
        c
    } else {
        run_acks(spec_on_ack(c, rtt_samples[0]), rtt_samples.subrange(1, rtt_samples.len() as int))
    }
}

/// The RTT samples of the acknowledgments in an event run, in order, with the
/// congestion signals dropped.
pub open spec fn ack_samples(events: Seq<ControllerEvent>) -> Seq<u64>
    decreases events.len(),
{
    if events.len() == 0 {
        Seq::empty()
    } else {
        let rest = ack_samples(events.subrange(1, events.len() as int));
        match events[0] {
            ControllerEvent::Ack { rtt_msec } => seq![rtt_msec] + rest,
            ControllerEvent::Congestion => rest,
        }
    }
}

/// Determinism: the state after a run of acknowledgments is a function of the
/// starting state and the sample sequence alone, so two controllers that
/// start in the same state and see the same samples report the same window
/// after every call.
pub proof fn lemma_deterministic(a: FixedRate, b: FixedRate, rtt_samples: Seq<u64>)
    requires
        a == b,
    ensures
        run_acks(a, rtt_samples) == run_acks(b, rtt_samples),
        forall|i: int|
            0 <= i <= rtt_samples.len() ==> run_acks(a, rtt_samples.take(i)).window == run_acks(
                b,
                rtt_samples.take(i),
            ).window,
{
}

/// Congestion events are a no-op: a run over any interleaving of
/// acknowledgments and congestion signals ends in exactly the state of the
/// run with the congestion signals left out.
pub proof fn lemma_congestion_events_are_noop(c: FixedRate, events: Seq<ControllerEvent>)
    ensures
        run_events(c, events) == run_acks(c, ack_samples(events)),
    decreases events.len(),
{
    if events.len() == 0 {
    } else {
        let rest = events.subrange(1, events.len() as int);
        match events[0] {
            ControllerEvent::Ack { rtt_msec } => {
                lemma_congestion_events_are_noop(spec_on_ack(c, rtt_msec), rest);
                let samples = ack_samples(events);
                assert(samples[0] == rtt_msec);
                assert(samples.subrange(1, samples.len() as int) =~= ack_samples(rest));
            },
            ControllerEvent::Congestion => {
                lemma_congestion_events_are_noop(c, rest);
            },
        }
    }
}

/// The initial-window law: a freshly built controller's window equals its
/// initial window, `kbits_per_sec * 1000 / 8` bytes — the formula value at
/// the one-second seed RTT.
pub proof fn lemma_initial_window(config: FixedRateConfig)
    requires
        config.kbits_per_sec <= MAX_KBITS_PER_SEC,
    ensures
        spec_new(config).window == config.kbits_per_sec * 1000 / 8,
        spec_new(config).smoothed_rtt_msec() == SEED_RTT_MSEC,
        spec_new(config).window == window_formula(
            config.kbits_per_sec as int,
            spec_new(config).smoothed_rtt_msec(),
        ),
{
    assert(spec_new(config).window == window_formula(config.kbits_per_sec as int, 1000))
        by (nonlinear_arith)
        requires
            config.kbits_per_sec <= MAX_KBITS_PER_SEC,
            spec_new(config).window == (config.kbits_per_sec * 125) as u64;
}

/// The acknowledgment step preserves well-formedness and leaves the
/// configured rate untouched.
pub proof fn lemma_on_ack_preserves_wf(c: FixedRate, rtt_msec: u64)
    requires
        c.wf(),
        rtt_msec <= MAX_RTT_MSEC,
    ensures
        spec_on_ack(c, rtt_msec).wf(),
        spec_on_ack(c, rtt_msec).config == c.config,
{
    let sum = next_rtt_sum(c.rtt_msec_sum, rtt_msec);
    let weight = next_rtt_weight(c.rtt_msec_weight);
    let est = rtt_estimate(sum, weight);
    assert(weight == 0x100_0000_0000);
    assert(sum <= 0x1000_0000_0000_0000);
    assert(est == sum / 0x100_0000_0000);
    assert(0 <= est <= MAX_RTT_MSEC);
    assert(c.config.kbits_per_sec * est <= 0x1000_0000_0000_0000) by (nonlinear_arith)
        requires
            c.config.kbits_per_sec <= 0x100_0000_0000,
            0 <= est <= 0x10_0000;
}

/// Any run of admissible acknowledgments keeps the controller well-formed and
/// leaves the configured rate untouched.
pub proof fn lemma_run_acks_preserves_wf(c: FixedRate, rtt_samples: Seq<u64>)
    requires
        c.wf(),
        forall|i: int| 0 <= i < rtt_samples.len() ==> rtt_samples[i] <= MAX_RTT_MSEC,
    ensures
        run_acks(c, rtt_samples).wf(),
        run_acks(c, rtt_samples).config == c.config,
    decreases rtt_samples.len(),
{
    if rtt_samples.len() == 0 {
    } else {
        lemma_on_ack_preserves_wf(c, rtt_samples[0]);
        lemma_run_acks_preserves_wf(
            spec_on_ack(c, rtt_samples[0]),
            rtt_samples.subrange(1, rtt_samples.len() as int),
        );
    }
}

/// The sample sum at which the smoothed estimate sits exactly on `rtt_msec`:
/// the sample carried at the steady weight.
pub open spec fn steady_rtt_sum(rtt_msec: u64) -> int {
    rtt_msec * FULL_WEIGHT
}

/// EWMA fixed point: a well-formed controller whose sample sum encodes
/// exactly `rtt_msec` is stationary under further samples of `rtt_msec`; its
/// estimate is `rtt_msec`, and its window is the rate-sustaining value
/// `kbits_per_sec * rtt_msec / 8`.
pub proof fn lemma_ewma_fixed_point(c: FixedRate, rtt_msec: u64)
    requires
        c.wf(),
        rtt_msec <= MAX_RTT_MSEC,
        c.rtt_msec_sum == steady_rtt_sum(rtt_msec),
    ensures
        spec_on_ack(c, rtt_msec) == c,
        c.smoothed_rtt_msec() == rtt_msec,
        c.window == window_formula(c.config.kbits_per_sec as int, rtt_msec as int),
{
    let r = rtt_msec as int;
    assert(c.rtt_msec_sum as int == 256 * (r * 0x1_0000_0000)) by (nonlinear_arith)
        requires
            c.rtt_msec_sum == r * 0x100_0000_0000;
    vstd::arithmetic::div_mod::lemma_div_by_multiple(r * 0x1_0000_0000, 256);
    assert((256 * (r * 0x1_0000_0000)) as int / 256 == r * 0x1_0000_0000) by (nonlinear_arith)
        requires
            ((r * 0x1_0000_0000) * 256) as int / 256 == r * 0x1_0000_0000;
    vstd::arithmetic::div_mod::lemma_div_by_multiple(r, 0x100_0000_0000);
    assert(c.rtt_msec_sum as int / 0x100_0000_0000 == r) by (nonlinear_arith)
        requires
            c.rtt_msec_sum == r * 0x100_0000_0000,
            (r * 0x100_0000_0000) as int / 0x100_0000_0000 == r;
}

/// Each acknowledgment moves the sample sum toward the steady sum of its
/// sample and never past it, while the weight sum stays steady: under a
/// constant sample the smoothed estimate approaches the sample
/// monotonically, from whichever side it started.
pub proof fn lemma_ewma_step_toward_sample(c: FixedRate, rtt_msec: u64)
    requires
        c.wf(),
        rtt_msec <= MAX_RTT_MSEC,
    ensures
        spec_on_ack(c, rtt_msec).rtt_msec_weight == FULL_WEIGHT,
        c.rtt_msec_sum <= steady_rtt_sum(rtt_msec) ==> c.rtt_msec_sum
            <= spec_on_ack(c, rtt_msec).rtt_msec_sum <= steady_rtt_sum(rtt_msec),
        c.rtt_msec_sum >= steady_rtt_sum(rtt_msec) ==> steady_rtt_sum(rtt_msec)
            <= spec_on_ack(c, rtt_msec).rtt_msec_sum <= c.rtt_msec_sum,
{
    let r = rtt_msec as int;
    assert(r * 0x100_0000_0000 == 256 * (r * 0x1_0000_0000)) by (nonlinear_arith);
}

/// EWMA convergence, run form: feeding one sample over and over keeps the
/// sample sum (hence the smoothed estimate and the window) between its
/// starting point and the steady point of that sample, moving monotonically
/// toward the latter and never overshooting it.
pub proof fn lemma_ewma_converges_monotone(c: FixedRate, rtt_msec: u64, rtt_samples: Seq<u64>)
    requires
        c.wf(),
        rtt_msec <= MAX_RTT_MSEC,
        forall|i: int| 0 <= i < rtt_samples.len() ==> rtt_samples[i] == rtt_msec,
    ensures
        run_acks(c, rtt_samples).wf(),
        run_acks(c, rtt_samples).config == c.config,
        c.rtt_msec_sum <= steady_rtt_sum(rtt_msec) ==> c.rtt_msec_sum
            <= run_acks(c, rtt_samples).rtt_msec_sum <= steady_rtt_sum(rtt_msec),
        c.rtt_msec_sum >= steady_rtt_sum(rtt_msec) ==> steady_rtt_sum(rtt_msec)
            <= run_acks(c, rtt_samples).rtt_msec_sum <= c.rtt_msec_sum,
        c.rtt_msec_sum <= steady_rtt_sum(rtt_msec) ==> c.smoothed_rtt_msec()
            <= run_acks(c, rtt_samples).smoothed_rtt_msec() <= rtt_msec,
        c.rtt_msec_sum >= steady_rtt_sum(rtt_msec) ==> rtt_msec
            <= run_acks(c, rtt_samples).smoothed_rtt_msec() <= c.smoothed_rtt_msec(),
    decreases rtt_samples.len(),
{
    if rtt_samples.len() == 0 {
    } else {
        lemma_on_ack_preserves_wf(c, rtt_msec);
        lemma_ewma_step_toward_sample(c, rtt_msec);
        lemma_ewma_converges_monotone(
            spec_on_ack(c, rtt_msec),
            rtt_msec,
            rtt_samples.subrange(1, rtt_samples.len() as int),
        );
    }
    let result = run_acks(c, rtt_samples);
    assert(result.smoothed_rtt_msec() == result.rtt_msec_sum as int / 0x100_0000_0000);
    assert(c.smoothed_rtt_msec() == c.rtt_msec_sum as int / 0x100_0000_0000);
    vstd::arithmetic::div_mod::lemma_div_by_multiple(rtt_msec as int, 0x100_0000_0000);
    assert(steady_rtt_sum(rtt_msec) / 0x100_0000_0000 == rtt_msec);
}

/// The window tracks the smoothed estimate: of two well-formed controllers
/// with the same configuration, the one with the smaller estimate has the
/// smaller window. With the monotone convergence of the estimate under a
/// constant sample `r`, the window therefore closes in on the rate-sustaining
/// value `kbits_per_sec * r / 8` from whichever side it started.
pub proof fn lemma_window_monotone_in_estimate(a: FixedRate, b: FixedRate)
    requires
        a.wf(),
        b.wf(),
        a.config == b.config,
        a.smoothed_rtt_msec() <= b.smoothed_rtt_msec(),
    ensures
        a.window <= b.window,
{
    let k = a.config.kbits_per_sec as int;
    let ea = a.smoothed_rtt_msec();
    let eb = b.smoothed_rtt_msec();
    assert(ea == a.rtt_msec_sum as int / 0x100_0000_0000);
    assert(eb == b.rtt_msec_sum as int / 0x100_0000_0000);
    assert(0 <= ea <= 0x10_0000);
    assert(0 <= eb <= 0x10_0000);
    assert(k * ea <= k * eb <= 0x1000_0000_0000_0000) by (nonlinear_arith)
        requires
            0 <= k <= 0x100_0000_0000,
            0 <= ea <= eb <= 0x10_0000;
}

/// Zero-rate boundary: a controller whose target rate is zero has a zero
/// window, and the window stays zero through any run of events, whatever RTT
/// samples they carry.
pub proof fn lemma_zero_rate(c: FixedRate, events: Seq<ControllerEvent>)
    requires
        c.config.kbits_per_sec == 0,
        c.window == 0,
    ensures
        run_events(c, events).window == 0,
        run_events(c, events).config == c.config,
    decreases events.len(),
{
    if events.len() == 0 {
    } else {
        let rest = events.subrange(1, events.len() as int);
        match events[0] {
            ControllerEvent::Ack { rtt_msec } => {
                lemma_zero_rate(spec_on_ack(c, rtt_msec), rest);
            },
            ControllerEvent::Congestion => {
                lemma_zero_rate(c, rest);
            },
        }
    }
}

} // verus!
