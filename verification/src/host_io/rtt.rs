//! Round-trip estimation for the retransmission timeout, after Jacobson and Karels.
//!
//! Durations are nanoseconds. The smoothing factors are fractions, so the caller
//! supplies the scaling itself, rounding as its clock type rounds.

use vstd::prelude::*;

verus! {

/// The least retransmission timeout: 500 ms. The floor keeps retransmit storms from
/// flooding the firmware's 192-byte receive buffer while a long-running command task
/// stalls it. Any mcu-side queue the host keeps fed must outlast this floor: a queue
/// shallower than one retransmit empties while the link is silent.
pub const MIN_RTO_MS: u64 = 500;

/// `MIN_RTO_MS` in nanoseconds.
pub const MIN_RTO_NS: u64 = 500_000_000;

pub const MAX_RTO_NS: u64 = 5_000_000_000;

/// The clock granularity the variance term never goes below.
pub const GRANULARITY_NS: u64 = 1_000_000;

/// A factor a duration is scaled by.
#[derive(Debug, Clone, Copy, PartialEq, Eq, Structural)]
pub enum Factor {
    /// What a new sample weighs in the smoothed round trip: an eighth.
    Alpha,
    /// What the smoothed round trip keeps: seven eighths.
    OneMinusAlpha,
    /// What a new deviation weighs in the variance: a quarter.
    Beta,
    /// What the variance keeps: three quarters.
    OneMinusBeta,
    /// How many variances the timeout allows for: four.
    Deviations,
}

/// The smoothed round trip and its variance.
#[derive(Debug, Clone, Copy, PartialEq, Eq, Structural)]
pub struct Smoothed {
    pub srtt_ns: u64,
    pub rttvar_ns: u64,
}

#[derive(Debug, Clone, Copy, PartialEq, Eq, Structural)]
pub struct RttEstimator {
    /// What the samples so far come to, once there is one.
    pub smoothed: Option<Smoothed>,
    pub rto_ns: u64,
}

/// `ns` held between the least and the greatest timeout.
pub open spec fn clamp_rto(ns: int) -> int {
    if ns < MIN_RTO_NS {
        MIN_RTO_NS as int
    } else if ns > MAX_RTO_NS {
        MAX_RTO_NS as int
    } else {
        ns
    }
}

/// The sum of two durations, at most what a duration can hold.
pub open spec fn capped_sum(a: u64, b: u64) -> u64 {
    if a + b > u64::MAX {
        u64::MAX
    } else {
        (a + b) as u64
    }
}

/// The distance between two durations.
pub open spec fn distance(a: u64, b: u64) -> u64 {
    if a > b {
        (a - b) as u64
    } else {
        (b - a) as u64
    }
}

/// The timeout for a smoothed round trip and the scaled variance.
pub open spec fn timeout_for(srtt: u64, scaled_variance: u64) -> int {
    clamp_rto(
        capped_sum(
            srtt,
            if scaled_variance > GRANULARITY_NS {
                scaled_variance
            } else {
                GRANULARITY_NS
            },
        ) as int,
    )
}

fn clamp(ns: u64) -> (rto: u64)
    ensures
        rto == clamp_rto(ns as int),
{
    if ns < MIN_RTO_NS {
        MIN_RTO_NS
    } else if ns > MAX_RTO_NS {
        MAX_RTO_NS
    } else {
        ns
    }
}

impl Default for RttEstimator {
    fn default() -> (estimator: Self)
        ensures
            estimator == (RttEstimator { smoothed: None, rto_ns: MIN_RTO_NS }),
            estimator.wf(),
    {
        RttEstimator { smoothed: None, rto_ns: MIN_RTO_NS }
    }
}

impl RttEstimator {
    /// The timeout is always within its bounds.
    pub open spec fn wf(&self) -> bool {
        MIN_RTO_NS <= self.rto_ns <= MAX_RTO_NS
    }

    pub fn current_rto(&self) -> (rto_ns: u64)
        ensures
            rto_ns == self.rto_ns,
            self.wf() ==> MIN_RTO_MS * 1_000_000 <= rto_ns <= MAX_RTO_NS,
    {
        self.rto_ns
    }

    /// Takes in one measured round trip. The first sample stands for itself with half
    /// of it as variance; each later one moves the variance by a quarter of its
    /// deviation and the smoothed round trip by an eighth of itself.
    pub fn update<F: Fn(u64, Factor) -> u64>(&mut self, sample_ns: u64, scale: F)
        requires
            forall|ns: u64, factor: Factor| call_requires(scale, (ns, factor)),
        ensures
            final(self).wf(),
            final(self).smoothed is Some,
            match old(self).smoothed {
                None => final(self).smoothed == Some(
                    Smoothed { srtt_ns: sample_ns, rttvar_ns: (sample_ns / 2) as u64 },
                ),
                Some(before) => exists|
                    kept_variance: u64,
                    deviation: u64,
                    kept_trip: u64,
                    trip: u64,
                |
                    {
                        &&& #[trigger] call_ensures(
                            scale,
                            (before.rttvar_ns, Factor::OneMinusBeta),
                            kept_variance,
                        )
                        &&& #[trigger] call_ensures(
                            scale,
                            (distance(before.srtt_ns, sample_ns), Factor::Beta),
                            deviation,
                        )
                        &&& #[trigger] call_ensures(
                            scale,
                            (before.srtt_ns, Factor::OneMinusAlpha),
                            kept_trip,
                        )
                        &&& #[trigger] call_ensures(scale, (sample_ns, Factor::Alpha), trip)
                        &&& final(self).smoothed == Some(
                            Smoothed {
                                srtt_ns: capped_sum(kept_trip, trip),
                                rttvar_ns: capped_sum(kept_variance, deviation),
                            },
                        )
                    },
            },
            exists|scaled: u64|
                {
                    &&& #[trigger] call_ensures(
                        scale,
                        (final(self).smoothed.unwrap().rttvar_ns, Factor::Deviations),
                        scaled,
                    )
                    &&& final(self).rto_ns == timeout_for(
                        final(self).smoothed.unwrap().srtt_ns,
                        scaled,
                    )
                },
    {
        let smoothed = match self.smoothed {
            None => Smoothed { srtt_ns: sample_ns, rttvar_ns: sample_ns / 2 },
            Some(before) => {
                let apart: u64 = if before.srtt_ns > sample_ns {
                    before.srtt_ns - sample_ns
                } else {
                    sample_ns - before.srtt_ns
                };
                let kept_variance: u64 = scale(before.rttvar_ns, Factor::OneMinusBeta);
                let deviation: u64 = scale(apart, Factor::Beta);
                let kept_trip: u64 = scale(before.srtt_ns, Factor::OneMinusAlpha);
                let trip: u64 = scale(sample_ns, Factor::Alpha);
                Smoothed {
                    srtt_ns: kept_trip.saturating_add(trip),
                    rttvar_ns: kept_variance.saturating_add(deviation),
                }
            },
        };
        self.smoothed = Some(smoothed);
        let scaled: u64 = scale(smoothed.rttvar_ns, Factor::Deviations);
        let slack: u64 = if scaled > GRANULARITY_NS {
            scaled
        } else {
            GRANULARITY_NS
        };
        self.rto_ns = clamp(smoothed.srtt_ns.saturating_add(slack));
    }

    /// Doubles the timeout after a retransmission, up to its bound.
    pub fn backoff(&mut self)
        requires
            old(self).wf(),
        ensures
            final(self).wf(),
            final(self).smoothed == old(self).smoothed,
            final(self).rto_ns == clamp_rto(old(self).rto_ns * 2),
    {
        self.rto_ns = clamp(self.rto_ns * 2);
    }
}

/// What can happen to an estimator: a round trip was measured, or a frame was sent again.
pub enum RttStep {
    Sampled,
    BackedOff,
}

/// `states` is what an estimator goes through from `Default::default` on, one state more
/// than there are `steps`: a back-off does what `backoff` says, and a sample leaves some
/// timeout that `timeout_for` gives.
pub open spec fn rtt_run(states: Seq<RttEstimator>, steps: Seq<RttStep>) -> bool {
    &&& states.len() == steps.len() + 1
    &&& states[0] == (RttEstimator { smoothed: None, rto_ns: MIN_RTO_NS })
    &&& forall|i: int|
        0 <= i < steps.len() ==> match #[trigger] steps[i] {
            RttStep::Sampled => exists|scaled: u64|
                {
                    &&& states[i + 1].smoothed is Some
                    &&& states[i + 1].rto_ns == #[trigger] timeout_for(
                        states[i + 1].smoothed.unwrap().srtt_ns,
                        scaled,
                    )
                },
            RttStep::BackedOff => {
                &&& states[i + 1].smoothed == states[i].smoothed
                &&& states[i + 1].rto_ns == clamp_rto(states[i].rto_ns * 2)
            },
        }
}

/// Whatever is measured and however often a frame is sent again, the timeout lies between
/// 500 ms and 5 s.
pub proof fn law_timeout_stays_in_its_bounds(
    states: Seq<RttEstimator>,
    steps: Seq<RttStep>,
    at: int,
)
    requires
        rtt_run(states, steps),
        0 <= at < states.len(),
    ensures
        500_000_000 <= states[at].rto_ns <= 5_000_000_000,
{
    if at > 0 {
        let step = steps[at - 1];
        assert(states[at - 1 + 1] == states[at]);
    }
}

/// The timeout after `count` retransmissions in a row.
pub open spec fn backed_off(rto_ns: int, count: nat) -> int
    decreases count,
{
    if count == 0 {
        rto_ns
    } else {
        clamp_rto(backed_off(rto_ns, (count - 1) as nat) * 2)
    }
}

/// Backing off never shortens the timeout, and four retransmissions in a row reach the
/// bound.
pub proof fn law_backoff_grows_to_the_bound(rto_ns: int, count: nat)
    requires
        MIN_RTO_NS <= rto_ns <= MAX_RTO_NS,
    ensures
        MIN_RTO_NS <= backed_off(rto_ns, count) <= MAX_RTO_NS,
        backed_off(rto_ns, count) <= backed_off(rto_ns, count + 1),
        count >= 4 ==> backed_off(rto_ns, count) == MAX_RTO_NS,
    decreases count,
{
    if count > 0 {
        law_backoff_grows_to_the_bound(rto_ns, (count - 1) as nat);
    }
    if count >= 4 {
        reveal_with_fuel(backed_off, 6);
        if count > 4 {
            assert(backed_off(rto_ns, (count - 1) as nat) == MAX_RTO_NS);
        }
    }
}

/// The timeout is the smoothed round trip and the variance term, which is a millisecond at
/// least, held between 500 ms and 5 s.
pub proof fn law_timeout_covers_trip_and_variance(srtt: u64, scaled_variance: u64)
    ensures
        ({
            let rto = timeout_for(srtt, scaled_variance);
            let slack: int = if scaled_variance < 1_000_000 {
                1_000_000
            } else {
                scaled_variance as int
            };
            &&& 500_000_000 <= rto <= 5_000_000_000
            &&& 500_000_000 <= srtt + slack <= 5_000_000_000 ==> rto == srtt + slack
            &&& srtt + slack < 500_000_000 ==> rto == 500_000_000
            &&& srtt + slack > 5_000_000_000 ==> rto == 5_000_000_000
        }),
{
}

/// A back-off doubles the timeout, up to 5 s.
pub proof fn law_backoff_doubles(rto_ns: int)
    requires
        500_000_000 <= rto_ns <= 5_000_000_000,
    ensures
        rto_ns <= 2_500_000_000 ==> clamp_rto(rto_ns * 2) == rto_ns + rto_ns,
        rto_ns > 2_500_000_000 ==> clamp_rto(rto_ns * 2) == 5_000_000_000,
{
}

/// The deviation of a sample is how far it lies from the smoothed round trip, on either
/// side.
pub proof fn law_distance_is_the_same_both_ways(a: u64, b: u64)
    ensures
        distance(a, b) == distance(b, a),
        a <= b ==> a + distance(a, b) == b,
{
}

/// Durations add up as numbers do, until a duration cannot hold the sum.
pub proof fn law_sum_is_capped(a: u64, b: u64)
    ensures
        a + b <= u64::MAX ==> capped_sum(a, b) == a + b,
        a + b > u64::MAX ==> capped_sum(a, b) == u64::MAX,
{
}

/// Scaling takes the fraction that the factor stands for, to the nanosecond below.
pub open spec fn takes_its_fraction<F: Fn(u64, Factor) -> u64>(scale: F) -> bool {
    forall|ns: u64, factor: Factor, scaled: u64| #[trigger]
        call_ensures(scale, (ns, factor), scaled) ==> match factor {
            Factor::Alpha => 8 * scaled <= ns < 8 * (scaled + 1),
            Factor::OneMinusAlpha => 8 * scaled <= 7 * ns < 8 * (scaled + 1),
            Factor::Beta => 4 * scaled <= ns < 4 * (scaled + 1),
            Factor::OneMinusBeta => 4 * scaled <= 3 * ns < 4 * (scaled + 1),
            Factor::Deviations => scaled == 4 * ns || 4 * ns > u64::MAX && scaled == u64::MAX,
        }
}

/// The first round trip stands for itself with half of it as its variance. Each later one
/// moves the smoothed trip an eighth of the way to it and the variance a quarter of the way to
/// its distance, to within the rounding; so the smoothed trip never leaves the two. The
/// timeout allows the trip and four variances, a millisecond at least, within its bounds.
pub proof fn law_round_trip_moves_an_eighth_of_the_way<F: Fn(u64, Factor) -> u64>(
    estimator: &mut RttEstimator,
    sample_ns: u64,
    scale: F,
)
    requires
        call_ensures(RttEstimator::update::<F>, (estimator, sample_ns, scale), ()),
        takes_its_fraction(scale),
    ensures
        final(estimator).smoothed is Some,
        ({
            let after = final(estimator).smoothed->0;
            &&& old(estimator).smoothed is None ==> after.srtt_ns == sample_ns && (2
                * after.rttvar_ns == sample_ns || 2 * after.rttvar_ns + 1 == sample_ns)
            &&& old(estimator).smoothed matches Some(before) ==> {
                let apart = if before.srtt_ns > sample_ns {
                    before.srtt_ns - sample_ns
                } else {
                    sample_ns - before.srtt_ns
                };
                &&& 7 * before.srtt_ns + sample_ns - 16 < 8 * after.srtt_ns <= 7 * before.srtt_ns
                    + sample_ns
                &&& 3 * before.rttvar_ns + apart - 8 < 4 * after.rttvar_ns <= 3
                    * before.rttvar_ns + apart
            }
            &&& 500_000_000 <= final(estimator).rto_ns <= 5_000_000_000
            &&& final(estimator).rto_ns == 5_000_000_000 || final(estimator).rto_ns
                >= after.srtt_ns + 4 * after.rttvar_ns
            &&& final(estimator).rto_ns == 5_000_000_000 || final(estimator).rto_ns
                >= after.srtt_ns + 1_000_000
            &&& final(estimator).rto_ns == 500_000_000 || final(estimator).rto_ns <= after.srtt_ns
                + 4 * after.rttvar_ns || final(estimator).rto_ns <= after.srtt_ns + 1_000_000
        }),
{
    let after = final(estimator).smoothed->0;
    let scaled = choose|scaled: u64|
        {
            &&& #[trigger] call_ensures(
                scale,
                (final(estimator).smoothed.unwrap().rttvar_ns, Factor::Deviations),
                scaled,
            )
            &&& final(estimator).rto_ns == timeout_for(
                final(estimator).smoothed.unwrap().srtt_ns,
                scaled,
            )
        };
    assert(call_ensures(scale, (after.rttvar_ns, Factor::Deviations), scaled));
    if let Some(before) = old(estimator).smoothed {
        let (kept_variance, deviation, kept_trip, trip) = choose|
            kept_variance: u64,
            deviation: u64,
            kept_trip: u64,
            trip: u64,
        |
            {
                &&& #[trigger] call_ensures(
                    scale,
                    (before.rttvar_ns, Factor::OneMinusBeta),
                    kept_variance,
                )
                &&& #[trigger] call_ensures(
                    scale,
                    (distance(before.srtt_ns, sample_ns), Factor::Beta),
                    deviation,
                )
                &&& #[trigger] call_ensures(
                    scale,
                    (before.srtt_ns, Factor::OneMinusAlpha),
                    kept_trip,
                )
                &&& #[trigger] call_ensures(scale, (sample_ns, Factor::Alpha), trip)
                &&& final(estimator).smoothed == Some(
                    Smoothed {
                        srtt_ns: capped_sum(kept_trip, trip),
                        rttvar_ns: capped_sum(kept_variance, deviation),
                    },
                )
            };
        assert(8 * (kept_trip + trip) <= 7 * before.srtt_ns + sample_ns);
    }
}

/// The timeout is told as it stands; a frame sent again doubles it, up to five seconds, and
/// leaves the smoothed trip alone.
pub proof fn law_resent_frame_doubles_the_timeout(
    estimator: &mut RttEstimator,
    told: RttEstimator,
    rto_ns: u64,
)
    requires
        500_000_000 <= old(estimator).rto_ns <= 5_000_000_000,
        call_ensures(RttEstimator::backoff, (estimator,), ()),
        call_ensures(RttEstimator::current_rto, (&told,), rto_ns),
    ensures
        2 * old(estimator).rto_ns <= 5_000_000_000 ==> final(estimator).rto_ns == 2 * old(estimator).rto_ns,
        2 * old(estimator).rto_ns > 5_000_000_000 ==> final(estimator).rto_ns == 5_000_000_000,
        final(estimator).smoothed == old(estimator).smoothed,
        rto_ns == told.rto_ns,
{
}

} // verus!
