use vstd::prelude::*;
use vstd::arithmetic::div_mod::{
    lemma_div_is_ordered,
    lemma_fundamental_div_mod,
    lemma_fundamental_div_mod_converse,
    lemma_mod_bound,
};

use crate::clock::{elapsed_micros, now};
use web_time::Instant;

verus! {

/// Simulation steps per second at speed 1.
pub const STEPS_PER_SECOND: u128 = 30;

/// Speeds are counted in hundredths: 100 is speed 1.
pub const SPEED_SCALE: u128 = 100;

/// The distance that makes one step: a hundredth of speed times a
/// microsecond, taken a million times a hundred.
pub const STEP_DISTANCE: u128 = 100_000_000;

/// The distance gained over `elapsed` microseconds at `speed` hundredths,
/// nothing while paused.
pub open spec fn gain(paused: bool, speed: int, elapsed: int) -> int {
    if paused {
        0
    } else {
        speed * elapsed * STEPS_PER_SECOND
    }
}

/// The carried distance plus the gain, saturating at the largest `u128`.
pub open spec fn pacing_total(distance: int, paused: bool, speed: int, elapsed: int) -> int {
    let t = distance + gain(paused, speed, elapsed);
    if t > u128::MAX {
        u128::MAX as int
    } else {
        t
    }
}

/// The whole steps in a total distance, saturating at the largest `u32`.
pub open spec fn whole_steps(total: int) -> int {
    let s = total / (STEP_DISTANCE as int);
    if s > u32::MAX {
        u32::MAX as int
    } else {
        s
    }
}

/// The fraction of a step that a total distance carries over.
pub open spec fn carried_over(total: int) -> int {
    total % (STEP_DISTANCE as int)
}


/// The sum of a sequence of elapsed times.
pub open spec fn sum_of(deltas: Seq<u128>) -> int
    decreases deltas.len(),
{
    if deltas.len() == 0 {
        0
    } else {
        deltas[0] + sum_of(deltas.drop_first())
    }
}

/// The distance gained over each elapsed time in turn.
pub open spec fn total_gain(paused: bool, speed: int, deltas: Seq<u128>) -> int
    decreases deltas.len(),
{
    if deltas.len() == 0 {
        0
    } else {
        gain(paused, speed, deltas[0] as int) + total_gain(paused, speed, deltas.drop_first())
    }
}

/// The steps returned in all and the distance carried at the end, when a
/// runner carrying `distance` is queried once for each elapsed time in turn.
pub open spec fn run_pacing(distance: int, paused: bool, speed: int, deltas: Seq<u128>) -> (int, int)
    decreases deltas.len(),
{
    if deltas.len() == 0 {
        (0, distance)
    } else {
        let t = pacing_total(distance, paused, speed, deltas[0] as int);
        let rest = run_pacing(carried_over(t), paused, speed, deltas.drop_first());
        (whole_steps(t) + rest.0, rest.1)
    }
}

/// Gains add up: the gain over a sequence of elapsed times is the gain over
/// their sum.
pub proof fn lemma_total_gain_is_gain_of_sum(paused: bool, speed: int, deltas: Seq<u128>)
    requires
        speed >= 0,
    ensures
        total_gain(paused, speed, deltas) == gain(paused, speed, sum_of(deltas)),
        total_gain(paused, speed, deltas) >= 0,
    decreases deltas.len(),
{
    if deltas.len() > 0 {
        lemma_total_gain_is_gain_of_sum(paused, speed, deltas.drop_first());
        let a = deltas[0] as int;
        let b = sum_of(deltas.drop_first());
        assert(speed * a * 30 + speed * b * 30 == speed * (a + b) * 30) by (nonlinear_arith);
        assert(speed * a * 30 >= 0) by (nonlinear_arith)
            requires
                speed >= 0,
                a >= 0,
        ;
    }
}

/// Pacing loses nothing: over any sequence of queries, the steps returned
/// add up to the whole steps in the carried distance plus the total gain,
/// and what is carried at the end is the fraction left over, as long as no
/// sum saturates. (A distance of a step or more is released at the first
/// query, so with no query at all it must be under a step.)
pub proof fn lemma_pacing_determinism(distance: int, paused: bool, speed: int, deltas: Seq<u128>)
    requires
        0 <= distance,
        deltas.len() > 0 || distance < STEP_DISTANCE,
        0 <= speed,
        distance + total_gain(paused, speed, deltas) <= u128::MAX,
        (distance + total_gain(paused, speed, deltas)) / (STEP_DISTANCE as int) <= u32::MAX,
    ensures
        run_pacing(distance, paused, speed, deltas).0 == (distance + total_gain(paused, speed, deltas))
            / (STEP_DISTANCE as int),
        run_pacing(distance, paused, speed, deltas).1 == (distance + total_gain(paused, speed, deltas))
            % (STEP_DISTANCE as int),
    decreases deltas.len(),
{
    let u = STEP_DISTANCE as int;
    let total = distance + total_gain(paused, speed, deltas);
    if deltas.len() == 0 {
        lemma_fundamental_div_mod_converse(distance, u, 0, distance);
    } else {
        let rest = deltas.drop_first();
        lemma_total_gain_is_gain_of_sum(paused, speed, rest);
        lemma_total_gain_is_gain_of_sum(paused, speed, seq![deltas[0]]);
        assert(seq![deltas[0]].drop_first() =~= Seq::<u128>::empty());
        let g0 = gain(paused, speed, deltas[0] as int);
        let g_rest = total_gain(paused, speed, rest);
        let t = distance + g0;
        assert(pacing_total(distance, paused, speed, deltas[0] as int) == t);
        lemma_div_is_ordered(t, total, u);
        let s1 = t / u;
        let r1 = t % u;
        lemma_fundamental_div_mod(t, u);
        lemma_mod_bound(t, u);
        lemma_div_is_ordered(r1 + g_rest, total, u);
        lemma_pacing_determinism(r1, paused, speed, rest);
        let q = (r1 + g_rest) / u;
        let m = (r1 + g_rest) % u;
        lemma_fundamental_div_mod(r1 + g_rest, u);
        lemma_mod_bound(r1 + g_rest, u);
        assert(total == (s1 + q) * u + m) by (nonlinear_arith)
            requires
                total == t + g_rest,
                t == u * s1 + r1,
                r1 + g_rest == u * q + m,
        ;
        lemma_fundamental_div_mod_converse(total, u, s1 + q, m);
    }
}

/// The steps run depend on the total elapsed time alone, not on how it was
/// cut into queries.
pub proof fn lemma_pacing_rechunk(
    distance: int,
    paused: bool,
    speed: int,
    xs: Seq<u128>,
    ys: Seq<u128>,
)
    requires
        0 <= distance,
        0 <= speed,
        sum_of(xs) == sum_of(ys),
        xs.len() > 0,
        ys.len() > 0,
        distance + gain(paused, speed, sum_of(xs)) <= u128::MAX,
        (distance + gain(paused, speed, sum_of(xs))) / (STEP_DISTANCE as int) <= u32::MAX,
    ensures
        run_pacing(distance, paused, speed, xs) == run_pacing(distance, paused, speed, ys),
{
    lemma_total_gain_is_gain_of_sum(paused, speed, xs);
    lemma_total_gain_is_gain_of_sum(paused, speed, ys);
    lemma_pacing_determinism(distance, paused, speed, xs);
    lemma_pacing_determinism(distance, paused, speed, ys);
}

/// A manual step is never lost: once a step has been added, the next query
/// returns at least one step, whatever the speed, the pause flag or the
/// elapsed time.
pub proof fn lemma_manual_step(distance: int, paused: bool, speed: int, elapsed: int)
    requires
        0 <= distance <= u128::MAX,
        0 <= speed,
        0 <= elapsed,
    ensures
        whole_steps(
            pacing_total(
                if distance + STEP_DISTANCE > u128::MAX {
                    u128::MAX as int
                } else {
                    distance + STEP_DISTANCE
                },
                paused,
                speed,
                elapsed,
            ),
        ) >= 1,
{
    let d = if distance + STEP_DISTANCE > u128::MAX {
        u128::MAX as int
    } else {
        distance + STEP_DISTANCE
    };
    assert(gain(paused, speed, elapsed) >= 0) by (nonlinear_arith)
        requires
            0 <= speed,
            0 <= elapsed,
    ;
    let t = pacing_total(d, paused, speed, elapsed);
    lemma_div_is_ordered(STEP_DISTANCE as int, t, STEP_DISTANCE as int);
}

/// The carried distance after `k` manual steps, each adding one step and
/// saturating at the largest `u128`.
pub open spec fn after_manual_steps(distance: int, k: nat) -> int
    decreases k,
{
    if k == 0 {
        distance
    } else {
        let d = after_manual_steps(distance, (k - 1) as nat);
        if d + STEP_DISTANCE > u128::MAX {
            u128::MAX as int
        } else {
            d + STEP_DISTANCE
        }
    }
}

proof fn lemma_after_manual_steps(distance: int, k: nat)
    requires
        0 <= distance <= u128::MAX,
    ensures
        after_manual_steps(distance, k) == if distance + k * STEP_DISTANCE > u128::MAX {
            u128::MAX as int
        } else {
            distance + k * STEP_DISTANCE
        },
    decreases k,
{
    if k > 0 {
        lemma_after_manual_steps(distance, (k - 1) as nat);
        assert((k - 1) * STEP_DISTANCE + STEP_DISTANCE == k * STEP_DISTANCE) by (nonlinear_arith);
    }
}

/// Manual steps are never lost: after `k` of them, the next query returns at
/// least `k` steps (at most `u32::MAX` can be returned at once), whatever the
/// speed, the pause flag or the elapsed time.
pub proof fn lemma_manual_steps(distance: int, paused: bool, speed: int, elapsed: int, k: nat)
    requires
        0 <= distance <= u128::MAX,
        0 <= speed,
        0 <= elapsed,
    ensures
        whole_steps(pacing_total(after_manual_steps(distance, k), paused, speed, elapsed)) >= if k
            > u32::MAX {
            u32::MAX as int
        } else {
            k as int
        },
{
    let u = STEP_DISTANCE as int;
    lemma_after_manual_steps(distance, k);
    assert(gain(paused, speed, elapsed) >= 0) by (nonlinear_arith)
        requires
            0 <= speed,
            0 <= elapsed,
    ;
    let d = after_manual_steps(distance, k);
    let t = pacing_total(d, paused, speed, elapsed);
    let cap = u32::MAX as int;
    lemma_fundamental_div_mod_converse(cap * u, u, cap, 0);
    if distance + k * STEP_DISTANCE > u128::MAX {
        assert(t == u128::MAX);
        lemma_div_is_ordered(cap * u, t, u);
    } else {
        assert(k * u >= 0) by (nonlinear_arith)
            requires
                u > 0,
        ;
        lemma_fundamental_div_mod_converse(k * u, u, k as int, 0);
        lemma_div_is_ordered(k * u, t, u);
    }
}

/// Converts elapsed time into a whole number of simulation steps at an
/// adjustable speed, keeping the fraction of a step for the next query.
pub struct SimulationRunner {
    pub paused: bool,
    /// In hundredths: 100 runs `STEPS_PER_SECOND` steps a second.
    pub speed: u32,
    pub distance: u128,
    pub last_frame: Instant,
}

impl SimulationRunner {
    /// The distance carried towards the next step.
    pub open spec fn carried(&self) -> int {
        self.distance as int
    }

    /// A runner at speed 1 with nothing carried, timed from `now`.
    pub fn new(now: Instant, paused: bool) -> (r: SimulationRunner)
        ensures
            r.paused == paused,
            r.speed == SPEED_SCALE,
            r.carried() == 0,
            r.last_frame == now,
    {
        SimulationRunner { speed: 100, distance: 0, last_frame: now, paused }
    }

    /// The distance carried towards the next step.
    pub fn distance(&self) -> (r: u128)
        ensures
            r == self.carried(),
    {
        self.distance
    }

    /// Adds one whole step, to be run at the next query whatever the speed.
    pub fn add_iteration(&mut self)
        ensures
            final(self).last_frame == old(self).last_frame,
            final(self).paused == old(self).paused,
            final(self).speed == old(self).speed,
            final(self).carried() == if old(self).carried() + STEP_DISTANCE > u128::MAX {
                u128::MAX as int
            } else {
                old(self).carried() + STEP_DISTANCE
            },
    {
        self.distance = self.distance.saturating_add(STEP_DISTANCE);
    }

    /// Takes `elapsed` microseconds into account and returns the whole steps
    /// now due; the fraction of a step is carried to the next query.
    pub fn advance(&mut self, elapsed: u128) -> (r: u32)
        ensures
            final(self).paused == old(self).paused,
            final(self).speed == old(self).speed,
            r == whole_steps(
                pacing_total(old(self).carried(), old(self).paused, old(self).speed as int, elapsed as int),
            ),
            final(self).carried() == carried_over(
                pacing_total(old(self).carried(), old(self).paused, old(self).speed as int, elapsed as int),
            ),
    {
        let speed: u128 = if self.paused { 0 } else { self.speed as u128 };
        let g: u128 = match speed.checked_mul(elapsed) {
            Some(p) => match p.checked_mul(STEPS_PER_SECOND) {
                Some(q) => q,
                None => u128::MAX,
            },
            None => {
                proof {
                    assert(speed * elapsed * 30 >= speed * elapsed) by (nonlinear_arith)
                        requires
                            speed * elapsed >= 0,
                    ;
                }
                u128::MAX
            },
        };
        let total = self.distance.saturating_add(g);
        let whole = total / STEP_DISTANCE;
        self.distance = total % STEP_DISTANCE;
        if whole > u32::MAX as u128 {
            u32::MAX
        } else {
            whole as u32
        }
    }

    /// Reads the clock and returns the whole steps due since the last query.
    pub fn iterations(&mut self) -> (r: u32)
        ensures
            final(self).paused == old(self).paused,
            final(self).speed == old(self).speed,
            exists|elapsed: u128|
                r == whole_steps(
                    pacing_total(old(self).carried(), old(self).paused, old(self).speed as int, elapsed as int),
                ) && final(self).carried() == carried_over(
                    pacing_total(old(self).carried(), old(self).paused, old(self).speed as int, elapsed as int),
                ),
    {
        let elapsed = elapsed_micros(&self.last_frame);
        self.last_frame = now();
        let r = self.advance(elapsed);
        proof {
            // The clock reading is the witness of the `exists` above.
            let w = pacing_total(old(self).carried(), old(self).paused, old(self).speed as int, elapsed as int);
            assert(r == whole_steps(w) && self.carried() == carried_over(w));
        }
        r
    }
}

} // verus!
