//! The decision core of the annealing engine.
//!
//! A refinement run is a sequence of trials grouped into temperature
//! levels. Everything the run decides — how many trials a level holds,
//! which pixel pair a trial examines, when the run cools, completes or
//! honors a cancellation — is computed and verified here. The caller
//! drives the loop, evaluates the real-valued pair energies, draws the
//! acceptance lot, and commits accepted swaps through
//! [`crate::texture::NoiseTexture::swap`].

use vstd::prelude::*;
use crate::rng::random_below;
use crate::texture::NoiseError;

verus! {

/// Two raised to the power `k`.
pub open spec fn spec_pow2(k: nat) -> int
    decreases k,
{
    if k == 0 {
        1
    } else {
        2 * spec_pow2((k - 1) as nat)
    }
}

/// The pixel index a trial examines as its second endpoint: the candidate
/// window is a square of `dist * dist` cells centered on `first`, wrapped
/// toroidally; `r` enumerates the window's cells except the center, which
/// is skipped by shifting the upper half of the enumeration by one.
pub open spec fn spec_pos_in_range(size: int, first: int, dist: int, r: int) -> int {
    let r2 = if r >= (dist * dist - 1) / 2 {
        r + 1
    } else {
        r
    };
    let x = (size + r2 % dist - dist / 2 + first % size) % size;
    let y = (size + r2 / dist - dist / 2 + first / size) % size;
    y * size + x
}

/// Picks the cell of the candidate window around `first` that `r`
/// denotes, wrapping toroidally. The window side `dist` never exceeds
/// one grid diameter plus one, so the result is again a valid pixel
/// index.
pub fn pos_in_range(size: usize, first: usize, dist: usize, r: usize) -> (second: usize)
    requires
        2 <= size,
        size * size <= usize::MAX,
        first < size * size,
        2 <= dist,
        dist <= 2 * size + 1,
        dist * dist <= usize::MAX,
        r < dist * dist - 1,
    ensures
        second < size * size,
        second == spec_pos_in_range(size as int, first as int, dist as int, r as int),
        dist % 2 == 1 && dist <= size ==> second != first,
{
    let center = (dist * dist - 1) / 2;
    let r2 = if r >= center {
        r + 1
    } else {
        r
    };
    proof {
        assert(r2 < dist * dist);
        vstd::arithmetic::div_mod::lemma_multiply_divide_lt(r2 as int, dist as int, dist as int);
        vstd::arithmetic::div_mod::lemma_multiply_divide_lt(
            first as int,
            size as int,
            size as int,
        );
        assert(4 * size + 2 <= usize::MAX) by (nonlinear_arith)
            requires 2 <= size, size * size <= usize::MAX;
    }
    let x = (size + r2 % dist - dist / 2 + first % size) % size;
    let y = (size + r2 / dist - dist / 2 + first / size) % size;
    proof {
        assert(y * size + x < size * size) by (nonlinear_arith)
            requires 0 <= x < size, 0 <= y < size;
    }
    let second = y * size + x;
    proof {
        // For an odd window within the grid the only cell that maps back
        // to `first` is the window's center, and the enumeration skipped
        // it: assuming `second == first` pins `r2` to the center index.
        if dist % 2 == 1 && dist <= size && second == first {
            let di = dist as int;
            let si = size as int;
            let h = di / 2;
            let x1 = first as int % si;
            let y1 = first as int / si;
            vstd::arithmetic::div_mod::lemma_fundamental_div_mod(first as int, si);
            vstd::arithmetic::div_mod::lemma_fundamental_div_mod(di, 2);
            assert(y == y1 && x == x1) by (nonlinear_arith)
                requires
                    si * y1 + x1 == y * si + x,
                    0 <= x < si,
                    0 <= x1 < si,
                    0 <= y,
                    0 <= y1;
            vstd::arithmetic::div_mod::lemma_div_is_ordered(di, si, 2);
            // The column offset must have been zero ...
            let u = si + (r2 as int % di) - h;
            assert(x == (u + x1) % si);
            vstd::arithmetic::div_mod::lemma_fundamental_div_mod(u + x1, si);
            let qx = (u + x1) / si;
            assert(u == si * qx);
            assert(qx == 1) by (nonlinear_arith)
                requires
                    u == si * qx,
                    0 < u < 2 * si,
                    0 < si;
            assert(u == si) by (nonlinear_arith)
                requires u == si * qx, qx == 1;
            assert(r2 as int % di == h);
            // ... and the row offset too ...
            let v = si + (r2 as int / di) - h;
            assert(y == (v + y1) % si);
            vstd::arithmetic::div_mod::lemma_fundamental_div_mod(v + y1, si);
            let qy = (v + y1) / si;
            assert(v == si * qy);
            assert(qy == 1) by (nonlinear_arith)
                requires
                    v == si * qy,
                    0 < v < 2 * si,
                    0 < si;
            assert(v == si) by (nonlinear_arith)
                requires v == si * qy, qy == 1;
            assert(r2 as int / di == h);
            // ... so `r2` names the center cell, which was skipped.
            vstd::arithmetic::div_mod::lemma_fundamental_div_mod(r2 as int, di);
            assert(r2 as int == di * h + h);
            assert(di * di - 1 == 2 * (di * h + h)) by (nonlinear_arith)
                requires di == 2 * h + 1;
            vstd::arithmetic::div_mod::lemma_div_multiples_vanish(di * h + h, 2);
            assert(r2 as int == center);
            assert(false);
        }
    }
    second
}

/// Adding an offset of at most half the grid to a coordinate and
/// wrapping moves it by exactly the offset's magnitude in toroidal
/// distance.
proof fn lemma_wrap_offset_delta(size: int, a: int, o: int)
    requires
        1 <= size,
        0 <= a < size,
        -(size / 2) <= o <= size / 2,
    ensures
        crate::metric::spec_wrapped_delta(size, a, (size + o + a) % size)
            == (if o >= 0 { o } else { -o }),
{
    let u = size + o + a;
    let q = u / size;
    let x = u % size;
    vstd::arithmetic::div_mod::lemma_fundamental_div_mod(u, size);
    assert(0 <= q <= 2) by (nonlinear_arith)
        requires
            size * q == u - x,
            0 < u,
            u < 3 * size,
            0 <= x < size,
            1 <= size;
    if q == 1 {
        assert(size * q == size) by (nonlinear_arith)
            requires q == 1;
        assert(x == a + o);
    } else if q == 0 {
        assert(size * q == 0) by (nonlinear_arith)
            requires q == 0;
        assert(x == a + o + size);
    } else {
        assert(size * q == 2 * size) by (nonlinear_arith)
            requires q == 2;
        assert(x == a + o - size);
    }
}

/// The trial's second pixel lies within the candidate window: along each
/// axis it sits at most `dist / 2` toroidal steps from `first`, so a hot
/// run's wide window reaches far while a cool run's narrow window keeps
/// the refinement local.
pub proof fn lemma_candidate_within_window(size: int, first: int, dist: int, r: int)
    requires
        2 <= size,
        0 <= first < size * size,
        2 <= dist,
        dist <= size,
        0 <= r < dist * dist - 1,
    ensures
        ({
            let second = spec_pos_in_range(size, first, dist, r);
            &&& 0 <= second < size * size
            &&& crate::metric::spec_wrapped_delta(size, first % size, second % size) <= dist / 2
            &&& crate::metric::spec_wrapped_delta(size, first / size, second / size) <= dist / 2
        }),
{
    let h = dist / 2;
    let center = (dist * dist - 1) / 2;
    let r2 = if r >= center {
        r + 1
    } else {
        r
    };
    vstd::arithmetic::div_mod::lemma_multiply_divide_lt(r2, dist, dist);
    vstd::arithmetic::div_mod::lemma_div_pos_is_pos(r2, dist);
    vstd::arithmetic::div_mod::lemma_multiply_divide_lt(first, size, size);
    vstd::arithmetic::div_mod::lemma_div_pos_is_pos(first, size);
    vstd::arithmetic::div_mod::lemma_div_is_ordered(dist, size, 2);
    let ox = r2 % dist - h;
    let oy = r2 / dist - h;
    let x1 = first % size;
    let y1 = first / size;
    lemma_wrap_offset_delta(size, x1, ox);
    lemma_wrap_offset_delta(size, y1, oy);
    let x = (size + ox + x1) % size;
    let y = (size + oy + y1) % size;
    let second = spec_pos_in_range(size, first, dist, r);
    assert(second == y * size + x);
    assert(y * size + x < size * size) by (nonlinear_arith)
        requires
            0 <= x < size,
            0 <= y < size;
    vstd::arithmetic::div_mod::lemma_fundamental_div_mod_converse(second, size, y, x);
}

/// Draws a candidate pixel pair for one trial: `first` uniformly over the
/// grid, `second` uniformly over the window of side `dist` around it,
/// excluding the window's center cell.
pub fn propose_pair(size: usize, dist: usize) -> (pair: (usize, usize))
    requires
        2 <= size,
        size * size <= usize::MAX,
        2 <= dist,
        dist <= 2 * size + 1,
        dist * dist <= usize::MAX,
    ensures
        pair.0 < size * size,
        pair.1 < size * size,
        exists|r: int|
            0 <= r < dist * dist - 1 && pair.1 == spec_pos_in_range(
                size as int,
                pair.0 as int,
                dist as int,
                r,
            ),
        dist % 2 == 1 && dist <= size ==> pair.1 != pair.0,
{
    proof {
        assert(4 <= dist * dist) by (nonlinear_arith)
            requires 2 <= dist;
        assert(1 <= size * size) by (nonlinear_arith)
            requires 2 <= size;
    }
    let first = random_below(size * size);
    let r = random_below(dist * dist - 1);
    let second = pos_in_range(size, first, dist, r);
    (first, second)
}

/// How many trials one temperature level of a run holds for a grid of
/// side `size`: the side, doubled once for every 32 pixels of side. The
/// cap on the side keeps the count within `usize` on every machine.
pub fn trials_for_size(size: usize) -> (n: usize)
    requires
        2 <= size <= 512,
    ensures
        n == size * spec_pow2((size / 32) as nat),
        n >= 1,
{
    let k = size / 32;
    let mut acc: usize = 1;
    let mut i: usize = 0;
    while i < k
        invariant
            i <= k,
            k <= 16,
            acc == spec_pow2(i as nat),
        decreases k - i,
    {
        proof {
            reveal_with_fuel(spec_pow2, 17);
            lemma_pow2_below(i as nat, 15);
            assert(acc <= 32768);
        }
        acc = 2 * acc;
        i = i + 1;
    }
    proof {
        reveal_with_fuel(spec_pow2, 17);
        lemma_pow2_below(k as nat, 16);
        assert(1 <= acc <= 65536);
        assert(1 <= size * acc <= 512 * 65536) by (nonlinear_arith)
            requires 2 <= size <= 512, 1 <= acc <= 65536;
    }
    size * acc
}

/// `spec_pow2` is monotonic: `k <= m` gives `spec_pow2(k) <= spec_pow2(m)`.
proof fn lemma_pow2_below(k: nat, m: nat)
    requires
        k <= m,
    ensures
        spec_pow2(k) <= spec_pow2(m),
        spec_pow2(k) >= 1,
    decreases m,
{
    if m > 0 {
        if k == m {
            lemma_pow2_below((k - 1) as nat, (m - 1) as nat);
        } else {
            lemma_pow2_below(k, (m - 1) as nat);
        }
    }
}

/// What a run does next: examine one candidate pair, cool to the next
/// temperature level, or terminate — normally or on cancellation.
#[derive(Debug, PartialEq, Eq, Structural, Clone, Copy)]
pub enum RunStep {
    /// Evaluate one candidate swap.
    Trial,
    /// The level's trials are done: multiply the temperature by the
    /// cooling factor.
    Cool,
    /// Every temperature level has run; the schedule is exhausted.
    Completed,
    /// The cancellation flag was observed set.
    Cancelled,
}

/// The progress of one refinement run through its cooling schedule:
/// `levels_left` whole temperature levels remain, of which the current
/// one still holds `trials_left` trials. The caller owns the temperature
/// value itself; the schedule only counts.
pub struct RunState {
    /// Trials each full temperature level holds.
    pub trials_per_level: usize,
    /// Temperature levels still to run, the current one included.
    pub levels_left: usize,
    /// Trials still to run within the current level.
    pub trials_left: usize,
}

impl RunState {
    /// How much work the run can still do: strictly decreases with every
    /// `Trial` or `Cool` step, so a run terminates after at most
    /// `levels * (trials_per_level + 1)` steps.
    pub open spec fn measure(&self) -> int {
        self.levels_left * (self.trials_per_level + 1) + self.trials_left
    }

    /// The measure never falls below zero. Together with the strict
    /// decrease that [`RunState::next`] ensures for every `Trial` and
    /// `Cool` step, a run that is never cancelled reaches `Completed`
    /// after at most `levels * (trials_per_level + 1)` steps: the loop
    /// around the schedule cannot run forever.
    pub proof fn lemma_measure_nonnegative(&self)
        ensures
            self.measure() >= 0,
    {
        assert(self.levels_left * (self.trials_per_level + 1) >= 0) by (nonlinear_arith)
            requires
                self.levels_left >= 0,
                self.trials_per_level >= 0;
    }

    /// A fresh schedule of `levels` temperature levels with
    /// `trials_per_level` trials each.
    pub fn new(trials_per_level: usize, levels: usize) -> (s: RunState)
        ensures
            s.trials_per_level == trials_per_level,
            s.levels_left == levels,
            s.trials_left == trials_per_level,
    {
        RunState { trials_per_level, levels_left: levels, trials_left: trials_per_level }
    }

    /// Decides the run's next step. A set cancellation flag terminates
    /// the run at once — before any further trial — and a run whose
    /// levels are exhausted completes; otherwise the current level's
    /// trials run down and the run cools into the next level.
    pub fn next(&mut self, cancelled: bool) -> (step: RunStep)
        ensures
            cancelled ==> step == RunStep::Cancelled && *final(self) == *old(self),
            !cancelled && old(self).levels_left == 0 ==> step == RunStep::Completed
                && *final(self) == *old(self),
            !cancelled && old(self).levels_left > 0 && old(self).trials_left > 0 ==> {
                &&& step == RunStep::Trial
                &&& final(self).trials_left == old(self).trials_left - 1
                &&& final(self).levels_left == old(self).levels_left
            },
            !cancelled && old(self).levels_left > 0 && old(self).trials_left == 0 ==> {
                &&& step == RunStep::Cool
                &&& final(self).levels_left == old(self).levels_left - 1
                &&& final(self).trials_left == final(self).trials_per_level
            },
            final(self).trials_per_level == old(self).trials_per_level,
            step == RunStep::Trial || step == RunStep::Cool ==> final(self).measure()
                < old(self).measure(),
            step == RunStep::Completed || step == RunStep::Cancelled ==> *final(self)
                == *old(self),
    {
        if cancelled {
            return RunStep::Cancelled;
        }
        if self.levels_left == 0 {
            return RunStep::Completed;
        }
        if self.trials_left > 0 {
            self.trials_left = self.trials_left - 1;
            RunStep::Trial
        } else {
            proof {
                let l = old(self).levels_left as int;
                let t = old(self).trials_per_level as int;
                assert((l - 1) * (t + 1) + t == l * (t + 1) - 1) by (nonlinear_arith);
            }
            self.levels_left = self.levels_left - 1;
            self.trials_left = self.trials_per_level;
            RunStep::Cool
        }
    }
}

/// Tracks whether a refinement run is active against a texture, and
/// rejects the caller-contract violations around it: a second run may
/// not start while one is active, and a resize may not happen under an
/// active run.
pub struct RunControl {
    active: bool,
}

impl RunControl {
    /// Whether a run is currently active.
    pub closed spec fn is_active(&self) -> bool {
        self.active
    }

    /// No run is active initially.
    pub fn new() -> (c: RunControl)
        ensures
            !c.is_active(),
    {
        RunControl { active: false }
    }

    /// Claims the texture for a new run. Fails if and only if a run is
    /// already active; the prior run must be cancelled and awaited first.
    pub fn begin_run(&mut self) -> (r: Result<(), NoiseError>)
        ensures
            old(self).is_active() ==> (r matches Err(e) && e == NoiseError::RunAlreadyActive
                && final(self).is_active()),
            !old(self).is_active() ==> r is Ok && final(self).is_active(),
    {
        if self.active {
            return Err(NoiseError::RunAlreadyActive);
        }
        self.active = true;
        Ok(())
    }

    /// Releases the texture when the run has terminated — normally or by
    /// cancellation.
    pub fn end_run(&mut self)
        ensures
            !final(self).is_active(),
    {
        self.active = false;
    }

    /// Whether the texture may be resized now. Fails if and only if a
    /// run is active against it.
    pub fn check_resize(&self) -> (r: Result<(), NoiseError>)
        ensures
            self.is_active() ==> (r matches Err(e) && e == NoiseError::ConcurrentResizeConflict),
            !self.is_active() ==> r is Ok,
    {
        if self.active {
            return Err(NoiseError::ConcurrentResizeConflict);
        }
        Ok(())
    }
}

} // verus!
