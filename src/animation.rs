//! Sprite animation: a repeating frame timer and the frame it selects.
use vstd::prelude::*;

verus! {

/// The first and last frame of a sprite's animation in its atlas.
#[derive(Clone, Copy, Debug, PartialEq, Eq, Structural)]
pub struct AnimationIndices {
    pub first: usize,
    pub last: usize,
}

/// A repeating timer that fires each time `period_ms` more milliseconds
/// have passed.
#[derive(Clone, Copy, Debug, PartialEq, Eq, Structural)]
pub struct AnimationTimer {
    pub period_ms: u64,
    pub elapsed_ms: u64,
}

/// The frame after `index`: the next one, wrapping from the last frame to
/// the first.
pub open spec fn next_frame(indices: AnimationIndices, index: int) -> int {
    if index == indices.last {
        indices.first as int
    } else {
        index + 1
    }
}

impl AnimationTimer {
    /// A timer that fires every `period_ms` milliseconds, not yet running.
    pub fn from_millis(period_ms: u64) -> (t: AnimationTimer)
        requires
            period_ms > 0,
        ensures
            t == (AnimationTimer { period_ms, elapsed_ms: 0 }),
    {
        AnimationTimer { period_ms, elapsed_ms: 0 }
    }

    /// Advances the timer by `delta_ms`; returns whether it fired at least
    /// once. Time beyond the last firing carries over.
    pub fn tick(&mut self, delta_ms: u64) -> (fired: bool)
        requires
            old(self).period_ms > 0,
            old(self).elapsed_ms < old(self).period_ms,
        ensures
            final(self).period_ms == old(self).period_ms,
            final(self).elapsed_ms as int == (old(self).elapsed_ms + delta_ms) % (old(self).period_ms as int),
            fired == (old(self).elapsed_ms + delta_ms >= old(self).period_ms),
    {
        let p = self.period_ms;
        let e = self.elapsed_ms;
        let d = delta_ms % p;
        let whole = delta_ms / p;
        assert(delta_ms == whole * p + d) by (nonlinear_arith)
            requires
                p > 0,
                d == delta_ms % p,
                whole == delta_ms / p,
        ;
        let wraps = d >= p - e;
        let fired = whole > 0 || wraps;
        self.elapsed_ms = if wraps { d - (p - e) } else { e + d };
        assert((e + delta_ms) % (p as int) == self.elapsed_ms) by (nonlinear_arith)
            requires
                p > 0,
                e < p,
                d < p,
                delta_ms == whole * p + d,
                wraps == (e + d >= p),
                self.elapsed_ms == (if wraps { e + d - p } else { e + d }),
        ;
        assert(fired == (e + delta_ms >= p)) by (nonlinear_arith)
            requires
                p > 0,
                e < p,
                d < p,
                whole >= 0,
                delta_ms == whole * p + d,
                fired == (whole > 0 || e + d >= p),
        ;
        fired
    }
}

/// Advances a sprite's animation by `delta_ms`: when the timer fires, the
/// frame moves on by one, wrapping from the last frame to the first.
pub fn animate_sprite(indices: &AnimationIndices, timer: &mut AnimationTimer, delta_ms: u64, index: usize) -> (r: usize)
    requires
        old(timer).period_ms > 0,
        old(timer).elapsed_ms < old(timer).period_ms,
        index < usize::MAX,
    ensures
        final(timer).period_ms == old(timer).period_ms,
        final(timer).elapsed_ms < final(timer).period_ms,
        final(timer).elapsed_ms as int == (old(timer).elapsed_ms + delta_ms) % (old(timer).period_ms as int),
        r == if old(timer).elapsed_ms + delta_ms >= old(timer).period_ms {
            next_frame(*indices, index as int)
        } else {
            index as int
        },
{
    let fired = timer.tick(delta_ms);
    if fired {
        if index == indices.last {
            indices.first
        } else {
            index + 1
        }
    } else {
        index
    }
}

} // verus!
