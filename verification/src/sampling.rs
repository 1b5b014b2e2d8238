//! What the random source hands to the sampler of a hole.
//!
//! A discrete hole is sampled from one uniform draw, by inverse CDF. A
//! continuous hole is sampled from two: a standard normal value is made from
//! a radius draw in `(0, 1]` and an angle draw in `[0, 1)`. The sampler's
//! arithmetic is the driver's; which draws it gets is settled here.

use vstd::prelude::*;
use crate::rng::{advance, scramble, state_after, unit_of, Rng};
use crate::sketch::HoleKind;

verus! {

/// The random input of one sample, as numerators over [`crate::rng::UNIT`].
#[derive(Clone, Copy, Debug, PartialEq, Eq, Structural)]
pub enum Draw {
    /// One uniform draw from `[0, 1)`.
    Uniform { numerator: u32 },
    /// A uniform draw from `(0, 1]` and one from `[0, 1)`.
    Polar { radius: u32, angle: u32 },
}

/// Number of outputs of the random source that a sample of this kind uses.
pub open spec fn draws_used(kind: HoleKind) -> nat {
    match kind {
        HoleKind::Discrete => 1,
        HoleKind::Continuous => 2,
    }
}

/// The draw that a generator in `state` hands to a sampler of this kind.
pub open spec fn draw_from(state: u64, kind: HoleKind) -> Draw {
    let first = unit_of(scramble(advance(state)));
    match kind {
        HoleKind::Discrete => Draw::Uniform { numerator: first },
        HoleKind::Continuous => Draw::Polar {
            radius: (first + 1) as u32,
            angle: unit_of(scramble(advance(advance(state)))),
        },
    }
}

/// Whether the numerators of a draw lie in their ranges.
pub open spec fn in_range(draw: Draw) -> bool {
    match draw {
        Draw::Uniform { numerator } => numerator < crate::rng::UNIT,
        Draw::Polar { radius, angle } => 0 < radius <= crate::rng::UNIT && angle
            < crate::rng::UNIT,
    }
}

/// Takes from the generator what one sample of the given kind needs.
pub fn draw(rng: &mut Rng, kind: HoleKind) -> (draw: Draw)
    ensures
        draw == draw_from(old(rng)@, kind),
        final(rng)@ == state_after(old(rng)@, draws_used(kind)),
        in_range(draw),
{
    proof {
        reveal_with_fuel(state_after, 3);
    }
    match kind {
        HoleKind::Discrete => Draw::Uniform { numerator: rng.next_unit() },
        HoleKind::Continuous => {
            let radius = rng.next_positive_unit();
            let angle = rng.next_unit();
            Draw::Polar { radius, angle }
        },
    }
}

} // verus!
