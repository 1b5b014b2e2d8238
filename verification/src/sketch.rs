//! The sketch and its six holes.
//!
//! The sketch is the program `if x ? t { x ? a } else { x ? b }`: a guard that
//! compares the input with a threshold, and one arithmetic step in either
//! branch. Its holes are, in order: the guard's comparison, the guard's
//! threshold, the first branch's operator and operand, the second branch's
//! operator and operand. Holes at even positions are discrete, holes at odd
//! positions are continuous. The scalar type `T` of the continuous holes is
//! the driver's.

use vstd::prelude::*;
use crate::operators::{ArithOp, CompareOp};

verus! {

/// Number of holes in the sketch.
pub const HOLES: usize = 6;

/// The family of values a hole takes.
#[derive(Clone, Copy, Debug, PartialEq, Eq, Structural)]
pub enum HoleKind {
    /// A category index.
    Discrete,
    /// A scalar.
    Continuous,
}

/// The kind of the hole at a position, if the sketch has such a hole.
pub open spec fn kind_at(hole: int) -> Option<HoleKind> {
    if 0 <= hole < HOLES {
        if hole % 2 == 0 {
            Some(HoleKind::Discrete)
        } else {
            Some(HoleKind::Continuous)
        }
    } else {
        None
    }
}

/// The kind of the hole at a position, if the sketch has such a hole.
pub fn hole_kind(hole: usize) -> (kind: Option<HoleKind>)
    ensures
        kind == kind_at(hole as int),
{
    if hole >= HOLES {
        None
    } else if hole % 2 == 0 {
        Some(HoleKind::Discrete)
    } else {
        Some(HoleKind::Continuous)
    }
}

/// One value for every hole: what one rollout samples, and what the final
/// read-out returns.
#[derive(Clone, Copy, Debug)]
pub struct Candidate<T> {
    pub guard: usize,
    pub threshold: T,
    pub then_op: usize,
    pub then_operand: T,
    pub else_op: usize,
    pub else_operand: T,
}

/// A candidate with its category indices decoded: the sketch with every hole
/// filled.
#[derive(Clone, Copy, Debug)]
pub struct Program<T> {
    pub guard: CompareOp,
    pub threshold: T,
    pub then_op: ArithOp,
    pub then_operand: T,
    pub else_op: ArithOp,
    pub else_operand: T,
}

impl<T> Candidate<T> {
    /// The category index held by the discrete hole at `hole`.
    pub open spec fn choice(self, hole: int) -> usize
        recommends
            kind_at(hole) == Some(HoleKind::Discrete),
    {
        if hole == 0 {
            self.guard
        } else if hole == 2 {
            self.then_op
        } else {
            self.else_op
        }
    }

    /// The scalar held by the continuous hole at `hole`.
    pub open spec fn constant(self, hole: int) -> T
        recommends
            kind_at(hole) == Some(HoleKind::Continuous),
    {
        if hole == 1 {
            self.threshold
        } else if hole == 3 {
            self.then_operand
        } else {
            self.else_operand
        }
    }

    /// The program this candidate stands for.
    pub open spec fn program(self) -> Program<T> {
        Program {
            guard: CompareOp::of_index(self.guard as int),
            threshold: self.threshold,
            then_op: ArithOp::of_index(self.then_op as int),
            then_operand: self.then_operand,
            else_op: ArithOp::of_index(self.else_op as int),
            else_operand: self.else_operand,
        }
    }
}

impl<T: Copy> Candidate<T> {
    /// The category index of a discrete hole; `None` for any other position.
    pub fn choice_at(&self, hole: usize) -> (index: Option<usize>)
        ensures
            index == if kind_at(hole as int) == Some(HoleKind::Discrete) {
                Some(self.choice(hole as int))
            } else {
                None
            },
    {
        if hole == 0 {
            Some(self.guard)
        } else if hole == 2 {
            Some(self.then_op)
        } else if hole == 4 {
            Some(self.else_op)
        } else {
            None
        }
    }

    /// The scalar of a continuous hole; `None` for any other position.
    pub fn constant_at(&self, hole: usize) -> (value: Option<T>)
        ensures
            value == if kind_at(hole as int) == Some(HoleKind::Continuous) {
                Some(self.constant(hole as int))
            } else {
                None
            },
    {
        if hole == 1 {
            Some(self.threshold)
        } else if hole == 3 {
            Some(self.then_operand)
        } else if hole == 5 {
            Some(self.else_operand)
        } else {
            None
        }
    }

    /// Decodes the category indices into operators.
    pub fn decode(&self) -> (program: Program<T>)
        ensures
            program == self.program(),
    {
        Program {
            guard: CompareOp::from_index(self.guard),
            threshold: self.threshold,
            then_op: ArithOp::from_index(self.then_op),
            then_operand: self.then_operand,
            else_op: ArithOp::from_index(self.else_op),
            else_operand: self.else_operand,
        }
    }
}

impl<T> Program<T> {
    /// The arithmetic step that an input takes: the first branch's where the
    /// guard holds of it, the second branch's where it does not.
    pub open spec fn arm(self, taken: bool) -> (ArithOp, T) {
        if taken {
            (self.then_op, self.then_operand)
        } else {
            (self.else_op, self.else_operand)
        }
    }
}

impl<T: Copy> Program<T> {
    /// Selects the branch of an input from the outcome of the guard.
    pub fn branch(&self, taken: bool) -> (step: (ArithOp, T))
        ensures
            step == self.arm(taken),
    {
        if taken {
            (self.then_op, self.then_operand)
        } else {
            (self.else_op, self.else_operand)
        }
    }
}

} // verus!
