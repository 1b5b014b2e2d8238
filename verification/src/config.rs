//! The knobs of one run of the search.

use vstd::prelude::*;
use crate::rng::Rng;
use crate::schedule::Schedule;
use crate::sketch::{kind_at, HoleKind};

verus! {

/// How the categorical distributions of a run represent their samples: by the
/// category's weight alone, or by an explicit one-hot vector.
#[derive(Clone, Copy, Debug, PartialEq, Eq, Structural)]
pub enum Encoding {
    Relaxed,
    OneHot,
}

impl Encoding {
    /// The encoding that the mode flag of a categorical distribution selects.
    pub open spec fn of_flag(one_hot: bool) -> Encoding {
        if one_hot {
            Encoding::OneHot
        } else {
            Encoding::Relaxed
        }
    }

    /// The short name of the estimator that goes with the encoding.
    pub open spec fn name(self) -> Seq<char> {
        match self {
            Encoding::Relaxed => seq!['N', 'E', 'S'],
            Encoding::OneHot => seq!['V', 'O'],
        }
    }

    /// Reads the mode flag.
    pub fn from_flag(one_hot: bool) -> (encoding: Encoding)
        ensures
            encoding == Self::of_flag(one_hot),
    {
        if one_hot {
            Encoding::OneHot
        } else {
            Encoding::Relaxed
        }
    }

    /// The mode flag of the encoding.
    pub fn is_one_hot(self) -> (one_hot: bool)
        ensures
            Self::of_flag(one_hot) == self,
    {
        match self {
            Encoding::Relaxed => false,
            Encoding::OneHot => true,
        }
    }

    /// The label of the run's objective curve.
    pub fn label(self) -> (s: &'static str)
        ensures
            s@ == self.name(),
    {
        proof {
            reveal_strlit("NES");
            reveal_strlit("VO");
        }
        match self {
            Encoding::Relaxed => {
                assert("NES"@ =~= seq!['N', 'E', 'S']);
                "NES"
            },
            Encoding::OneHot => {
                assert("VO"@ =~= seq!['V', 'O']);
                "VO"
            },
        }
    }
}

/// Everything that one run is given. The scalar type `T` is the driver's.
#[derive(Clone, Debug)]
pub struct Config<T> {
    /// Seed of the random source.
    pub seed: u64,
    /// Rollouts per iteration.
    pub batch: usize,
    /// Iterations of the run.
    pub iterations: usize,
    /// Step size of the parameter updates.
    pub rate: T,
    /// Number of categories of the guard's comparison hole.
    pub guard_categories: usize,
    /// Number of categories of the first branch's operator hole.
    pub then_categories: usize,
    /// Number of categories of the second branch's operator hole.
    pub else_categories: usize,
    /// Representation of the categorical samples.
    pub encoding: Encoding,
    /// Inputs on which a candidate is scored.
    pub inputs: Vec<T>,
    /// The output wanted for each input.
    pub outputs: Vec<T>,
}

impl<T> Config<T> {
    /// Whether a run can be made from these values: every discrete hole has a
    /// category to sample, and every input has its output.
    pub open spec fn valid(&self) -> bool {
        &&& self.guard_categories >= 1
        &&& self.then_categories >= 1
        &&& self.else_categories >= 1
        &&& self.inputs@.len() == self.outputs@.len()
    }

    /// The number of categories of the discrete hole at `hole`.
    pub open spec fn categories(&self, hole: int) -> usize
        recommends
            kind_at(hole) == Some(HoleKind::Discrete),
    {
        if hole == 0 {
            self.guard_categories
        } else if hole == 2 {
            self.then_categories
        } else {
            self.else_categories
        }
    }

    /// Checks the values before a run is made from them.
    pub fn is_valid(&self) -> (valid: bool)
        ensures
            valid == self.valid(),
    {
        self.guard_categories >= 1 && self.then_categories >= 1 && self.else_categories >= 1
            && self.inputs.len() == self.outputs.len()
    }

    /// The number of categories of a discrete hole; `None` for any other
    /// position.
    pub fn categories_at(&self, hole: usize) -> (count: Option<usize>)
        ensures
            count == if kind_at(hole as int) == Some(HoleKind::Discrete) {
                Some(self.categories(hole as int))
            } else {
                None
            },
    {
        if hole == 0 {
            Some(self.guard_categories)
        } else if hole == 2 {
            Some(self.then_categories)
        } else if hole == 4 {
            Some(self.else_categories)
        } else {
            None
        }
    }

    /// The random source of the run, in the state of the seed.
    pub fn rng(&self) -> (rng: Rng)
        ensures
            rng@ == self.seed,
    {
        Rng::new(self.seed)
    }

    /// The schedule of the run, with nothing handed out yet.
    pub fn schedule(&self) -> (schedule: Schedule)
        ensures
            schedule@.batch == self.batch,
            schedule@.iterations == self.iterations,
            schedule@.position == 0,
    {
        Schedule::new(self.batch, self.iterations)
    }
}

} // verus!
