//! The rollouts of one batch and the per-hole traces read from them.
//!
//! A rollout is recorded with its raw score. Once the batch statistics are
//! known the scores are rewritten in place as advantages. Each hole's trace is
//! the batch seen through that hole: its own sampled value paired with the
//! rollout's signal, in the order in which the rollouts were recorded.

use vstd::prelude::*;
use crate::sketch::{kind_at, Candidate, HoleKind};

verus! {

/// One sampled candidate and the signal attached to it: its raw score at
/// first, its advantage after standardization.
#[derive(Clone, Copy, Debug)]
pub struct Rollout<T> {
    pub candidate: Candidate<T>,
    pub signal: T,
}

/// The rollouts of the current batch, in the order of recording.
#[derive(Debug)]
pub struct TraceSet<T> {
    rollouts: Vec<Rollout<T>>,
}

impl<T> View for TraceSet<T> {
    type V = Seq<Rollout<T>>;

    closed spec fn view(&self) -> Seq<Rollout<T>> {
        self.rollouts@
    }
}

/// The signals of a batch, rollout by rollout.
pub open spec fn signals_of<T>(rollouts: Seq<Rollout<T>>) -> Seq<T> {
    Seq::new(rollouts.len(), |j: int| rollouts[j].signal)
}

/// The batch with its signals replaced, rollout by rollout; every sampled
/// value stays where it was.
pub open spec fn with_signals<T>(rollouts: Seq<Rollout<T>>, signals: Seq<T>) -> Seq<Rollout<T>>
    recommends
        signals.len() == rollouts.len(),
{
    Seq::new(
        rollouts.len(),
        |j: int| Rollout { candidate: rollouts[j].candidate, signal: signals[j] },
    )
}

/// The trace of a discrete hole: for every rollout the category it sampled
/// for that hole, with the rollout's signal.
pub open spec fn discrete_view<T>(rollouts: Seq<Rollout<T>>, hole: int) -> Seq<(usize, T)> {
    Seq::new(rollouts.len(), |j: int| (rollouts[j].candidate.choice(hole), rollouts[j].signal))
}

/// The trace of a continuous hole: for every rollout the scalar it sampled
/// for that hole, with the rollout's signal.
pub open spec fn continuous_view<T>(rollouts: Seq<Rollout<T>>, hole: int) -> Seq<(T, T)> {
    Seq::new(rollouts.len(), |j: int| (rollouts[j].candidate.constant(hole), rollouts[j].signal))
}

impl<T: Copy> TraceSet<T> {
    /// An empty batch.
    pub fn new() -> (traces: TraceSet<T>)
        ensures
            traces@ == Seq::<Rollout<T>>::empty(),
    {
        TraceSet { rollouts: Vec::new() }
    }

    /// Number of rollouts recorded.
    pub fn len(&self) -> (len: usize)
        ensures
            len == self@.len(),
    {
        self.rollouts.len()
    }

    /// Records a rollout after those already there.
    pub fn record(&mut self, candidate: Candidate<T>, score: T)
        ensures
            final(self)@ == old(self)@.push(Rollout { candidate, signal: score }),
    {
        self.rollouts.push(Rollout { candidate, signal: score });
    }

    /// The signals of the batch, rollout by rollout.
    pub fn signals(&self) -> (signals: Vec<T>)
        ensures
            signals@ == signals_of(self@),
    {
        let n = self.rollouts.len();
        let mut signals: Vec<T> = Vec::new();
        let mut j: usize = 0;
        while j < n
            invariant
                n == self.rollouts@.len(),
                j <= n,
                signals@ == signals_of(self.rollouts@.take(j as int)),
            decreases n - j,
        {
            signals.push(self.rollouts[j].signal);
            j += 1;
            assert(signals@ =~= signals_of(self.rollouts@.take(j as int)));
        }
        assert(self.rollouts@.take(n as int) =~= self.rollouts@);
        signals
    }

    /// Replaces the signal of every rollout, in place. Where `signals` does
    /// not hold one signal per rollout, nothing changes and the result is
    /// `false`.
    pub fn rewrite(&mut self, signals: &Vec<T>) -> (done: bool)
        ensures
            done == (signals@.len() == old(self)@.len()),
            final(self)@ == if done {
                with_signals(old(self)@, signals@)
            } else {
                old(self)@
            },
    {
        let n = self.rollouts.len();
        if signals.len() != n {
            return false;
        }
        let mut j: usize = 0;
        while j < n
            invariant
                n == signals@.len(),
                n == old(self).rollouts@.len(),
                n == self.rollouts@.len(),
                j <= n,
                forall|i: int|
                    0 <= i < j ==> #[trigger] self.rollouts@[i] == (Rollout {
                        candidate: old(self).rollouts@[i].candidate,
                        signal: signals@[i],
                    }),
                forall|i: int| j <= i < n ==> #[trigger] self.rollouts@[i] == old(self).rollouts@[i],
            decreases n - j,
        {
            let candidate = self.rollouts[j].candidate;
            self.rollouts.set(j, Rollout { candidate, signal: signals[j] });
            j += 1;
        }
        assert(self.rollouts@ =~= with_signals(old(self).rollouts@, signals@));
        true
    }

    /// The trace of a discrete hole; `None` for any other position.
    pub fn discrete_trace(&self, hole: usize) -> (trace: Option<Vec<(usize, T)>>)
        ensures
            match trace {
                Some(t) => kind_at(hole as int) == Some(HoleKind::Discrete) && t@ == discrete_view(
                    self@,
                    hole as int,
                ),
                None => kind_at(hole as int) != Some(HoleKind::Discrete),
            },
    {
        if !(hole == 0 || hole == 2 || hole == 4) {
            return None;
        }
        let n = self.rollouts.len();
        let mut trace: Vec<(usize, T)> = Vec::new();
        let mut j: usize = 0;
        while j < n
            invariant
                hole == 0 || hole == 2 || hole == 4,
                n == self.rollouts@.len(),
                j <= n,
                trace@ == discrete_view(self.rollouts@.take(j as int), hole as int),
            decreases n - j,
        {
            let rollout = self.rollouts[j];
            let value = if hole == 0 {
                rollout.candidate.guard
            } else if hole == 2 {
                rollout.candidate.then_op
            } else {
                rollout.candidate.else_op
            };
            trace.push((value, rollout.signal));
            j += 1;
            assert(trace@ =~= discrete_view(self.rollouts@.take(j as int), hole as int));
        }
        assert(self.rollouts@.take(n as int) =~= self.rollouts@);
        Some(trace)
    }

    /// The trace of a continuous hole; `None` for any other position.
    pub fn continuous_trace(&self, hole: usize) -> (trace: Option<Vec<(T, T)>>)
        ensures
            match trace {
                Some(t) => kind_at(hole as int) == Some(HoleKind::Continuous) && t@
                    == continuous_view(self@, hole as int),
                None => kind_at(hole as int) != Some(HoleKind::Continuous),
            },
    {
        if !(hole == 1 || hole == 3 || hole == 5) {
            return None;
        }
        let n = self.rollouts.len();
        let mut trace: Vec<(T, T)> = Vec::new();
        let mut j: usize = 0;
        while j < n
            invariant
                hole == 1 || hole == 3 || hole == 5,
                n == self.rollouts@.len(),
                j <= n,
                trace@ == continuous_view(self.rollouts@.take(j as int), hole as int),
            decreases n - j,
        {
            let rollout = self.rollouts[j];
            let value = if hole == 1 {
                rollout.candidate.threshold
            } else if hole == 3 {
                rollout.candidate.then_operand
            } else {
                rollout.candidate.else_operand
            };
            trace.push((value, rollout.signal));
            j += 1;
            assert(trace@ =~= continuous_view(self.rollouts@.take(j as int), hole as int));
        }
        assert(self.rollouts@.take(n as int) =~= self.rollouts@);
        Some(trace)
    }
}

/// Grouping by hole keeps the order of recording: a recorded rollout comes
/// last in every hole's trace, with that hole's own value, and what the
/// traces held before stays as it was.
pub proof fn lemma_trace_grows_with_batch<T>(rollouts: Seq<Rollout<T>>, last: Rollout<T>, hole: int)
    ensures
        discrete_view(rollouts.push(last), hole) == discrete_view(rollouts, hole).push(
            (last.candidate.choice(hole), last.signal),
        ),
        continuous_view(rollouts.push(last), hole) == continuous_view(rollouts, hole).push(
            (last.candidate.constant(hole), last.signal),
        ),
{
    assert(discrete_view(rollouts.push(last), hole) =~= discrete_view(rollouts, hole).push(
        (last.candidate.choice(hole), last.signal),
    ));
    assert(continuous_view(rollouts.push(last), hole) =~= continuous_view(rollouts, hole).push(
        (last.candidate.constant(hole), last.signal),
    ));
}

/// Rewriting the signals leaves every sampled value in its place: entry `j`
/// of a hole's trace pairs the value that rollout `j` sampled for the hole
/// with the new signal of rollout `j`.
pub proof fn lemma_rewrite_keeps_values<T>(
    rollouts: Seq<Rollout<T>>,
    signals: Seq<T>,
    hole: int,
    j: int,
)
    requires
        signals.len() == rollouts.len(),
        0 <= j < rollouts.len(),
    ensures
        with_signals(rollouts, signals).len() == rollouts.len(),
        signals_of(with_signals(rollouts, signals)) == signals,
        discrete_view(with_signals(rollouts, signals), hole)[j] == (
            rollouts[j].candidate.choice(hole),
            signals[j],
        ),
        continuous_view(with_signals(rollouts, signals), hole)[j] == (
            rollouts[j].candidate.constant(hole),
            signals[j],
        ),
{
    assert(signals_of(with_signals(rollouts, signals)) =~= signals);
}

} // verus!
