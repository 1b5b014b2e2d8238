//! The training loop as a state machine.
//!
//! One run of the search is a fixed sequence of actions: set the holes up,
//! then for every iteration sample and score a batch of rollouts, turn the
//! scores into advantages, log the batch objective, estimate one gradient per
//! hole and apply it, and at the very end read the holes out. [`plan`] writes
//! that sequence down; a [`Schedule`] hands it out one action at a time to a
//! driver that owns the numeric state. The sequence never depends on what the
//! driver computes: there is no early exit.

use vstd::prelude::*;
use crate::rng::{state_after, Rng};
use crate::sampling::{draw, draw_from, draws_used, in_range, Draw};
use crate::sketch::{hole_kind, kind_at, HOLES};

verus! {

/// One unit of work for the driver.
#[derive(Clone, Copy, Debug, PartialEq, Eq, Structural)]
pub enum Action {
    /// Build the six distributions with their neutral parameters.
    Initialize,
    /// Start an iteration: empty traces, zeroed batch statistics.
    Begin { iteration: usize },
    /// Draw the value of one hole for one rollout.
    Sample { rollout: usize, hole: usize },
    /// Evaluate the rollout's six values, feed the score to the batch
    /// statistics and record it in every hole's trace.
    Score { rollout: usize },
    /// Rewrite the recorded scores of the batch as advantages: each score's
    /// distance from the batch mean, in sample standard deviations. `freedom`
    /// is the divisor of the sample variance, one less than the batch size.
    Standardize { freedom: usize },
    /// Rewrite the recorded scores of the batch as zero advantages: with
    /// fewer than two rollouts the batch has no sample standard deviation.
    Neutralize,
    /// Append the batch-mean objective of the iteration to the time series.
    Log { iteration: usize },
    /// Estimate the gradient of one hole from its own trace.
    Estimate { hole: usize },
    /// Apply the estimated gradient of one hole to its parameters.
    Update { hole: usize },
    /// Read the most likely value out of every hole.
    Readout,
}

/// What a schedule will hand out next.
#[derive(Clone, Copy, Debug, PartialEq, Eq, Structural)]
enum Stage {
    Initialize,
    Begin,
    Sample { rollout: usize, hole: usize },
    Score { rollout: usize },
    Baseline,
    Log,
    Estimate { hole: usize },
    Update { hole: usize },
    Readout,
    Done,
}

/// The three states of a run, and the rest once it is over.
#[derive(Clone, Copy, Debug, PartialEq, Eq, Structural)]
pub enum Phase {
    Initializing,
    Iterating,
    Finalizing,
    Finished,
}

/// The actions of one rollout: a draw for each hole, first to last, then the
/// evaluation.
pub open spec fn rollout_plan(rollout: nat) -> Seq<Action> {
    Seq::new(
        HOLES as nat,
        |hole: int| Action::Sample { rollout: rollout as usize, hole: hole as usize },
    ).push(Action::Score { rollout: rollout as usize })
}

/// The actions of the first `count` rollouts of a batch, in order.
pub open spec fn rollouts_plan(count: nat) -> Seq<Action>
    decreases count,
{
    if count == 0 {
        Seq::empty()
    } else {
        rollouts_plan((count - 1) as nat) + rollout_plan((count - 1) as nat)
    }
}

/// The gradient estimates of an iteration, one per hole, first to last.
pub open spec fn estimates_plan() -> Seq<Action> {
    Seq::new(HOLES as nat, |hole: int| Action::Estimate { hole: hole as usize })
}

/// The parameter updates of an iteration, one per hole, first to last.
pub open spec fn updates_plan() -> Seq<Action> {
    Seq::new(HOLES as nat, |hole: int| Action::Update { hole: hole as usize })
}

/// How the scores of a batch become advantages.
pub open spec fn baseline_plan(batch: nat) -> Action {
    if batch >= 2 {
        Action::Standardize { freedom: (batch - 1) as usize }
    } else {
        Action::Neutralize
    }
}

/// The actions of one iteration.
pub open spec fn iteration_plan(batch: nat, iteration: nat) -> Seq<Action> {
    seq![Action::Begin { iteration: iteration as usize }] + rollouts_plan(batch) + seq![
        baseline_plan(batch),
        Action::Log { iteration: iteration as usize },
    ] + estimates_plan() + updates_plan()
}

/// The actions of the first `count` iterations, in order.
pub open spec fn iterations_plan(batch: nat, count: nat) -> Seq<Action>
    decreases count,
{
    if count == 0 {
        Seq::empty()
    } else {
        iterations_plan(batch, (count - 1) as nat) + iteration_plan(batch, (count - 1) as nat)
    }
}

/// Every action of a run, in the order in which it is to be performed.
pub open spec fn plan(batch: nat, iterations: nat) -> Seq<Action> {
    seq![Action::Initialize] + iterations_plan(batch, iterations) + seq![Action::Readout]
}

/// Number of actions in one iteration: seven for each rollout, six estimates,
/// six updates and three more.
pub open spec fn iteration_len(batch: nat) -> nat {
    15 + 7 * batch
}

/// The first `count` rollouts of a batch take seven actions each.
pub proof fn lemma_rollouts_len(count: nat)
    ensures
        rollouts_plan(count).len() == 7 * count,
    decreases count,
{
    if count > 0 {
        lemma_rollouts_len((count - 1) as nat);
    }
}

/// The draws of rollout `j` stand in hole order, right before its evaluation.
pub proof fn lemma_rollouts_entry(count: nat, j: int, k: int)
    requires
        0 <= j < count,
        0 <= k <= 6,
    ensures
        7 * j + k < rollouts_plan(count).len(),
        rollouts_plan(count)[7 * j + k] == if k < 6 {
            Action::Sample { rollout: j as usize, hole: k as usize }
        } else {
            Action::Score { rollout: j as usize }
        },
    decreases count,
{
    let before = (count - 1) as nat;
    lemma_rollouts_len(before);
    lemma_rollouts_len(count);
    if j < before {
        lemma_rollouts_entry(before, j, k);
        assert(rollouts_plan(count)[7 * j + k] == rollouts_plan(before)[7 * j + k]);
    } else {
        assert(rollouts_plan(count)[7 * j + k] == rollout_plan(before)[k]);
    }
}

/// An iteration takes the same number of actions whatever its number.
pub proof fn lemma_iteration_len(batch: nat, iteration: nat)
    ensures
        iteration_plan(batch, iteration).len() == iteration_len(batch),
{
    lemma_rollouts_len(batch);
}

/// An iteration opens with `Begin`, and after its rollouts come the baseline,
/// `Log`, the six estimates and the six updates.
pub proof fn lemma_iteration_frame(batch: nat, iteration: nat, k: int)
    requires
        0 <= k < 6,
    ensures
        iteration_plan(batch, iteration)[0] == (Action::Begin { iteration: iteration as usize }),
        iteration_plan(batch, iteration)[1 + 7 * (batch as int)] == baseline_plan(batch),
        iteration_plan(batch, iteration)[2 + 7 * (batch as int)] == (Action::Log {
            iteration: iteration as usize,
        }),
        iteration_plan(batch, iteration)[3 + 7 * batch + k] == (Action::Estimate {
            hole: k as usize,
        }),
        iteration_plan(batch, iteration)[9 + 7 * batch + k] == (Action::Update {
            hole: k as usize,
        }),
{
    lemma_rollouts_len(batch);
    let whole = iteration_plan(batch, iteration);
    assert(whole[3 + 7 * batch + k] == estimates_plan()[k]);
    assert(whole[9 + 7 * batch + k] == updates_plan()[k]);
}

/// Within an iteration the rollouts come in order, each with its six draws
/// and then its evaluation.
pub proof fn lemma_iteration_rollout(batch: nat, iteration: nat, j: int, k: int)
    requires
        0 <= j < batch,
        0 <= k <= 6,
    ensures
        iteration_plan(batch, iteration)[1 + 7 * j + k] == if k < 6 {
            Action::Sample { rollout: j as usize, hole: k as usize }
        } else {
            Action::Score { rollout: j as usize }
        },
{
    lemma_rollouts_entry(batch, j, k);
    assert(iteration_plan(batch, iteration)[1 + 7 * j + k] == rollouts_plan(batch)[7 * j + k]);
}

/// The first `count` iterations take `count` times the actions of one.
pub proof fn lemma_iterations_len(batch: nat, count: nat)
    ensures
        iterations_plan(batch, count).len() == count * iteration_len(batch),
    decreases count,
{
    let len = iteration_len(batch);
    if count > 0 {
        let before = (count - 1) as nat;
        lemma_iterations_len(batch, before);
        lemma_iteration_len(batch, before);
        assert(count * len == before * len + len) by (nonlinear_arith)
            requires
                count == before + 1,
        ;
    } else {
        assert(count * len == 0) by (nonlinear_arith)
            requires
                count == 0,
        ;
    }
}

/// The iterations follow one another without a gap: action `offset` of
/// iteration `i` is action `i * iteration_len(batch) + offset` of them all.
pub proof fn lemma_iterations_entry(batch: nat, count: nat, i: int, offset: int)
    requires
        0 <= i < count,
        0 <= offset < iteration_len(batch),
    ensures
        0 <= i * iteration_len(batch) + offset < iterations_plan(batch, count).len(),
        iterations_plan(batch, count)[i * iteration_len(batch) + offset] == iteration_plan(
            batch,
            i as nat,
        )[offset],
    decreases count,
{
    let len = iteration_len(batch) as int;
    let before = (count - 1) as nat;
    lemma_iterations_len(batch, before);
    lemma_iterations_len(batch, count);
    lemma_iteration_len(batch, before);
    assert(0 <= i * len && i * len + offset < count * len) by (nonlinear_arith)
        requires
            0 <= i < count,
            0 <= offset < len,
    ;
    if i < before {
        lemma_iterations_entry(batch, before, i, offset);
        assert(iterations_plan(batch, count)[i * len + offset] == iterations_plan(
            batch,
            before,
        )[i * len + offset]);
    } else {
        assert(iterations_plan(batch, count)[before * len + offset] == iteration_plan(
            batch,
            before,
        )[offset]);
    }
}

/// A run always takes the same number of actions: one to set up, a fixed
/// number for each of its iterations, one to read out.
pub proof fn lemma_plan_len(batch: nat, iterations: nat)
    ensures
        plan(batch, iterations).len() == iterations * iteration_len(batch) + 2,
        plan(batch, iterations)[0] == Action::Initialize,
        plan(batch, iterations).last() == Action::Readout,
{
    lemma_iterations_len(batch, iterations);
}

/// Action `offset` of iteration `i` is action `1 + i * iteration_len(batch) +
/// offset` of the run.
pub proof fn lemma_plan_iteration(batch: nat, iterations: nat, i: int, offset: int)
    requires
        0 <= i < iterations,
        0 <= offset < iteration_len(batch),
    ensures
        0 < 1 + i * iteration_len(batch) + offset < plan(batch, iterations).len() - 1,
        plan(batch, iterations)[1 + i * iteration_len(batch) + offset] == iteration_plan(
            batch,
            i as nat,
        )[offset],
{
    lemma_iterations_entry(batch, iterations, i, offset);
    let len = iteration_len(batch) as int;
    assert(plan(batch, iterations)[1 + i * len + offset] == iterations_plan(
        batch,
        iterations,
    )[i * len + offset]);
}

/// The action at `offset` within an iteration, by division: the closed form of
/// [`iteration_plan`].
pub open spec fn iteration_action(batch: nat, iteration: nat, offset: int) -> Action {
    if offset == 0 {
        Action::Begin { iteration: iteration as usize }
    } else if offset <= 7 * batch {
        let rollout = (offset - 1) / 7;
        let hole = (offset - 1) % 7;
        if hole < 6 {
            Action::Sample { rollout: rollout as usize, hole: hole as usize }
        } else {
            Action::Score { rollout: rollout as usize }
        }
    } else if offset == 7 * batch + 1 {
        baseline_plan(batch)
    } else if offset == 7 * batch + 2 {
        Action::Log { iteration: iteration as usize }
    } else if offset < 7 * batch + 9 {
        Action::Estimate { hole: (offset - 7 * batch - 3) as usize }
    } else {
        Action::Update { hole: (offset - 7 * batch - 9) as usize }
    }
}

/// The action at `position` of a run, by division: the closed form of
/// [`plan`].
pub open spec fn action_at(batch: nat, iterations: nat, position: int) -> Action {
    let len = iteration_len(batch) as int;
    if position == 0 {
        Action::Initialize
    } else if position == 1 + iterations * len {
        Action::Readout
    } else {
        iteration_action(batch, ((position - 1) / len) as nat, (position - 1) % len)
    }
}

/// Every action of an iteration is the one that the closed form gives for its
/// offset.
pub proof fn lemma_iteration_action(batch: nat, iteration: nat, offset: int)
    requires
        0 <= offset < iteration_len(batch),
    ensures
        iteration_plan(batch, iteration)[offset] == iteration_action(batch, iteration, offset),
{
    if offset == 0 || offset == 7 * batch + 1 || offset == 7 * batch + 2 {
        lemma_iteration_frame(batch, iteration, 0);
    } else if offset <= 7 * batch {
        let rollout = (offset - 1) / 7;
        let hole = (offset - 1) % 7;
        lemma_iteration_rollout(batch, iteration, rollout, hole);
    } else if offset < 7 * batch + 9 {
        lemma_iteration_frame(batch, iteration, offset - 7 * batch - 3);
    } else {
        lemma_iteration_frame(batch, iteration, offset - 7 * batch - 9);
    }
}

/// Every action of a run is the one that the closed form gives for its
/// position.
pub proof fn lemma_plan_action(batch: nat, iterations: nat, position: int)
    requires
        0 <= position < plan(batch, iterations).len(),
    ensures
        plan(batch, iterations)[position] == action_at(batch, iterations, position),
{
    let len = iteration_len(batch) as int;
    lemma_plan_len(batch, iterations);
    if 0 < position < 1 + iterations * len {
        let i = (position - 1) / len;
        let offset = (position - 1) % len;
        vstd::arithmetic::div_mod::lemma_fundamental_div_mod(position - 1, len);
        vstd::arithmetic::div_mod::lemma_div_pos_is_pos(position - 1, len);
        assert(0 <= offset < len);
        assert(i < iterations) by (nonlinear_arith)
            requires
                position - 1 == len * i + offset,
                0 <= offset,
                position - 1 < iterations * len,
                0 < len,
        ;
        assert(len * i == i * len) by (nonlinear_arith);
        lemma_plan_iteration(batch, iterations, i, offset);
        lemma_iteration_action(batch, i as nat, offset);
    }
}

/// The holes are set up once, before anything else, and read out once, after
/// everything else: `Initialize` stands at the first position of a run and
/// nowhere else, `Readout` at the last and nowhere else.
pub proof fn lemma_plan_lifecycle(batch: nat, iterations: nat, position: int)
    requires
        0 <= position < plan(batch, iterations).len(),
    ensures
        plan(batch, iterations)[position] == Action::Initialize <==> position == 0,
        plan(batch, iterations)[position] == Action::Readout <==> position == plan(
            batch,
            iterations,
        ).len() - 1,
{
    lemma_plan_action(batch, iterations, position);
    lemma_plan_len(batch, iterations);
}

/// A batch is standardized only where it has a sample standard deviation:
/// every `Standardize` of a run divides by one less than a batch size of two
/// or more, and a run of smaller batches neutralizes them instead.
pub proof fn lemma_plan_baseline(batch: nat, iterations: nat, position: int)
    requires
        0 <= position < plan(batch, iterations).len(),
        batch <= usize::MAX,
    ensures
        plan(batch, iterations)[position] matches Action::Standardize { freedom } ==> batch >= 2
            && freedom == batch - 1,
        plan(batch, iterations)[position] == Action::Neutralize ==> batch < 2,
{
    lemma_plan_action(batch, iterations, position);
}

/// The time series gets one entry per iteration, in order: the run logs
/// iteration `i` at one position, after the rollouts and the baseline of that
/// iteration, and logs nothing anywhere else.
pub proof fn lemma_plan_logs(batch: nat, iterations: nat, position: int, i: int)
    requires
        0 <= position < plan(batch, iterations).len(),
        0 <= i < iterations <= usize::MAX,
    ensures
        plan(batch, iterations)[position] == (Action::Log { iteration: i as usize }) <==> position
            == 1 + i * iteration_len(batch) + 7 * batch + 2,
{
    let len = iteration_len(batch) as int;
    lemma_plan_action(batch, iterations, position);
    lemma_plan_len(batch, iterations);
    lemma_plan_iteration(batch, iterations, i, 7 * batch as int + 2);
    lemma_iteration_frame(batch, i as nat, 0);
    if plan(batch, iterations)[position] == (Action::Log { iteration: i as usize }) {
        let q = (position - 1) / len;
        let offset = (position - 1) % len;
        vstd::arithmetic::div_mod::lemma_fundamental_div_mod(position - 1, len);
        vstd::arithmetic::div_mod::lemma_div_pos_is_pos(position - 1, len);
        assert(q < iterations) by (nonlinear_arith)
            requires
                position - 1 == len * q + offset,
                0 <= offset,
                position - 1 < iterations * len,
                0 < len,
        ;
        assert(len * q == q * len) by (nonlinear_arith);
    }
}

/// The random input that goes with an action when the generator is in
/// `state`: a draw of the hole's kind for `Sample`, nothing for any other.
pub open spec fn draw_with(action: Action, state: u64) -> Option<Draw> {
    match action {
        Action::Sample { rollout, hole } => match kind_at(hole as int) {
            Some(kind) => Some(draw_from(state, kind)),
            None => None,
        },
        _ => None,
    }
}

/// Number of outputs of the random source that an action uses.
pub open spec fn outputs_used(action: Action) -> nat {
    match action {
        Action::Sample { rollout, hole } => match kind_at(hole as int) {
            Some(kind) => draws_used(kind),
            None => 0,
        },
        _ => 0,
    }
}

/// Number of outputs of the random source that the first `count` actions of a
/// run use.
pub open spec fn outputs_before(batch: nat, iterations: nat, count: nat) -> nat
    decreases count,
{
    if count == 0 {
        0
    } else {
        outputs_before(batch, iterations, (count - 1) as nat) + outputs_used(
            plan(batch, iterations)[count - 1],
        )
    }
}

/// Number of outputs of the random source used within an iteration by the
/// actions before `offset`: nine for every rollout gone by, and of the
/// current rollout one for every discrete hole and two for every continuous
/// hole already sampled.
pub open spec fn outputs_within(batch: nat, offset: int) -> int {
    if offset <= 0 {
        0
    } else if offset <= 7 * batch {
        let rollout = (offset - 1) / 7;
        let sampled = (offset - 1) % 7;
        9 * rollout + sampled + sampled / 2
    } else {
        9 * batch as int
    }
}

/// The outputs used before a position within an iteration: those of the
/// iterations gone by, and those used within the current one.
pub proof fn lemma_outputs_in_iteration(batch: nat, iterations: nat, i: int, offset: int)
    requires
        0 <= i < iterations,
        0 <= offset <= iteration_len(batch),
    ensures
        0 <= 1 + i * iteration_len(batch) + offset,
        outputs_before(batch, iterations, (1 + i * iteration_len(batch) + offset) as nat) == 9
            * batch * i + outputs_within(batch, offset),
    decreases i, offset,
{
    let len = iteration_len(batch) as int;
    let at = 1 + i * len + offset;
    assert(0 <= i * len) by (nonlinear_arith)
        requires
            0 <= i,
            0 <= len,
    ;
    assert(9 * batch * i == 9 * batch * (i - 1) + 9 * batch) by (nonlinear_arith);
    assert(i * len == (i - 1) * len + len) by (nonlinear_arith);
    if offset > 0 {
        let prev = offset - 1;
        let action = iteration_action(batch, i as nat, prev);
        lemma_outputs_in_iteration(batch, iterations, i, prev);
        lemma_plan_iteration(batch, iterations, i, prev);
        lemma_iteration_action(batch, i as nat, prev);
        assert(plan(batch, iterations)[at - 1] == action);
        assert(outputs_before(batch, iterations, at as nat) == outputs_before(
            batch,
            iterations,
            (at - 1) as nat,
        ) + outputs_used(action));
        assert(outputs_within(batch, offset) == outputs_within(batch, prev) + outputs_used(
            action,
        )) by {
            if 1 <= prev <= 7 * batch {
                let rollout = (prev - 1) / 7;
                let sampled = (prev - 1) % 7;
                assert(prev == 7 * rollout + sampled + 1);
                if sampled < 6 {
                    assert(prev / 7 == rollout && prev % 7 == sampled + 1);
                    assert(kind_at(sampled) == if sampled % 2 == 0 {
                        Some(crate::sketch::HoleKind::Discrete)
                    } else {
                        Some(crate::sketch::HoleKind::Continuous)
                    });
                } else {
                    assert(prev / 7 == rollout + 1 && prev % 7 == 0);
                }
            }
        }
    } else if i > 0 {
        lemma_outputs_in_iteration(batch, iterations, i - 1, len);
    } else {
        assert(i * len == 0) by (nonlinear_arith)
            requires
                i == 0,
        ;
        assert(9 * batch * i == 0) by (nonlinear_arith)
            requires
                i == 0,
        ;
        assert(outputs_before(batch, iterations, 1) == outputs_before(batch, iterations, 0)
            + outputs_used(plan(batch, iterations)[0]));
    }
}

/// A run uses nine outputs of the random source for every rollout, and none
/// for anything else.
pub proof fn lemma_outputs_total(batch: nat, iterations: nat)
    ensures
        outputs_before(batch, iterations, plan(batch, iterations).len()) == 9 * batch
            * iterations,
{
    let len = iteration_len(batch) as int;
    let total = plan(batch, iterations).len();
    lemma_plan_len(batch, iterations);
    assert(outputs_before(batch, iterations, total) == outputs_before(
        batch,
        iterations,
        (total - 1) as nat,
    ) + outputs_used(plan(batch, iterations)[total - 1]));
    if iterations > 0 {
        lemma_outputs_in_iteration(batch, iterations, iterations - 1, len);
        assert(iterations * len == (iterations - 1) * len + len) by (nonlinear_arith);
        assert(9 * batch * iterations == 9 * batch * (iterations - 1) + 9 * batch)
            by (nonlinear_arith);
    } else {
        assert(iterations * len == 0) by (nonlinear_arith)
            requires
                iterations == 0,
        ;
        assert(9 * batch * iterations == 0) by (nonlinear_arith)
            requires
                iterations == 0,
        ;
        assert(total == 2);
        assert(outputs_before(batch, iterations, 1) == outputs_before(batch, iterations, 0)
            + outputs_used(plan(batch, iterations)[0]));
    }
}

/// What a run hands to its driver at `position` when its random source
/// started from `seed`: the action that stands there, with the random input
/// that the source gives it after the outputs used before.
pub open spec fn script(batch: nat, iterations: nat, seed: u64, position: nat) -> (
    Action,
    Option<Draw>,
) {
    let action = plan(batch, iterations)[position as int];
    (action, draw_with(action, state_after(seed, outputs_before(batch, iterations, position))))
}

/// A run can be replayed from its seed, its batch size and its number of
/// iterations. A random source that has kept pace with the run up to a
/// position (its state is the seed's state after the outputs used before)
/// gives the action at that position the input that the script names, and
/// has kept pace after it too. So every step of two runs that agree on the
/// three values is the same.
pub proof fn lemma_replay(batch: nat, iterations: nat, seed: u64, position: nat, state: u64)
    requires
        position < plan(batch, iterations).len(),
        state == state_after(seed, outputs_before(batch, iterations, position)),
    ensures
        (
            plan(batch, iterations)[position as int],
            draw_with(plan(batch, iterations)[position as int], state),
        ) == script(batch, iterations, seed, position),
        state_after(state, outputs_used(plan(batch, iterations)[position as int])) == state_after(
            seed,
            outputs_before(batch, iterations, position + 1),
        ),
{
    crate::rng::lemma_state_after_add(
        seed,
        outputs_before(batch, iterations, position),
        outputs_used(plan(batch, iterations)[position as int]),
    );
}

/// What a [`Schedule`] stands for: the run it hands out and how far it has got.
pub struct ScheduleView {
    /// Rollouts per iteration.
    pub batch: nat,
    /// Iterations of the run.
    pub iterations: nat,
    /// Number of actions handed out so far.
    pub position: nat,
}

impl ScheduleView {
    /// The actions of the run this schedule hands out.
    pub open spec fn plan(self) -> Seq<Action> {
        plan(self.batch, self.iterations)
    }

    /// The state of the run after the actions handed out so far.
    pub open spec fn phase(self) -> Phase {
        if self.position == 0 {
            Phase::Initializing
        } else if self.position + 1 < self.plan().len() {
            Phase::Iterating
        } else if self.position + 1 == self.plan().len() {
            Phase::Finalizing
        } else {
            Phase::Finished
        }
    }
}

/// Hands out the actions of one run, in order, each exactly once.
#[derive(Clone, Copy, Debug)]
pub struct Schedule {
    batch: usize,
    iterations: usize,
    iteration: usize,
    stage: Stage,
}

impl View for Schedule {
    type V = ScheduleView;

    closed spec fn view(&self) -> ScheduleView {
        ScheduleView {
            batch: self.batch as nat,
            iterations: self.iterations as nat,
            position: self.offset(),
        }
    }
}

/// Number of actions that stand before iteration `iteration`.
#[verifier::opaque]
spec fn iteration_start(batch: nat, iteration: nat) -> nat {
    1 + iteration * iteration_len(batch)
}

proof fn lemma_iteration_start(batch: nat, iterations: nat, iteration: nat)
    ensures
        iteration_start(batch, 0) == 1,
        iteration_start(batch, iteration + 1) == iteration_start(batch, iteration) + iteration_len(
            batch,
        ),
        iteration_start(batch, iteration) == 1 + iteration * iteration_len(batch),
        iteration_start(batch, iterations) + 1 == plan(batch, iterations).len(),
        iteration < iterations ==> iteration_start(batch, iteration) + iteration_len(batch)
            <= iteration_start(batch, iterations),
{
    reveal(iteration_start);
    let len = iteration_len(batch);
    lemma_plan_len(batch, iterations);
    assert(0 * len == 0) by (nonlinear_arith);
    assert((iteration + 1) * len == iteration * len + len) by (nonlinear_arith);
    assert(iteration < iterations ==> iteration * len + len <= iterations * len)
        by (nonlinear_arith);
}

impl Schedule {
    #[verifier::type_invariant]
    spec fn wf(&self) -> bool {
        match self.stage {
            Stage::Initialize => self.iteration == 0,
            Stage::Begin | Stage::Baseline | Stage::Log => self.iteration < self.iterations,
            Stage::Sample { rollout, hole } => self.iteration < self.iterations && rollout
                < self.batch && hole < HOLES,
            Stage::Score { rollout } => self.iteration < self.iterations && rollout < self.batch,
            Stage::Estimate { hole } | Stage::Update { hole } => self.iteration < self.iterations
                && hole < HOLES,
            Stage::Readout | Stage::Done => self.iteration == self.iterations,
        }
    }

    /// Whether the pending action belongs to an iteration.
    spec fn iterating(&self) -> bool {
        self.stage != Stage::Initialize && self.stage != Stage::Readout && self.stage
            != Stage::Done
    }

    /// Number of actions of the current iteration that stand before the
    /// pending one.
    spec fn local(&self) -> int {
        let batch = self.batch as int;
        match self.stage {
            Stage::Sample { rollout, hole } => 1 + 7 * rollout + hole,
            Stage::Score { rollout } => 1 + 7 * rollout + 6,
            Stage::Baseline => 1 + 7 * batch,
            Stage::Log => 2 + 7 * batch,
            Stage::Estimate { hole } => 3 + 7 * batch + hole,
            Stage::Update { hole } => 9 + 7 * batch + hole,
            _ => 0,
        }
    }

    /// Number of actions that stand before the pending one.
    spec fn offset(&self) -> nat {
        let start = iteration_start(self.batch as nat, self.iteration as nat);
        match self.stage {
            Stage::Initialize => 0,
            Stage::Done => start + 1,
            _ => (start + self.local()) as nat,
        }
    }

    /// The pending action.
    spec fn pending(&self) -> Action {
        match self.stage {
            Stage::Initialize => Action::Initialize,
            Stage::Begin => Action::Begin { iteration: self.iteration },
            Stage::Sample { rollout, hole } => Action::Sample { rollout, hole },
            Stage::Score { rollout } => Action::Score { rollout },
            Stage::Baseline => baseline_plan(self.batch as nat),
            Stage::Log => Action::Log { iteration: self.iteration },
            Stage::Estimate { hole } => Action::Estimate { hole },
            Stage::Update { hole } => Action::Update { hole },
            Stage::Readout | Stage::Done => Action::Readout,
        }
    }

    /// Where a schedule stands in its plan, and what stands there.
    proof fn lemma_standing(&self)
        requires
            self.wf(),
        ensures
            self.iterating() ==> 0 < self.offset() && self.offset() + 1 < self@.plan().len(),
            self.stage == Stage::Initialize ==> self.offset() == 0,
            self.stage == Stage::Readout ==> self.offset() + 1 == self@.plan().len(),
            self.stage == Stage::Done ==> self.offset() == self@.plan().len(),
            self.stage != Stage::Done ==> self@.plan()[self.offset() as int] == self.pending(),
            self.iterating() ==> 0 <= self.local() < iteration_len(self.batch as nat),
    {
        let batch = self.batch as nat;
        let iterations = self.iterations as nat;
        let i = self.iteration as nat;
        lemma_iteration_start(batch, iterations, i);
        lemma_plan_len(batch, iterations);
        if self.iterating() {
            lemma_plan_iteration(batch, iterations, i as int, self.local());
            lemma_iteration_action(batch, i, self.local());
        }
    }

    /// A schedule for `iterations` iterations of `batch` rollouts each, with
    /// nothing handed out yet.
    pub fn new(batch: usize, iterations: usize) -> (schedule: Schedule)
        ensures
            schedule@.batch == batch,
            schedule@.iterations == iterations,
            schedule@.position == 0,
    {
        Schedule { batch, iterations, iteration: 0, stage: Stage::Initialize }
    }

    /// Rollouts per iteration.
    pub fn batch(&self) -> (batch: usize)
        ensures
            batch == self@.batch,
    {
        self.batch
    }

    /// Iterations of the run.
    pub fn iterations(&self) -> (iterations: usize)
        ensures
            iterations == self@.iterations,
    {
        self.iterations
    }

    /// The state of the run.
    pub fn phase(&self) -> (phase: Phase)
        ensures
            phase == self@.phase(),
    {
        proof {
            use_type_invariant(self);
            self.lemma_standing();
        }
        match self.stage {
            Stage::Initialize => Phase::Initializing,
            Stage::Readout => Phase::Finalizing,
            Stage::Done => Phase::Finished,
            _ => Phase::Iterating,
        }
    }

    /// Hands out the next action of the run, or `None` once the read-out has
    /// been handed out.
    pub fn next(&mut self) -> (action: Option<Action>)
        ensures
            final(self)@.batch == old(self)@.batch,
            final(self)@.iterations == old(self)@.iterations,
            match action {
                Some(a) => {
                    &&& old(self)@.position < old(self)@.plan().len()
                    &&& a == old(self)@.plan()[old(self)@.position as int]
                    &&& final(self)@.position == old(self)@.position + 1
                },
                None => {
                    &&& old(self)@.position == old(self)@.plan().len()
                    &&& final(self)@ == old(self)@
                },
            },
    {
        let batch = self.batch;
        let iterations = self.iterations;
        let iteration = self.iteration;
        proof {
            use_type_invariant(&*self);
            self.lemma_standing();
            lemma_iteration_start(batch as nat, iterations as nat, iteration as nat);
        }
        let (action, iteration, stage) = match self.stage {
            Stage::Initialize => {
                let stage = if iterations == 0 {
                    Stage::Readout
                } else {
                    Stage::Begin
                };
                (Action::Initialize, iteration, stage)
            },
            Stage::Begin => {
                let stage = if batch == 0 {
                    Stage::Baseline
                } else {
                    Stage::Sample { rollout: 0, hole: 0 }
                };
                (Action::Begin { iteration }, iteration, stage)
            },
            Stage::Sample { rollout, hole } => {
                let stage = if hole + 1 < HOLES {
                    Stage::Sample { rollout, hole: hole + 1 }
                } else {
                    Stage::Score { rollout }
                };
                (Action::Sample { rollout, hole }, iteration, stage)
            },
            Stage::Score { rollout } => {
                let stage = if rollout + 1 < batch {
                    Stage::Sample { rollout: rollout + 1, hole: 0 }
                } else {
                    Stage::Baseline
                };
                (Action::Score { rollout }, iteration, stage)
            },
            Stage::Baseline => {
                let action = if batch >= 2 {
                    Action::Standardize { freedom: batch - 1 }
                } else {
                    Action::Neutralize
                };
                (action, iteration, Stage::Log)
            },
            Stage::Log => (Action::Log { iteration }, iteration, Stage::Estimate { hole: 0 }),
            Stage::Estimate { hole } => {
                let stage = if hole + 1 < HOLES {
                    Stage::Estimate { hole: hole + 1 }
                } else {
                    Stage::Update { hole: 0 }
                };
                (Action::Estimate { hole }, iteration, stage)
            },
            Stage::Update { hole } => {
                if hole + 1 < HOLES {
                    (Action::Update { hole }, iteration, Stage::Update { hole: hole + 1 })
                } else if iteration + 1 < iterations {
                    (Action::Update { hole }, iteration + 1, Stage::Begin)
                } else {
                    (Action::Update { hole }, iteration + 1, Stage::Readout)
                }
            },
            Stage::Readout => (Action::Readout, iteration, Stage::Done),
            Stage::Done => {
                return None;
            },
        };
        *self = Schedule { batch, iterations, iteration, stage };
        Some(action)
    }

    /// Hands out the next action of the run together with the random input
    /// it needs, taken from `rng`: a draw for the sample of a hole, nothing
    /// for any other action.
    pub fn step(&mut self, rng: &mut Rng) -> (step: Option<(Action, Option<Draw>)>)
        ensures
            final(self)@.batch == old(self)@.batch,
            final(self)@.iterations == old(self)@.iterations,
            match step {
                Some((action, input)) => {
                    &&& old(self)@.position < old(self)@.plan().len()
                    &&& action == old(self)@.plan()[old(self)@.position as int]
                    &&& final(self)@.position == old(self)@.position + 1
                    &&& input == draw_with(action, old(rng)@)
                    &&& input matches Some(d) ==> in_range(d)
                    &&& final(rng)@ == state_after(old(rng)@, outputs_used(action))
                },
                None => {
                    &&& old(self)@.position == old(self)@.plan().len()
                    &&& final(self)@ == old(self)@
                    &&& final(rng)@ == old(rng)@
                },
            },
    {
        match self.next() {
            None => None,
            Some(action) => {
                let input = match action {
                    Action::Sample { rollout, hole } => match hole_kind(hole) {
                        Some(kind) => Some(draw(rng, kind)),
                        None => None,
                    },
                    _ => None,
                };
                Some((action, input))
            },
        }
    }
}

} // verus!
