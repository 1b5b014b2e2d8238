use sketch_induction::rng::{Rng, UNIT};
use sketch_induction::sampling::Draw;
use sketch_induction::schedule::{Action, Phase, Schedule};

fn expected_plan(batch: usize, iterations: usize) -> Vec<Action> {
    let mut plan = vec![Action::Initialize];
    for iteration in 0..iterations {
        plan.push(Action::Begin { iteration });
        for rollout in 0..batch {
            for hole in 0..6 {
                plan.push(Action::Sample { rollout, hole });
            }
            plan.push(Action::Score { rollout });
        }
        if batch >= 2 {
            plan.push(Action::Standardize { freedom: batch - 1 });
        } else {
            plan.push(Action::Neutralize);
        }
        plan.push(Action::Log { iteration });
        for hole in 0..6 {
            plan.push(Action::Estimate { hole });
        }
        for hole in 0..6 {
            plan.push(Action::Update { hole });
        }
    }
    plan.push(Action::Readout);
    plan
}

fn handed_out(batch: usize, iterations: usize) -> Vec<Action> {
    let mut schedule = Schedule::new(batch, iterations);
    let mut actions = Vec::new();
    while let Some(action) = schedule.next() {
        actions.push(action);
        assert!(actions.len() <= 100_000);
    }
    actions
}

#[test]
fn one_iteration_of_two_rollouts() {
    let actions = handed_out(2, 1);
    assert_eq!(
        actions,
        vec![
            Action::Initialize,
            Action::Begin { iteration: 0 },
            Action::Sample { rollout: 0, hole: 0 },
            Action::Sample { rollout: 0, hole: 1 },
            Action::Sample { rollout: 0, hole: 2 },
            Action::Sample { rollout: 0, hole: 3 },
            Action::Sample { rollout: 0, hole: 4 },
            Action::Sample { rollout: 0, hole: 5 },
            Action::Score { rollout: 0 },
            Action::Sample { rollout: 1, hole: 0 },
            Action::Sample { rollout: 1, hole: 1 },
            Action::Sample { rollout: 1, hole: 2 },
            Action::Sample { rollout: 1, hole: 3 },
            Action::Sample { rollout: 1, hole: 4 },
            Action::Sample { rollout: 1, hole: 5 },
            Action::Score { rollout: 1 },
            Action::Standardize { freedom: 1 },
            Action::Log { iteration: 0 },
            Action::Estimate { hole: 0 },
            Action::Estimate { hole: 1 },
            Action::Estimate { hole: 2 },
            Action::Estimate { hole: 3 },
            Action::Estimate { hole: 4 },
            Action::Estimate { hole: 5 },
            Action::Update { hole: 0 },
            Action::Update { hole: 1 },
            Action::Update { hole: 2 },
            Action::Update { hole: 3 },
            Action::Update { hole: 4 },
            Action::Update { hole: 5 },
            Action::Readout,
        ]
    );
}

#[test]
fn the_plan_is_the_nested_loop() {
    for batch in 0..5 {
        for iterations in 0..4 {
            assert_eq!(handed_out(batch, iterations), expected_plan(batch, iterations));
        }
    }
}

#[test]
fn a_run_takes_a_fixed_number_of_actions() {
    assert_eq!(handed_out(50, 3).len(), 3 * (15 + 7 * 50) + 2);
    assert_eq!(handed_out(1, 10).len(), 10 * 22 + 2);
    assert_eq!(handed_out(0, 10).len(), 10 * 15 + 2);
    assert_eq!(handed_out(7, 0).len(), 2);
}

#[test]
fn a_run_without_iterations_sets_up_and_reads_out() {
    assert_eq!(handed_out(50, 0), vec![Action::Initialize, Action::Readout]);
}

#[test]
fn a_single_rollout_has_no_deviation() {
    let actions = handed_out(1, 2);
    assert!(actions.contains(&Action::Neutralize));
    assert!(!actions.iter().any(|a| matches!(a, Action::Standardize { .. })));
    assert_eq!(actions.iter().filter(|a| **a == Action::Neutralize).count(), 2);
}

#[test]
fn an_empty_batch_has_no_deviation() {
    let actions = handed_out(0, 1);
    assert_eq!(
        actions[..4],
        [Action::Initialize, Action::Begin { iteration: 0 }, Action::Neutralize, Action::Log { iteration: 0 }]
    );
}

#[test]
fn a_batch_of_fifty_divides_by_forty_nine() {
    let actions = handed_out(50, 1);
    assert_eq!(actions[1 + 1 + 7 * 50], Action::Standardize { freedom: 49 });
}

#[test]
fn every_iteration_is_logged_once_in_order() {
    let actions = handed_out(3, 5);
    let logged: Vec<usize> = actions
        .iter()
        .filter_map(|a| match a {
            Action::Log { iteration } => Some(*iteration),
            _ => None,
        })
        .collect();
    assert_eq!(logged, vec![0, 1, 2, 3, 4]);
}

#[test]
fn nothing_is_handed_out_after_the_read_out() {
    let mut schedule = Schedule::new(1, 1);
    let mut last = None;
    while let Some(action) = schedule.next() {
        last = Some(action);
    }
    assert_eq!(last, Some(Action::Readout));
    assert_eq!(schedule.next(), None);
    assert_eq!(schedule.next(), None);
    assert_eq!(schedule.phase(), Phase::Finished);
}

#[test]
fn the_phases_of_a_run() {
    let mut schedule = Schedule::new(2, 2);
    assert_eq!(schedule.phase(), Phase::Initializing);
    assert_eq!(schedule.next(), Some(Action::Initialize));
    let mut iterating = 0;
    while schedule.phase() == Phase::Iterating {
        assert!(schedule.next().is_some());
        iterating += 1;
    }
    assert_eq!(iterating, 2 * (15 + 7 * 2));
    assert_eq!(schedule.phase(), Phase::Finalizing);
    assert_eq!(schedule.next(), Some(Action::Readout));
    assert_eq!(schedule.phase(), Phase::Finished);
}

#[test]
fn the_phases_of_a_run_without_iterations() {
    let mut schedule = Schedule::new(2, 0);
    assert_eq!(schedule.phase(), Phase::Initializing);
    assert_eq!(schedule.next(), Some(Action::Initialize));
    assert_eq!(schedule.phase(), Phase::Finalizing);
    assert_eq!(schedule.next(), Some(Action::Readout));
    assert_eq!(schedule.phase(), Phase::Finished);
}

#[test]
fn the_getters_keep_the_configuration() {
    let mut schedule = Schedule::new(50, 10000);
    for _ in 0..1000 {
        schedule.next();
    }
    assert_eq!(schedule.batch(), 50);
    assert_eq!(schedule.iterations(), 10000);
}

#[test]
fn a_step_hands_out_the_plan() {
    let mut schedule = Schedule::new(3, 2);
    let mut rng = Rng::new(1);
    let mut actions = Vec::new();
    while let Some((action, _)) = schedule.step(&mut rng) {
        actions.push(action);
    }
    assert_eq!(actions, expected_plan(3, 2));
    assert_eq!(schedule.step(&mut rng), None);
}

#[test]
fn the_draws_of_the_first_rollout() {
    let mut schedule = Schedule::new(2, 1);
    let mut rng = Rng::new(10);
    assert_eq!(schedule.step(&mut rng), Some((Action::Initialize, None)));
    assert_eq!(schedule.step(&mut rng), Some((Action::Begin { iteration: 0 }, None)));
    assert_eq!(
        schedule.step(&mut rng),
        Some((Action::Sample { rollout: 0, hole: 0 }, Some(Draw::Uniform { numerator: 558866 })))
    );
    assert_eq!(
        schedule.step(&mut rng),
        Some((
            Action::Sample { rollout: 0, hole: 1 },
            Some(Draw::Polar { radius: 12320637, angle: 2197358 })
        ))
    );
    assert_eq!(
        schedule.step(&mut rng),
        Some((Action::Sample { rollout: 0, hole: 2 }, Some(Draw::Uniform { numerator: 14122641 })))
    );
    assert_eq!(
        schedule.step(&mut rng),
        Some((
            Action::Sample { rollout: 0, hole: 3 },
            Some(Draw::Polar { radius: 14366297, angle: 15920814 })
        ))
    );
    assert_eq!(
        schedule.step(&mut rng),
        Some((Action::Sample { rollout: 0, hole: 4 }, Some(Draw::Uniform { numerator: 13209981 })))
    );
    assert_eq!(
        schedule.step(&mut rng),
        Some((
            Action::Sample { rollout: 0, hole: 5 },
            Some(Draw::Polar { radius: 13163879, angle: 16327686 })
        ))
    );
    assert_eq!(schedule.step(&mut rng), Some((Action::Score { rollout: 0 }, None)));
    assert_eq!(
        schedule.step(&mut rng),
        Some((Action::Sample { rollout: 1, hole: 0 }, Some(Draw::Uniform { numerator: 4918800 })))
    );
}

#[test]
fn only_samples_take_draws() {
    let mut schedule = Schedule::new(4, 3);
    let mut rng = Rng::new(3);
    while let Some((action, input)) = schedule.step(&mut rng) {
        match (action, input) {
            (Action::Sample { hole, .. }, Some(Draw::Uniform { numerator })) => {
                assert!(hole % 2 == 0);
                assert!(numerator < UNIT);
            }
            (Action::Sample { hole, .. }, Some(Draw::Polar { radius, angle })) => {
                assert!(hole % 2 == 1);
                assert!(0 < radius && radius <= UNIT);
                assert!(angle < UNIT);
            }
            (Action::Sample { .. }, None) => panic!("a sample without a draw"),
            (_, Some(_)) => panic!("a draw without a sample"),
            (_, None) => {}
        }
    }
}

#[test]
fn a_run_uses_nine_outputs_per_rollout() {
    let batch = 4;
    let iterations = 3;
    let mut schedule = Schedule::new(batch, iterations);
    let mut rng = Rng::new(21);
    while schedule.step(&mut rng).is_some() {}
    let mut reference = Rng::new(21);
    for _ in 0..9 * batch * iterations {
        reference.next_u64();
    }
    assert_eq!(rng.next_u64(), reference.next_u64());
}

#[test]
fn a_run_replays_from_its_seed() {
    let mut first = Vec::new();
    let mut schedule = Schedule::new(5, 4);
    let mut rng = Rng::new(2024);
    while let Some(step) = schedule.step(&mut rng) {
        first.push(step);
    }
    let mut second = Vec::new();
    let mut schedule = Schedule::new(5, 4);
    let mut rng = Rng::new(2024);
    while let Some(step) = schedule.step(&mut rng) {
        second.push(step);
    }
    assert_eq!(first, second);
    assert_eq!(first.len(), 4 * (15 + 7 * 5) + 2);
}

#[test]
fn a_second_run_continues_the_stream() {
    // Two runs that share one generator: the second starts where the first
    // left the stream.
    let mut rng = Rng::new(10);
    let mut schedule = Schedule::new(1, 1);
    while schedule.step(&mut rng).is_some() {}
    let mut schedule = Schedule::new(1, 1);
    schedule.step(&mut rng);
    schedule.step(&mut rng);
    assert_eq!(
        schedule.step(&mut rng),
        Some((Action::Sample { rollout: 0, hole: 0 }, Some(Draw::Uniform { numerator: 4918800 })))
    );
}
