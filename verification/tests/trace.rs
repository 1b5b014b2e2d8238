use sketch_induction::sketch::Candidate;
use sketch_induction::trace::TraceSet;

fn candidate(n: usize) -> Candidate<f64> {
    Candidate {
        guard: n % 3,
        threshold: n as f64 + 0.25,
        then_op: (n + 1) % 4,
        then_operand: n as f64 + 0.5,
        else_op: (n + 2) % 4,
        else_operand: n as f64 + 0.75,
    }
}

fn batch(n: usize) -> TraceSet<f64> {
    let mut traces = TraceSet::new();
    for j in 0..n {
        traces.record(candidate(j), 10.0 * j as f64);
    }
    traces
}

#[test]
fn a_new_batch_is_empty() {
    let traces: TraceSet<f64> = TraceSet::new();
    assert_eq!(traces.len(), 0);
    assert_eq!(traces.signals(), Vec::<f64>::new());
    assert_eq!(traces.discrete_trace(0), Some(vec![]));
    assert_eq!(traces.continuous_trace(1), Some(vec![]));
}

#[test]
fn recording_keeps_the_order() {
    let traces = batch(4);
    assert_eq!(traces.len(), 4);
    assert_eq!(traces.signals(), vec![0.0, 10.0, 20.0, 30.0]);
}

#[test]
fn discrete_traces_hold_each_holes_own_category() {
    let traces = batch(4);
    assert_eq!(traces.discrete_trace(0), Some(vec![(0, 0.0), (1, 10.0), (2, 20.0), (0, 30.0)]));
    assert_eq!(traces.discrete_trace(2), Some(vec![(1, 0.0), (2, 10.0), (3, 20.0), (0, 30.0)]));
    assert_eq!(traces.discrete_trace(4), Some(vec![(2, 0.0), (3, 10.0), (0, 20.0), (1, 30.0)]));
}

#[test]
fn continuous_traces_hold_each_holes_own_scalar() {
    let traces = batch(3);
    assert_eq!(traces.continuous_trace(1), Some(vec![(0.25, 0.0), (1.25, 10.0), (2.25, 20.0)]));
    assert_eq!(traces.continuous_trace(3), Some(vec![(0.5, 0.0), (1.5, 10.0), (2.5, 20.0)]));
    assert_eq!(traces.continuous_trace(5), Some(vec![(0.75, 0.0), (1.75, 10.0), (2.75, 20.0)]));
}

#[test]
fn a_trace_of_the_wrong_kind_is_refused() {
    let traces = batch(2);
    assert_eq!(traces.discrete_trace(1), None);
    assert_eq!(traces.discrete_trace(3), None);
    assert_eq!(traces.discrete_trace(5), None);
    assert_eq!(traces.discrete_trace(6), None);
    assert_eq!(traces.continuous_trace(0), None);
    assert_eq!(traces.continuous_trace(2), None);
    assert_eq!(traces.continuous_trace(4), None);
    assert_eq!(traces.continuous_trace(6), None);
}

#[test]
fn rewriting_replaces_signals_and_keeps_values() {
    let mut traces = batch(3);
    assert!(traces.rewrite(&vec![-1.0, 0.0, 1.0]));
    assert_eq!(traces.signals(), vec![-1.0, 0.0, 1.0]);
    assert_eq!(traces.discrete_trace(0), Some(vec![(0, -1.0), (1, 0.0), (2, 1.0)]));
    assert_eq!(traces.continuous_trace(3), Some(vec![(0.5, -1.0), (1.5, 0.0), (2.5, 1.0)]));
    assert_eq!(traces.len(), 3);
}

#[test]
fn rewriting_with_the_wrong_number_of_signals_changes_nothing() {
    let mut traces = batch(3);
    assert!(!traces.rewrite(&vec![-1.0, 0.0]));
    assert!(!traces.rewrite(&vec![-1.0, 0.0, 1.0, 2.0]));
    assert!(!traces.rewrite(&vec![]));
    assert_eq!(traces.signals(), vec![0.0, 10.0, 20.0]);
    assert_eq!(traces.discrete_trace(0), Some(vec![(0, 0.0), (1, 10.0), (2, 20.0)]));
}

#[test]
fn rewriting_an_empty_batch() {
    let mut traces: TraceSet<f64> = TraceSet::new();
    assert!(traces.rewrite(&vec![]));
    assert!(!traces.rewrite(&vec![1.0]));
    assert_eq!(traces.len(), 0);
}

#[test]
fn recording_after_a_rewrite_appends() {
    let mut traces = batch(2);
    assert!(traces.rewrite(&vec![5.0, 6.0]));
    traces.record(candidate(7), 99.0);
    assert_eq!(traces.signals(), vec![5.0, 6.0, 99.0]);
    assert_eq!(traces.discrete_trace(0), Some(vec![(0, 5.0), (1, 6.0), (1, 99.0)]));
}
