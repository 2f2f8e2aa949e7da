use reify_reflect::async_trace::{
    reify_execution, to_dot, AsyncStepGraph, PollEvent, PollRecorder, PollResult, StepNode,
    StepOutcome, Trace,
};
use reify_reflect::text::collapse_whitespace;
use std::time::Duration;

fn make_event(step: usize, result: PollResult, label: Option<&str>) -> PollEvent {
    PollEvent {
        step,
        offset: Duration::ZERO,
        result,
        label: label.map(String::from),
    }
}

fn timed_event(step: usize, micros: u64, result: PollResult, label: Option<&str>) -> PollEvent {
    PollEvent {
        step,
        offset: Duration::from_micros(micros),
        result,
        label: label.map(String::from),
    }
}

#[test]
fn empty_trace() {
    let graph = reify_execution(vec![]);
    assert!(graph.steps.is_empty());
    assert!(graph.edges.is_empty());
}

#[test]
fn single_event() {
    let graph = reify_execution(vec![make_event(0, PollResult::Ready, Some("only"))]);
    assert_eq!(graph.steps.len(), 1);
    assert_eq!(graph.steps[0].label, "only");
    assert_eq!(graph.steps[0].outcome, StepOutcome::Completed);
    assert!(graph.edges.is_empty());
}

#[test]
fn two_steps() {
    let graph = reify_execution(vec![
        make_event(0, PollResult::Pending, Some("a")),
        make_event(1, PollResult::Ready, Some("a")),
        make_event(2, PollResult::Ready, Some("b")),
    ]);
    assert_eq!(graph.steps.len(), 2);
    assert_eq!(graph.steps[0].label, "a");
    assert_eq!(graph.steps[0].outcome, StepOutcome::Completed);
    assert_eq!(graph.steps[1].label, "b");
    assert_eq!(graph.edges, vec![(0, 1)]);
}

#[test]
fn three_steps_chain() {
    let graph = reify_execution(vec![
        make_event(0, PollResult::Ready, Some("x")),
        make_event(1, PollResult::Pending, Some("y")),
        make_event(2, PollResult::Ready, Some("y")),
        make_event(3, PollResult::Ready, Some("z")),
    ]);
    assert_eq!(graph.steps.len(), 3);
    assert_eq!(graph.edges, vec![(0, 1), (1, 2)]);
}

#[test]
fn unlabeled_steps() {
    let graph = reify_execution(vec![
        make_event(0, PollResult::Ready, None),
        make_event(1, PollResult::Ready, Some("b")),
    ]);
    assert_eq!(graph.steps.len(), 2);
    assert_eq!(graph.steps[0].label, "step_0");
    assert_eq!(graph.steps[1].label, "b");
}

#[test]
fn step_durations_and_outcomes() {
    let graph = reify_execution(vec![
        timed_event(0, 100, PollResult::Pending, Some("fetch")),
        timed_event(1, 250, PollResult::Ready, Some("fetch")),
        timed_event(2, 400, PollResult::Pending, None),
        timed_event(3, 1000, PollResult::Pending, Some("a")),
        timed_event(4, 1700, PollResult::Cancelled, Some("a")),
    ]);
    assert_eq!(graph.steps.len(), 3);
    assert_eq!(graph.steps[0].duration_us, 300);
    assert_eq!(graph.steps[0].outcome, StepOutcome::Completed);
    assert_eq!(graph.steps[1].label, "step_1");
    assert_eq!(graph.steps[1].duration_us, 600);
    assert_eq!(graph.steps[1].outcome, StepOutcome::Pending);
    assert_eq!(graph.steps[2].duration_us, 700);
    assert_eq!(graph.steps[2].outcome, StepOutcome::Cancelled);
    assert_eq!(graph.steps[2].id, 2);
    assert_eq!(graph.edges, vec![(0, 1), (1, 2)]);
}

#[test]
fn repeated_labels_after_a_change_form_new_steps() {
    let graph = reify_execution(vec![
        make_event(0, PollResult::Ready, Some("a")),
        make_event(1, PollResult::Ready, Some("b")),
        make_event(2, PollResult::Ready, Some("a")),
    ]);
    assert_eq!(graph.steps.len(), 3);
    assert_eq!(graph.steps[2].label, "a");
    let single = reify_execution(vec![timed_event(0, 50, PollResult::Pending, None)]);
    assert_eq!(single.steps[0].label, "step_0");
    assert_eq!(single.steps[0].duration_us, 0);
    assert_eq!(single.steps[0].outcome, StepOutcome::Pending);
}

#[test]
fn dot_output() {
    let graph = AsyncStepGraph {
        steps: vec![
            StepNode {
                id: 0,
                label: "start".into(),
                duration_us: 100,
                outcome: StepOutcome::Completed,
            },
            StepNode {
                id: 1,
                label: "end".into(),
                duration_us: 50,
                outcome: StepOutcome::Pending,
            },
        ],
        edges: vec![(0, 1)],
    };
    let dot = to_dot(&graph);
    assert!(dot.contains("digraph async_trace"));
    assert!(dot.contains("start"));
    assert!(dot.contains("end"));
    assert!(dot.contains("n0 -> n1"));
    assert!(dot.contains("green"));
    assert!(dot.contains("yellow"));
}

#[test]
fn dot_output_exact() {
    let graph = AsyncStepGraph {
        steps: vec![StepNode {
            id: 12,
            label: "x".into(),
            duration_us: 305,
            outcome: StepOutcome::Cancelled,
        }],
        edges: vec![(12, 3)],
    };
    assert_eq!(
        to_dot(&graph),
        "digraph async_trace {\n    rankdir=TB;\n    node [shape=box];\n\n    n12 [label=\"x\\n(305us)\" style=filled fillcolor=red];\n\n    n12 -> n3;\n}\n"
    );
}

#[test]
fn traced_workflow_step_graph() {
    let mut trace = Trace::new();
    for label in ["one", "two", "three"] {
        let mut rec = PollRecorder::new(Some(label.to_string()));
        rec.on_poll(&mut trace, true);
        rec.on_drop(&mut trace);
    }
    let graph = reify_execution(trace.events);
    assert_eq!(graph.steps.len(), 3);
    assert_eq!(graph.edges.len(), 2);

    let dot = to_dot(&graph);
    assert!(dot.contains("digraph"));
    assert!(dot.contains("n0 -> n1"));
    assert!(dot.contains("n1 -> n2"));
}

#[test]
fn trace_push_numbers_events() {
    let mut trace = Trace::new();
    assert!(trace.events.is_empty());
    trace.push(PollResult::Pending, None);
    trace.push(PollResult::Ready, Some("x".to_string()));
    assert_eq!(trace.events.len(), 2);
    assert_eq!(trace.events[0].step, 0);
    assert_eq!(trace.events[1].step, 1);
    assert_eq!(trace.events[1].result, PollResult::Ready);
    assert_eq!(trace.events[1].label.as_deref(), Some("x"));
    assert!(trace.events[0].offset <= trace.events[1].offset);
}

#[test]
fn dropped_pending_future_is_cancelled() {
    let mut trace = Trace::new();
    let mut rec = PollRecorder::new(Some("drop_me".into()));
    rec.on_poll(&mut trace, false);
    rec.on_drop(&mut trace);
    assert!(trace.events.iter().any(|e| e.result == PollResult::Pending));
    assert!(trace
        .events
        .iter()
        .any(|e| e.result == PollResult::Cancelled));
    assert_eq!(trace.events[1].label.as_deref(), Some("drop_me"));
}

#[test]
fn completed_future_drop_records_nothing() {
    let mut trace = Trace::new();
    let mut rec = PollRecorder::new(None);
    rec.on_poll(&mut trace, false);
    rec.on_poll(&mut trace, true);
    assert!(rec.completed);
    rec.on_drop(&mut trace);
    assert_eq!(trace.events.len(), 2);
    assert_eq!(trace.events[1].result, PollResult::Ready);
    let shared = Trace::shared();
    assert!(shared.lock().unwrap().events.is_empty());
}

#[test]
fn await_labels_collapse_whitespace() {
    assert_eq!(collapse_whitespace("fetch  (\n    1 ,\t2 )"), "fetch ( 1 , 2 )");
    assert_eq!(collapse_whitespace("  a\n\t b  "), "a b");
    assert_eq!(collapse_whitespace(""), "");
    assert_eq!(collapse_whitespace(" \n "), "");
    assert_eq!(collapse_whitespace("a\u{00A0}\u{2003}b"), "a b");
    assert_eq!(collapse_whitespace("client . get (url)"), "client . get (url)");
}

#[test]
fn drop_after_another_futures_ready_still_cancels() {
    let mut trace = Trace::new();
    let mut x = PollRecorder::new(Some("x".into()));
    let mut y = PollRecorder::new(Some("y".into()));
    x.on_poll(&mut trace, false);
    y.on_poll(&mut trace, true);
    x.on_drop(&mut trace);
    assert_eq!(trace.events.len(), 3);
    assert_eq!(trace.events[2].result, PollResult::Cancelled);
    assert_eq!(trace.events[2].label.as_deref(), Some("x"));
    assert_eq!(trace.events[2].step, 2);
    // A future never polled records nothing when dropped.
    let z = PollRecorder::new(None);
    z.on_drop(&mut trace);
    assert_eq!(trace.events.len(), 3);
}

#[test]
fn trace_push_measures_offset_from_start() {
    let mut trace = Trace::new();
    if let Some(earlier) = trace.start.checked_sub(Duration::from_millis(50)) {
        trace.start = earlier;
        trace.push(PollResult::Pending, None);
        assert!(trace.events[0].offset >= Duration::from_millis(50));
        assert!(trace.events[0].offset <= trace.start.elapsed());
    }
}

#[test]
fn collapse_whitespace_knows_unicode_spaces() {
    // U+3000, U+00A0, U+2009 and U+0085 are white space; U+200B is not.
    assert_eq!(collapse_whitespace("\u{3000}a\u{00A0}\u{2009}b\u{0085}"), "a b");
    assert_eq!(collapse_whitespace("a\u{200B}b"), "a\u{200B}b");
    assert_eq!(collapse_whitespace("a\u{000B}\u{000C}\rb"), "a b");
}
