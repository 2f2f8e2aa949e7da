//! Poll-event traces of async execution, and their step graphs.
//!
//! A `Trace` is a log of `PollEvent`s. `reify_execution` groups maximal runs of
//! consecutive events with the same label into steps chained by sequential
//! edges, and `to_dot` renders the result as Graphviz DOT.

use crate::text::{decimal, push_char, push_decimal};
use std::sync::{Arc, Mutex};
use std::time::{Duration, Instant};
use vstd::prelude::*;
use vstd::string::*;

verus! {

/// The outcome of a single poll.
#[derive(Debug, Clone, PartialEq, Eq, Structural)]
pub enum PollResult {
    /// The future returned `Poll::Pending`.
    Pending,
    /// The future returned `Poll::Ready`.
    Ready,
    /// The future was dropped before completing.
    Cancelled,
}

/// A recorded poll event.
#[derive(Debug, Clone)]
pub struct PollEvent {
    /// Sequential poll index (0-based).
    pub step: usize,
    /// Time elapsed since the start of the parent trace.
    pub offset: Duration,
    /// Whether the poll returned Ready, Pending, or was Cancelled by drop.
    pub result: PollResult,
    /// Optional label for this await point.
    pub label: Option<String>,
}

/// The outcome of an async step.
#[derive(Debug, Clone, PartialEq, Eq, Structural)]
pub enum StepOutcome {
    /// The step completed successfully.
    Completed,
    /// The step is still pending.
    Pending,
    /// The step was cancelled.
    Cancelled,
}

/// A node in the async step graph.
#[derive(Debug, Clone)]
pub struct StepNode {
    /// Unique step identifier.
    pub id: usize,
    /// Human-readable label for this step.
    pub label: String,
    /// Duration of this step in microseconds.
    pub duration_us: u64,
    /// How this step concluded.
    pub outcome: StepOutcome,
}

/// An extracted async step graph: steps connected by sequential edges.
#[derive(Debug, Clone)]
pub struct AsyncStepGraph {
    /// The steps (nodes) in the graph.
    pub steps: Vec<StepNode>,
    /// Directed edges between steps.
    pub edges: Vec<(usize, usize)>,
}

/// `Duration` is `Copy`: its clone is the value itself.
pub assume_specification[ <Duration as Clone>::clone ](d: &Duration) -> (r: Duration)
    ensures
        r == *d,
;

/// What `Duration::saturating_sub` returns for its arguments.
pub uninterp spec fn duration_saturating_sub(a: Duration, b: Duration) -> Duration;

/// What `Duration::as_micros` returns for its argument.
pub uninterp spec fn duration_as_micros(d: Duration) -> u128;

/// `Duration::saturating_sub`: `a - b`, or zero when `b` exceeds `a`. The
/// result is named, not stated: a `Duration`'s value is not visible to
/// contracts.
#[verifier::external_body]
fn saturating_sub(a: &Duration, b: &Duration) -> (r: Duration)
    ensures
        r == duration_saturating_sub(*a, *b),
{
    a.saturating_sub(*b)
}

/// `Duration::as_micros`: the number of whole microseconds. The result is
/// named, not stated: a `Duration`'s value is not visible to contracts.
#[verifier::external_body]
fn as_micros(d: &Duration) -> (r: u128)
    ensures
        r == duration_as_micros(*d),
{
    d.as_micros()
}

/// Whole microseconds from `from` to `to`, truncated to `u64`.
pub open spec fn elapsed_us(to: Duration, from: Duration) -> u64 {
    duration_as_micros(duration_saturating_sub(to, from)) as u64
}

/// The label of an event, as characters.
pub open spec fn label_of(e: PollEvent) -> Option<Seq<char>> {
    match e.label {
        Some(s) => Some(s@),
        None => None,
    }
}

/// Event `i` begins a new step: it is the first event, or its label differs
/// from that of the event before it.
pub open spec fn is_step_start(ev: Seq<PollEvent>, i: int) -> bool {
    i == 0 || label_of(ev[i]) != label_of(ev[i - 1])
}

/// The indices, in order, of the events among the first `k` that begin a
/// step.
pub open spec fn step_starts(ev: Seq<PollEvent>, k: int) -> Seq<int>
    decreases k,
{
    if k <= 0 {
        Seq::empty()
    } else if is_step_start(ev, k - 1) {
        step_starts(ev, k - 1).push(k - 1)
    } else {
        step_starts(ev, k - 1)
    }
}

/// The index just past the last event of step `g`.
pub open spec fn step_end(ev: Seq<PollEvent>, g: int) -> int {
    let st = step_starts(ev, ev.len() as int);
    if g + 1 < st.len() {
        st[g + 1]
    } else {
        ev.len() as int
    }
}

/// The label of step `g`: that of its events, or `step_<g>` when they have
/// none.
pub open spec fn step_label(ev: Seq<PollEvent>, g: int) -> Seq<char> {
    let st = step_starts(ev, ev.len() as int);
    match label_of(ev[st[g]]) {
        Some(s) => s,
        None => seq!['s', 't', 'e', 'p', '_'] + decimal(g as nat),
    }
}

/// The duration of step `g`: from its first event to the first event of the
/// next step, or to the last event for the final step; zero for a trace of
/// one event.
pub open spec fn step_duration(ev: Seq<PollEvent>, g: int) -> u64 {
    let st = step_starts(ev, ev.len() as int);
    if ev.len() == 1 {
        0
    } else if g + 1 < st.len() {
        elapsed_us(ev[st[g + 1]].offset, ev[st[g]].offset)
    } else {
        elapsed_us(ev[ev.len() - 1].offset, ev[st[g]].offset)
    }
}

/// The step outcome a poll result stands for.
pub open spec fn outcome_of(r: PollResult) -> StepOutcome {
    match r {
        PollResult::Ready => StepOutcome::Completed,
        PollResult::Pending => StepOutcome::Pending,
        PollResult::Cancelled => StepOutcome::Cancelled,
    }
}

/// Step `g` of the graph extracted from `ev`.
pub open spec fn step_matches(ev: Seq<PollEvent>, g: int, s: StepNode) -> bool {
    &&& s.id == g
    &&& s.label@ == step_label(ev, g)
    &&& s.duration_us == step_duration(ev, g)
    &&& s.outcome == outcome_of(ev[step_end(ev, g) - 1].result)
}

/// The sequential edges `(0, 1), (1, 2), ...` between `m` steps.
pub open spec fn chain_edges(m: int) -> Seq<(usize, usize)> {
    Seq::new(if m > 0 { (m - 1) as nat } else { 0 }, |k: int| (k as usize, (k + 1) as usize))
}

/// The first `i` starts are a prefix of the first `k` starts, every start
/// lies below its bound, and starts increase.
proof fn lemma_step_starts(ev: Seq<PollEvent>, i: int, k: int)
    requires
        0 <= i <= k <= ev.len(),
    ensures
        step_starts(ev, i).len() <= step_starts(ev, k).len(),
        forall|j: int|
            0 <= j < step_starts(ev, i).len() ==> #[trigger] step_starts(ev, k)[j] == step_starts(
                ev,
                i,
            )[j],
        forall|j: int|
            step_starts(ev, i).len() <= j < step_starts(ev, k).len() ==> i <= #[trigger] step_starts(
                ev,
                k,
            )[j] < k,
    decreases k - i,
{
    if i < k {
        lemma_step_starts(ev, i, k - 1);
        lemma_step_starts_bounded(ev, k - 1);
    }
}

/// Every start among the first `k` events lies below `k`, and the first is 0.
proof fn lemma_step_starts_bounded(ev: Seq<PollEvent>, k: int)
    requires
        0 <= k,
    ensures
        forall|j: int| 0 <= j < step_starts(ev, k).len() ==> 0 <= #[trigger] step_starts(ev, k)[j] < k,
        k > 0 ==> step_starts(ev, k).len() >= 1 && step_starts(ev, k)[0] == 0,
    decreases k,
{
    if k > 0 {
        lemma_step_starts_bounded(ev, k - 1);
        let prev = step_starts(ev, k - 1);
        if is_step_start(ev, k - 1) {
            assert(step_starts(ev, k) == prev.push(k - 1));
            assert forall|j: int| 0 <= j < step_starts(ev, k).len() implies 0 <= #[trigger] step_starts(
                ev,
                k,
            )[j] < k by {
                if j < prev.len() {
                    assert(step_starts(ev, k)[j] == prev[j]);
                }
            }
        } else {
            assert(step_starts(ev, k) == prev);
            assert(k - 1 > 0);
        }
    }
}

/// Labels compared as characters.
fn same_label(a: &Option<String>, b: &Option<String>) -> (r: bool)
    ensures
        r == (match a {
            Some(s) => Some(s@),
            None => None::<Seq<char>>,
        } == match b {
            Some(s) => Some(s@),
            None => None::<Seq<char>>,
        }),
{
    match (a, b) {
        (Some(x), Some(y)) => x.eq(y),
        (None, None) => true,
        _ => false,
    }
}

fn outcome_for(r: &PollResult) -> (o: StepOutcome)
    ensures
        o == outcome_of(*r),
{
    match r {
        PollResult::Ready => StepOutcome::Completed,
        PollResult::Pending => StepOutcome::Pending,
        PollResult::Cancelled => StepOutcome::Cancelled,
    }
}

fn step_name(g: usize) -> (s: String)
    ensures
        s@ == seq!['s', 't', 'e', 'p', '_'] + decimal(g as nat),
{
    let mut s = String::new();
    push_char(&mut s, 's');
    push_char(&mut s, 't');
    push_char(&mut s, 'e');
    push_char(&mut s, 'p');
    push_char(&mut s, '_');
    push_decimal(&mut s, g as u64);
    assert(s@ =~= seq!['s', 't', 'e', 'p', '_'] + decimal(g as nat));
    s
}

fn micros_between(to: &Duration, from: &Duration) -> (r: u64)
    ensures
        r == elapsed_us(*to, *from),
{
    let d = saturating_sub(to, from);
    #[verifier::truncate]
    (as_micros(&d) as u64)
}

/// Extract the step graph of a sequence of poll events.
///
/// Maximal runs of consecutive events with the same label become steps, in
/// order, chained by edges `(0, 1), (1, 2), ...`. A step takes its events'
/// label (or `step_<id>` when they have none), the outcome of its last event,
/// and the time from its first event to the first event of the next step (to
/// the last event for the final step).
pub fn reify_execution(events: Vec<PollEvent>) -> (g: AsyncStepGraph)
    ensures
        g.steps@.len() == step_starts(events@, events@.len() as int).len(),
        forall|k: int| 0 <= k < g.steps@.len() ==> step_matches(events@, k, #[trigger] g.steps@[k]),
        g.edges@ == chain_edges(g.steps@.len() as int),
{
    let n = events.len();
    let ghost ev = events@;
    if n == 0 {
        let g = AsyncStepGraph { steps: Vec::new(), edges: Vec::new() };
        assert(g.edges@ =~= chain_edges(0));
        return g;
    }
    let mut steps: Vec<StepNode> = Vec::new();
    let mut edges: Vec<(usize, usize)> = Vec::new();
    let mut start: usize = 0;
    let mut i: usize = 1;
    proof {
        assert(is_step_start(ev, 0));
        assert(step_starts(ev, 0) == Seq::<int>::empty());
        assert(step_starts(ev, 1) == Seq::<int>::empty().push(0));
        assert(edges@ =~= chain_edges(0));
    }
    while i < n
        invariant
            n == ev.len(),
            ev == events@,
            1 <= i <= n,
            step_starts(ev, i as int).len() == steps@.len() + 1,
            step_starts(ev, i as int)[steps@.len() as int] == start,
            start < i,
            forall|t: int| start <= t < i ==> #[trigger] label_of(ev[t]) == label_of(ev[start as int]),
            forall|k: int| 0 <= k < steps@.len() ==> step_matches(ev, k, #[trigger] steps@[k]),
            edges@ == chain_edges(steps@.len() as int),
        decreases n - i,
    {
        assert(label_of(ev[i - 1]) == label_of(ev[start as int]));
        if !same_label(&events[i].label, &events[start].label) {
            let g = steps.len();
            proof {
                lemma_step_starts(ev, i as int, i + 1);
                lemma_step_starts(ev, i + 1, n as int);
                assert(step_starts(ev, i + 1) == step_starts(ev, i as int).push(i as int));
            }
            let label = match &events[start].label {
                Some(s) => s.clone(),
                None => step_name(g),
            };
            let duration_us = micros_between(&events[i].offset, &events[start].offset);
            let outcome = outcome_for(&events[i - 1].result);
            steps.push(StepNode { id: g, label, duration_us, outcome });
            if g > 0 {
                edges.push((g - 1, g));
            }
            assert(edges@ =~= chain_edges(steps@.len() as int));
            start = i;
        } else {
            assert(step_starts(ev, i + 1) == step_starts(ev, i as int));
        }
        i = i + 1;
    }
    let g = steps.len();
    let label = match &events[start].label {
        Some(s) => s.clone(),
        None => step_name(g),
    };
    let duration_us = if n == 1 {
        0
    } else {
        micros_between(&events[n - 1].offset, &events[start].offset)
    };
    let outcome = outcome_for(&events[n - 1].result);
    steps.push(StepNode { id: g, label, duration_us, outcome });
    if g > 0 {
        edges.push((g - 1, g));
    }
    assert(edges@ =~= chain_edges(steps@.len() as int));
    AsyncStepGraph { steps, edges }
}

/// The fill colour DOT uses for an outcome.
pub open spec fn outcome_color(o: StepOutcome) -> Seq<char> {
    match o {
        StepOutcome::Completed => "green"@,
        StepOutcome::Pending => "yellow"@,
        StepOutcome::Cancelled => "red"@,
    }
}

/// The DOT line of a step.
pub open spec fn step_line(s: StepNode) -> Seq<char> {
    "    n"@ + decimal(s.id as nat) + " [label=\""@ + s.label@ + "\\n("@ + decimal(
        s.duration_us as nat,
    ) + "us)\" style=filled fillcolor="@ + outcome_color(s.outcome) + "];\n"@
}

/// `piece` stands in `text` from position `p` on.
pub open spec fn occurs_at(text: Seq<char>, piece: Seq<char>, p: int) -> bool {
    0 <= p && p + piece.len() <= text.len() && text.subrange(p, p + piece.len()) == piece
}

/// The DOT lines of the first steps come first among the DOT lines of all
/// the steps.
proof fn lemma_steps_text_prefix(steps: Seq<StepNode>, j: int)
    requires
        0 <= j <= steps.len(),
    ensures
        steps_text(steps.take(j)).is_prefix_of(steps_text(steps)),
    decreases steps.len(),
{
    if j == steps.len() {
        assert(steps.take(j) =~= steps);
    } else {
        lemma_steps_text_prefix(steps.drop_last(), j);
        assert(steps.drop_last().take(j) =~= steps.take(j));
    }
}

/// In the DOT text of a step graph, each step has its own line: it starts
/// with the step's node name `n<id>` and its label, and it ends with the
/// fill colour of the step's outcome: `fillcolor=green` for a completed
/// step, `fillcolor=yellow` for a pending one, `fillcolor=red` for a
/// cancelled one.
#[verifier::spinoff_prover]
pub proof fn lemma_dot_fill_colors(g: AsyncStepGraph, k: int)
    requires
        0 <= k < g.steps@.len(),
    ensures
        exists|p: int| #[trigger] occurs_at(dot_text(g), step_line(g.steps@[k]), p),
        ("    n"@ + decimal(g.steps@[k].id as nat) + " [label=\""@ + g.steps@[k].label@).is_prefix_of(
            step_line(g.steps@[k]),
        ),
        g.steps@[k].outcome == StepOutcome::Completed ==> "fillcolor=green];\n"@.is_suffix_of(
            step_line(g.steps@[k]),
        ),
        g.steps@[k].outcome == StepOutcome::Pending ==> "fillcolor=yellow];\n"@.is_suffix_of(
            step_line(g.steps@[k]),
        ),
        g.steps@[k].outcome == StepOutcome::Cancelled ==> "fillcolor=red];\n"@.is_suffix_of(
            step_line(g.steps@[k]),
        ),
{
    let steps = g.steps@;
    let s = steps[k];
    let header = "digraph async_trace {\n    rankdir=TB;\n    node [shape=box];\n\n"@;
    let before = steps_text(steps.take(k));
    let line = step_line(s);
    assert(steps.take(k + 1).drop_last() =~= steps.take(k));
    assert(steps_text(steps.take(k + 1)) == before + line);
    lemma_steps_text_prefix(steps, k + 1);
    let all = steps_text(steps);
    let text = dot_text(g);
    assert(text == header + all + ("\n"@ + edges_text(g.edges@) + "}\n"@));
    let p: int = (header.len() + before.len()) as int;
    assert(text.subrange(p, p + line.len() as int) =~= line) by {
        assert forall|x: int| 0 <= x < line.len() implies text[p + x] == line[x] by {
            assert(text[p + x] == all[before.len() + x]);
            assert(all[before.len() + x] == (before + line)[before.len() + x]);
        }
    }
    assert(occurs_at(text, line, p));
    lemma_step_line_ends(s);
}

/// A step's DOT line starts with its node name and label and ends with the
/// fill colour of its outcome.
#[verifier::spinoff_prover]
#[verifier::rlimit(30)]
proof fn lemma_step_line_ends(s: StepNode)
    ensures
        ("    n"@ + decimal(s.id as nat) + " [label=\""@ + s.label@).is_prefix_of(step_line(s)),
        s.outcome == StepOutcome::Completed ==> "fillcolor=green];\n"@.is_suffix_of(step_line(s)),
        s.outcome == StepOutcome::Pending ==> "fillcolor=yellow];\n"@.is_suffix_of(step_line(s)),
        s.outcome == StepOutcome::Cancelled ==> "fillcolor=red];\n"@.is_suffix_of(step_line(s)),
{
    let line = step_line(s);
    let head = "    n"@ + decimal(s.id as nat) + " [label=\""@ + s.label@;
    let mid = "\\n("@ + decimal(s.duration_us as nat) + "us)\" style=filled "@;
    reveal_strlit("us)\" style=filled fillcolor=");
    reveal_strlit("us)\" style=filled ");
    reveal_strlit("fillcolor=");
    reveal_strlit("fillcolor=green];\n");
    reveal_strlit("fillcolor=yellow];\n");
    reveal_strlit("fillcolor=red];\n");
    reveal_strlit("green");
    reveal_strlit("yellow");
    reveal_strlit("red");
    reveal_strlit("];\n");
    reveal_strlit("\\n(");
    assert("us)\" style=filled fillcolor="@ =~= "us)\" style=filled "@ + "fillcolor="@);
    assert(line =~= head + (mid + "fillcolor="@ + outcome_color(s.outcome) + "];\n"@));
    assert(head.is_prefix_of(line));
    if s.outcome == StepOutcome::Completed {
        assert("fillcolor="@ + outcome_color(s.outcome) + "];\n"@ =~= "fillcolor=green];\n"@);
        assert(line =~= (head + mid) + "fillcolor=green];\n"@);
    }
    if s.outcome == StepOutcome::Pending {
        assert("fillcolor="@ + outcome_color(s.outcome) + "];\n"@ =~= "fillcolor=yellow];\n"@);
        assert(line =~= (head + mid) + "fillcolor=yellow];\n"@);
    }
    if s.outcome == StepOutcome::Cancelled {
        assert("fillcolor="@ + outcome_color(s.outcome) + "];\n"@ =~= "fillcolor=red];\n"@);
        assert(line =~= (head + mid) + "fillcolor=red];\n"@);
    }
}

/// The DOT lines of steps, in order.
pub open spec fn steps_text(steps: Seq<StepNode>) -> Seq<char>
    decreases steps.len(),
{
    if steps.len() == 0 {
        Seq::empty()
    } else {
        steps_text(steps.drop_last()) + step_line(steps.last())
    }
}

/// The DOT line of an edge.
pub open spec fn edge_line(e: (usize, usize)) -> Seq<char> {
    "    n"@ + decimal(e.0 as nat) + " -> n"@ + decimal(e.1 as nat) + ";\n"@
}

/// The DOT lines of edges, in order.
pub open spec fn edges_text(edges: Seq<(usize, usize)>) -> Seq<char>
    decreases edges.len(),
{
    if edges.len() == 0 {
        Seq::empty()
    } else {
        edges_text(edges.drop_last()) + edge_line(edges.last())
    }
}

/// The Graphviz DOT rendering of a step graph.
pub open spec fn dot_text(g: AsyncStepGraph) -> Seq<char> {
    "digraph async_trace {\n    rankdir=TB;\n    node [shape=box];\n\n"@ + steps_text(g.steps@)
        + "\n"@ + edges_text(g.edges@) + "}\n"@
}

fn push_outcome_color(s: &mut String, o: &StepOutcome)
    ensures
        final(s)@ == old(s)@ + outcome_color(*o),
{
    match o {
        StepOutcome::Completed => s.append("green"),
        StepOutcome::Pending => s.append("yellow"),
        StepOutcome::Cancelled => s.append("red"),
    }
}

/// Render a step graph as a Graphviz DOT string: one boxed node per step,
/// filled by outcome (completed green, pending yellow, cancelled red), and
/// one arrow per edge.
pub fn to_dot(graph: &AsyncStepGraph) -> (out: String)
    ensures
        out@ == dot_text(*graph),
{
    let mut out = String::new();
    out.append("digraph async_trace {\n    rankdir=TB;\n    node [shape=box];\n\n");
    let ghost header = out@;
    let mut i: usize = 0;
    while i < graph.steps.len()
        invariant
            i <= graph.steps@.len(),
            out@ == header + steps_text(graph.steps@.take(i as int)),
        decreases graph.steps@.len() - i,
    {
        let step = &graph.steps[i];
        let ghost before = out@;
        out.append("    n");
        push_decimal(&mut out, step.id as u64);
        out.append(" [label=\"");
        out.append(step.label.as_str());
        out.append("\\n(");
        push_decimal(&mut out, step.duration_us);
        out.append("us)\" style=filled fillcolor=");
        push_outcome_color(&mut out, &step.outcome);
        out.append("];\n");
        proof {
            assert(graph.steps@.take(i + 1).drop_last() =~= graph.steps@.take(i as int));
            assert(out@ =~= before + step_line(*step));
        }
        i = i + 1;
    }
    assert(graph.steps@.take(graph.steps@.len() as int) =~= graph.steps@);
    out.append("\n");
    let ghost middle = out@;
    let mut j: usize = 0;
    while j < graph.edges.len()
        invariant
            j <= graph.edges@.len(),
            out@ == middle + edges_text(graph.edges@.take(j as int)),
        decreases graph.edges@.len() - j,
    {
        let (from, to) = graph.edges[j];
        let ghost before = out@;
        out.append("    n");
        push_decimal(&mut out, from as u64);
        out.append(" -> n");
        push_decimal(&mut out, to as u64);
        out.append(";\n");
        proof {
            assert(graph.edges@.take(j + 1).drop_last() =~= graph.edges@.take(j as int));
            assert(out@ =~= before + edge_line((from, to)));
        }
        j = j + 1;
    }
    assert(graph.edges@.take(graph.edges@.len() as int) =~= graph.edges@);
    out.append("}\n");
    assert(out@ =~= dot_text(*graph));
    out
}

/// An instant of the monotonic clock (`std::time::Instant`).
#[verifier::external_type_specification]
#[verifier::external_body]
pub struct ExInstant(Instant);

/// `Instant` is `Copy`: its clone is the value itself.
pub assume_specification[ <Instant as Clone>::clone ](i: &Instant) -> (r: Instant)
    ensures
        r == *i,
;

/// `Instant::now` reads the clock; nothing is stated of the result.
pub assume_specification[ Instant::now ]() -> Instant;

/// What `Instant::saturating_duration_since` returns for its arguments.
pub uninterp spec fn instant_duration_since(at: Instant, earlier: Instant) -> Duration;

/// `Instant::saturating_duration_since`: the time from `earlier` to `at`, or
/// zero when `earlier` is later. The result is named, not stated: neither an
/// `Instant`'s nor a `Duration`'s value is visible to contracts.
#[verifier::external_body]
fn duration_since(at: &Instant, earlier: &Instant) -> (r: Duration)
    ensures
        r == instant_duration_since(*at, *earlier),
{
    at.saturating_duration_since(*earlier)
}

/// Collected trace: the recorded events plus the instant their offsets are
/// measured from.
#[derive(Debug, Clone)]
pub struct Trace {
    /// All poll events in order.
    pub events: Vec<PollEvent>,
    /// Reference instant against which each event's `offset` was measured.
    pub start: Instant,
}

impl Trace {
    /// Every event's `step` is its index in the trace.
    pub open spec fn steps_indexed(&self) -> bool {
        forall|i: int| 0 <= i < self.events@.len() ==> #[trigger] self.events@[i].step == i
    }

    /// Construct an empty trace anchored at the current instant.
    pub fn new() -> (t: Self)
        ensures
            t.events@.len() == 0,
            t.steps_indexed(),
    {
        Trace { events: Vec::new(), start: Instant::now() }
    }

    /// A fresh empty trace behind a shared mutex.
    pub fn shared() -> Arc<Mutex<Trace>> {
        Arc::new(Mutex::new(Trace::new()))
    }

    /// Append an event with the given result and label; its `step` is its
    /// index and its offset is the time from `start` to the instant the
    /// clock was read. That instant is not stated, so neither is that the
    /// offsets of a trace never decrease.
    pub fn push(&mut self, result: PollResult, label: Option<String>)
        ensures
            final(self).start == old(self).start,
            exists|now: Instant|
                final(self).events@.last().offset == #[trigger] instant_duration_since(
                    now,
                    old(self).start,
                ),
            final(self).events@.len() == old(self).events@.len() + 1,
            final(self).events@.drop_last() == old(self).events@,
            final(self).events@.last().step == old(self).events@.len(),
            final(self).events@.last().result == result,
            final(self).events@.last().label == label,
            old(self).steps_indexed() ==> final(self).steps_indexed(),
    {
        let step = self.events.len();
        let now = Instant::now();
        let offset = duration_since(&now, &self.start);
        self.events.push(PollEvent { step, offset, result, label });
        assert(self.events@.drop_last() =~= old(self).events@);
    }
}

impl Default for Trace {
    fn default() -> (t: Self)
        ensures
            t.events@.len() == 0,
    {
        Trace::new()
    }
}

fn clone_label(l: &Option<String>) -> (r: Option<String>)
    ensures
        match r {
            Some(s) => Some(s@),
            None => None::<Seq<char>>,
        } == match *l {
            Some(s) => Some(s@),
            None => None::<Seq<char>>,
        },
{
    match l {
        Some(s) => Some(s.clone()),
        None => None,
    }
}

/// The bookkeeping of a traced future apart from the future itself: the
/// label it records under, whether it has completed, and whether its own
/// last poll returned `Pending`.
pub struct PollRecorder {
    /// The label each recorded event carries.
    pub label: Option<String>,
    /// Whether a poll has returned `Ready`.
    pub completed: bool,
    /// Whether this future's last poll returned `Pending`.
    pub last_pending: bool,
}

impl PollRecorder {
    /// A recorder for a future that has not been polled yet.
    pub fn new(label: Option<String>) -> (r: Self)
        ensures
            r.label == label,
            !r.completed,
            !r.last_pending,
    {
        PollRecorder { label, completed: false, last_pending: false }
    }

    /// Record one poll: a `Ready` or `Pending` event under this recorder's
    /// label, at the next step index; a `Ready` poll marks the future
    /// completed.
    pub fn on_poll(&mut self, trace: &mut Trace, ready: bool)
        ensures
            final(self).label == old(self).label,
            final(self).completed == (old(self).completed || ready),
            final(self).last_pending == !ready,
            final(trace).start == old(trace).start,
            final(trace).events@.len() == old(trace).events@.len() + 1,
            final(trace).events@.drop_last() == old(trace).events@,
            final(trace).events@.last().step == old(trace).events@.len(),
            final(trace).events@.last().result == (if ready {
                PollResult::Ready
            } else {
                PollResult::Pending
            }),
            label_of(final(trace).events@.last()) == match old(self).label {
                Some(s) => Some(s@),
                None => None::<Seq<char>>,
            },
            old(trace).steps_indexed() ==> final(trace).steps_indexed(),
    {
        let result = if ready {
            PollResult::Ready
        } else {
            PollResult::Pending
        };
        if ready {
            self.completed = true;
        }
        self.last_pending = !ready;
        let label = clone_label(&self.label);
        trace.push(result, label);
    }

    /// Record the drop of the future: when it never completed and its own
    /// last poll returned `Pending`, a final `Cancelled` event under this
    /// recorder's label; otherwise nothing. Events other futures pushed to
    /// the shared trace in between do not matter.
    pub fn on_drop(&self, trace: &mut Trace)
        ensures
            final(trace).start == old(trace).start,
            if !self.completed && self.last_pending {
                &&& final(trace).events@.len() == old(trace).events@.len() + 1
                &&& final(trace).events@.drop_last() == old(trace).events@
                &&& final(trace).events@.last().step == old(trace).events@.len()
                &&& final(trace).events@.last().result == PollResult::Cancelled
                &&& label_of(final(trace).events@.last()) == match self.label {
                    Some(s) => Some(s@),
                    None => None::<Seq<char>>,
                }
            } else {
                final(trace).events@ == old(trace).events@
            },
            old(trace).steps_indexed() ==> final(trace).steps_indexed(),
    {
        if !self.completed && self.last_pending {
            let label = clone_label(&self.label);
            trace.push(PollResult::Cancelled, label);
        }
    }
}

} // verus!
