//! The styled lines of the full-screen detail views: an activity, a child
//! workflow, a history event and an insight finding. The same lines are
//! searched, so building them is kept apart from drawing them.

use vstd::prelude::*;
use crate::activity::ActivityExecution;
use crate::child::ChildWorkflowExecution;
use crate::clock::{rfc3339_of, rfc3339_text};
use crate::insights::InsightFinding;
use crate::json::JsonValue;
use crate::json_lines::{
    copy_line, covered, cover_marks, json_to_lines, line_view, lines_view, lit, push_line, push_span, regroup, regroup_exec, render, Line,
    Span, SpanStyle,
};
use crate::model::{FailureInfo, HistoryEvent};
use crate::status::{
    activity_short_text, category_text, child_short_text, severity_text, ActivityStatus, ChildWorkflowStatus, Color,
    InsightSeverity,
};
use crate::text::{
    chars_of, contains, contains_seq, dec, idec, lines_of, lower_chars, lower_of, push_dec, push_idec, push_str,
    split_lines, string_of, views,
};
use crate::widgets::{duration_text, format_duration, title_cut, truncate_title};

verus! {

/// A line as text and style pairs.
pub type LineV = Seq<(Seq<char>, SpanStyle)>;

/// The pieces of a line as text and style pairs.
pub open spec fn spans_view(v: Seq<Span>) -> LineV {
    v.map_values(|s: Span| (s.text@, s.style))
}

/// A label in bold cyan.
pub open spec fn label(t: Seq<char>) -> (Seq<char>, SpanStyle) {
    (t, SpanStyle::Bold(Color::Cyan))
}

/// A heading line of one bold piece.
pub open spec fn heading(t: Seq<char>, c: Color) -> LineV {
    seq![(t, SpanStyle::Bold(c))]
}

/// A line of a dimmed name and a plain value.
pub open spec fn dim_pair(name: Seq<char>, value: Seq<char>) -> LineV {
    seq![(name, SpanStyle::Fg(Color::DarkGray)), (value, SpanStyle::Plain)]
}

/// A time line when there is a time.
pub open spec fn time_line(name: Seq<char>, t: Option<i64>) -> Seq<LineV> {
    match t {
        Some(v) => seq![dim_pair(name, rfc3339_text(v))],
        None => Seq::empty(),
    }
}

/// A duration line when there is a duration.
pub open spec fn duration_line(name: Seq<char>, d: Option<i64>) -> Seq<LineV> {
    match d {
        Some(v) => seq![dim_pair(name, duration_text(v as int))],
        None => Seq::empty(),
    }
}

/// A titled JSON section when there is a value.
pub open spec fn json_section(title: Seq<char>, c: Color, v: Option<JsonValue>) -> Seq<LineV> {
    match v {
        Some(j) => seq![Seq::empty(), heading(title, c)] + render(j, Seq::empty(), false),
        None => Seq::empty(),
    }
}

/// The lines of a stack trace, indented and dimmed.
pub open spec fn trace_lines(t: Seq<char>) -> Seq<LineV> {
    lines_of(t).map_values(|l: Seq<char>| seq![("  "@ + l, SpanStyle::Fg(Color::DarkGray))])
}

/// The failure section: type, message and, when there is one, the trace.
pub open spec fn failure_section(f: Option<FailureInfo>) -> Seq<LineV> {
    match f {
        Some(fi) => seq![
            Seq::empty(),
            heading("Failure:"@, Color::Red),
            seq![("  Type:    "@, SpanStyle::Fg(Color::DarkGray)), (fi.failure_type@, SpanStyle::Fg(Color::Red))],
            dim_pair("  Message: "@, fi.message@),
        ] + match fi.stack_trace {
            Some(t) => seq![Seq::empty(), heading("Stack Trace:"@, Color::Red)] + trace_lines(t@),
            None => Seq::empty(),
        },
        None => Seq::empty(),
    }
}

/// Display colour of an activity status.
pub open spec fn activity_color(s: ActivityStatus) -> Color {
    match s {
        ActivityStatus::Scheduled => Color::DarkGray,
        ActivityStatus::Running => Color::Blue,
        ActivityStatus::Completed => Color::Green,
        ActivityStatus::Failed => Color::Red,
        ActivityStatus::TimedOut => Color::LightRed,
        ActivityStatus::Canceled => Color::Yellow,
    }
}

/// Display colour of a child workflow status.
pub open spec fn child_color(s: ChildWorkflowStatus) -> Color {
    match s {
        ChildWorkflowStatus::Initiated => Color::DarkGray,
        ChildWorkflowStatus::Started => Color::Blue,
        ChildWorkflowStatus::Completed => Color::Green,
        ChildWorkflowStatus::Failed => Color::Red,
        ChildWorkflowStatus::TimedOut => Color::LightRed,
        ChildWorkflowStatus::Canceled => Color::Yellow,
        ChildWorkflowStatus::Terminated => Color::Magenta,
        ChildWorkflowStatus::StartFailed => Color::Red,
    }
}

/// Display colour of a severity.
pub open spec fn severity_color(s: InsightSeverity) -> Color {
    match s {
        InsightSeverity::Info => Color::Cyan,
        InsightSeverity::Warning => Color::Yellow,
        InsightSeverity::Critical => Color::Red,
    }
}

/// The header of an activity's detail view: type, id, status, and the
/// attempt and queue where known.
pub open spec fn activity_head(a: ActivityExecution) -> Seq<LineV> {
    seq![
        seq![label("Type:   "@), (a.activity_type@, SpanStyle::BrightBold)],
        seq![label("ID:     "@), (a.activity_id@, SpanStyle::Bright)],
        seq![label("Status: "@), (activity_short_text(a.status), SpanStyle::Bold(activity_color(a.status)))],
    ] + (if a.attempt > 0 {
        seq![seq![label("Attempt:"@), (" "@ + idec(a.attempt as int), SpanStyle::Plain)]]
    } else {
        Seq::empty()
    }) + match a.task_queue {
        Some(q) => seq![seq![label("Queue:  "@), (q@, SpanStyle::Plain)]],
        None => Seq::empty(),
    }
}

/// The timestamps section of an activity's detail view.
pub open spec fn activity_times(a: ActivityExecution) -> Seq<LineV> {
    seq![
        Seq::empty(),
        heading("Timestamps:"@, Color::Cyan),
        dim_pair("  Scheduled: "@, rfc3339_text(a.scheduled_time)),
    ] + time_line("  Started:   "@, a.started_time) + time_line("  Closed:    "@, a.closed_time)
}

/// The durations section of an activity's detail view, when any is known.
pub open spec fn activity_durations(a: ActivityExecution) -> Seq<LineV> {
    if a.queue_wait is Some || a.execution_time is Some || a.total_time is Some {
        seq![Seq::empty(), heading("Durations:"@, Color::Cyan)] + duration_line("  Queue Wait: "@, a.queue_wait)
            + duration_line("  Execution:  "@, a.execution_time) + duration_line("  Total:      "@, a.total_time)
    } else {
        Seq::empty()
    }
}

/// The lines of an activity's detail view: header, timestamps, durations,
/// input, output and failure.
pub open spec fn activity_lines_view(a: ActivityExecution) -> Seq<LineV> {
    activity_head(a) + activity_times(a) + activity_durations(a) + json_section("Input:"@, Color::Cyan, a.input)
        + json_section("Output:"@, Color::Green, a.output) + failure_section(a.failure)
}

/// The header of a child workflow's detail view: type, id, status, and
/// the run and namespace where known.
pub open spec fn child_head(c: ChildWorkflowExecution) -> Seq<LineV> {
    seq![
        seq![label("Type:        "@), (c.workflow_type@, SpanStyle::BrightBold)],
        seq![label("Workflow ID: "@), (c.workflow_id@, SpanStyle::Bright)],
        seq![label("Status:      "@), (child_short_text(c.status), SpanStyle::Bold(child_color(c.status)))],
    ] + match c.run_id {
        Some(r) => seq![seq![label("Run ID:      "@), (r@, SpanStyle::Plain)]],
        None => Seq::empty(),
    } + match c.namespace {
        Some(n) => seq![seq![label("Namespace:   "@), (n@, SpanStyle::Plain)]],
        None => Seq::empty(),
    }
}

/// The timestamps section of a child workflow's detail view.
pub open spec fn child_times(c: ChildWorkflowExecution) -> Seq<LineV> {
    seq![
        Seq::empty(),
        heading("Timestamps:"@, Color::Cyan),
        dim_pair("  Initiated: "@, rfc3339_text(c.initiated_time)),
    ] + time_line("  Started:   "@, c.started_time) + time_line("  Closed:    "@, c.closed_time)
}

/// The durations section of a child workflow's detail view, when any is
/// known.
pub open spec fn child_durations(c: ChildWorkflowExecution) -> Seq<LineV> {
    if c.start_latency is Some || c.execution_time is Some || c.total_time is Some {
        seq![Seq::empty(), heading("Durations:"@, Color::Cyan)] + duration_line("  Start Latency: "@, c.start_latency)
            + duration_line("  Execution:     "@, c.execution_time) + duration_line("  Total:         "@, c.total_time)
    } else {
        Seq::empty()
    }
}

/// The lines of a child workflow's detail view.
pub open spec fn child_lines_view(c: ChildWorkflowExecution) -> Seq<LineV> {
    child_head(c) + child_times(c) + child_durations(c) + failure_section(c.failure)
}

/// The colour of an event type: activities cyan, child workflows magenta,
/// timers and signals yellow, workflow execution events green, workflow
/// tasks grey, anything else white.
pub open spec fn event_color_of(t: Seq<char>) -> Color {
    if contains_seq(t, "Activity"@) {
        Color::Cyan
    } else if contains_seq(t, "ChildWorkflow"@) {
        Color::Magenta
    } else if contains_seq(t, "Timer"@) || contains_seq(t, "Signal"@) {
        Color::Yellow
    } else if contains_seq(t, "WorkflowExecution"@) {
        Color::Green
    } else if contains_seq(t, "WorkflowTask"@) {
        Color::DarkGray
    } else {
        Color::White
    }
}

/// The lines of a history event's detail view: number and type, time, and
/// the event's details as JSON.
pub open spec fn event_lines_view(e: HistoryEvent) -> Seq<LineV> {
    seq![
        seq![label("Event: "@), ("#"@ + idec(e.event_id as int), SpanStyle::BrightBold), ("  "@, SpanStyle::Plain),
            (e.event_type@, SpanStyle::Bold(event_color_of(e.event_type@)))],
        seq![label("Time:  "@), (rfc3339_text(e.timestamp), SpanStyle::Fg(Color::DarkGray))],
        Seq::empty(),
        heading("Details:"@, Color::Cyan),
    ] + render(e.details, Seq::empty(), false)
}

/// Position `i` of the lower-cased text lies within a match of one of the
/// terms of two or more characters.
pub open spec fn term_covers(low: Seq<char>, terms: Seq<Seq<char>>, i: int) -> bool {
    exists|k: int| 0 <= k < terms.len() && terms[k].len() >= 2 && #[trigger] covered(low, lower_of(terms[k]), i)
}

/// The characters of a text with its normal style, marked with whether a
/// term covers them.
pub open spec fn term_marks(t: Seq<char>, terms: Seq<Seq<char>>, normal: SpanStyle) -> Seq<(char, SpanStyle, bool)> {
    let low = lower_of(t);
    Seq::new(t.len(), |i: int| (t[i], normal, term_covers(low, terms, i)))
}

/// The pieces of a text with the matches of the terms (ignoring case, terms
/// of two or more characters) in the highlight style and the rest in the
/// normal style; overlapping and touching matches form one piece. A text
/// without matches is one piece.
pub open spec fn trigger_spans(t: Seq<char>, terms: Seq<Seq<char>>, normal: SpanStyle, hl: SpanStyle) -> LineV {
    let m = term_marks(t, terms, SpanStyle::Plain);
    if exists|i: int| 0 <= i < m.len() && (#[trigger] m[i]).2 {
        regroup(m).map_values(
            |p: (Seq<char>, SpanStyle)| if p.1 == SpanStyle::Highlight { (p.0, hl) } else { (p.0, normal) },
        )
    } else {
        seq![(t, normal)]
    }
}

/// The affected-entity line of entry `i`: the selected one marked and
/// reversed, the others with a bullet.
pub open spec fn entity_line(e: Seq<char>, i: int, selected: Option<usize>, c: Color) -> LineV {
    let text = dec((i + 1) as nat) + ". "@ + e;
    if selected == Some(i as usize) {
        seq![(" \u{25B6} "@, SpanStyle::Bold(c)), (text, SpanStyle::Reversed)]
    } else {
        seq![(" \u{25CF} "@, SpanStyle::Fg(c)), (text, SpanStyle::Plain)]
    }
}

/// The first lines of an insight finding's detail view: severity and
/// category, then the title with the trigger terms highlighted.
pub open spec fn insight_head(f: InsightFinding, terms: Seq<Seq<char>>) -> Seq<LineV> {
    let c = severity_color(f.severity);
    seq![
        seq![("Severity: "@, SpanStyle::Emph), (" "@ + severity_text(f.severity) + " "@, SpanStyle::Badge(c)),
            ("    "@, SpanStyle::Plain), ("Category: "@, SpanStyle::Emph), (category_text(f.category), SpanStyle::Plain)],
        Seq::empty(),
        seq![label("Finding: "@)] + trigger_spans(f.title@, terms, SpanStyle::Bold(c), SpanStyle::Badge(c)),
        Seq::empty(),
    ]
}

/// The detail section of an insight finding, line by line with the trigger
/// terms highlighted, when there is a detail text.
pub open spec fn insight_detail_section(f: InsightFinding, terms: Seq<Seq<char>>) -> Seq<LineV> {
    let c = severity_color(f.severity);
    if f.detail@.len() > 0 {
        seq![heading("Detail:"@, Color::Cyan)] + lines_of(f.detail@).map_values(
            |l: Seq<char>| trigger_spans(l, terms, SpanStyle::Bright, SpanStyle::Badge(c)),
        ) + seq![Seq::empty()]
    } else {
        Seq::empty()
    }
}

/// The affected-entities section of an insight finding, when there are
/// any: a header with their number, then one numbered line each.
pub open spec fn insight_entities(f: InsightFinding, selected: Option<usize>) -> Seq<LineV> {
    let c = severity_color(f.severity);
    let n = f.affected_entities@.len();
    if n > 0 {
        seq![seq![label("Affected Entities "@), ("("@ + dec(n) + ")"@, SpanStyle::Bold(c)), label(":"@),
            (if selected is Some { " (n/p to navigate, Enter to view)"@ } else { ""@ }, SpanStyle::Fg(Color::DarkGray))]]
            + Seq::new(n, |i: int| entity_line(f.affected_entities@[i]@, i, selected, c))
    } else {
        Seq::empty()
    }
}

/// The lines of an insight finding's detail view: severity and category,
/// the title and detail with the trigger terms highlighted, and the
/// numbered affected entities.
pub open spec fn insight_lines_view(f: InsightFinding, selected: Option<usize>, terms: Seq<Seq<char>>) -> Seq<LineV> {
    insight_head(f, terms) + insight_detail_section(f, terms) + insight_entities(f, selected)
}

/// The texts of the terms.
pub open spec fn term_texts(terms: Seq<String>) -> Seq<Seq<char>> {
    terms.map_values(|s: String| s@)
}

/// A piece holding a string.
fn piece_of(text: String, style: SpanStyle) -> (r: Span)
    ensures
        r.text@ == text@,
        r.style == style,
{
    Span { text, style }
}

/// Appends a line of the given pieces.
fn push_pieces(lines: &mut Vec<Line>, pieces: Vec<Span>)
    ensures
        lines_view(final(lines)@) == lines_view(old(lines)@).push(spans_view(pieces@)),
{
    push_line(lines, pieces);
}

/// A line of two pieces.
fn pair(a: Span, b: Span) -> (r: Vec<Span>)
    ensures
        spans_view(r@) == seq![(a.text@, a.style), (b.text@, b.style)],
{
    let mut r: Vec<Span> = Vec::new();
    push_span(&mut r, a);
    push_span(&mut r, b);
    assert(spans_view(r@) =~= seq![(a.text@, a.style), (b.text@, b.style)]);
    r
}

/// A line of one piece.
fn single(a: Span) -> (r: Vec<Span>)
    ensures
        spans_view(r@) == seq![(a.text@, a.style)],
{
    let mut r: Vec<Span> = Vec::new();
    push_span(&mut r, a);
    assert(spans_view(r@) =~= seq![(a.text@, a.style)]);
    r
}

/// Appends an empty line.
fn push_blank(lines: &mut Vec<Line>)
    ensures
        lines_view(final(lines)@) == lines_view(old(lines)@).push(Seq::empty()),
{
    let r: Vec<Span> = Vec::new();
    assert(spans_view(r@) =~= Seq::empty());
    push_pieces(lines, r);
}

/// Appends a heading line.
fn push_heading(lines: &mut Vec<Line>, t: &str, c: Color)
    ensures
        lines_view(final(lines)@) == lines_view(old(lines)@).push(heading(t@, c)),
{
    push_pieces(lines, single(lit(t, SpanStyle::Bold(c))));
}

/// Appends a dimmed name with a plain value.
fn push_dim_pair(lines: &mut Vec<Line>, name: &str, value: String)
    ensures
        lines_view(final(lines)@) == lines_view(old(lines)@).push(dim_pair(name@, value@)),
{
    push_pieces(lines, pair(lit(name, SpanStyle::Fg(Color::DarkGray)), piece_of(value, SpanStyle::Plain)));
}

/// Appends the given lines.
fn extend_lines(lines: &mut Vec<Line>, more: Vec<Line>)
    ensures
        lines_view(final(lines)@) == lines_view(old(lines)@) + lines_view(more@),
{
    let ghost start = lines_view(lines@);
    let ghost all = lines_view(more@);
    let mut i: usize = 0;
    while i < more.len()
        invariant
            all == lines_view(more@),
            i <= more@.len(),
            lines_view(lines@) == start + all.take(i as int),
        decreases more.len() - i,
    {
        let l = copy_line(&more[i]);
        let ghost before = lines@;
        lines.push(l);
        assert(lines_view(lines@) =~= lines_view(before).push(line_view(l)));
        assert(all.take(i + 1) =~= all.take(i as int).push(all[i as int]));
        i = i + 1;
    }
    assert(all.take(more@.len() as int) =~= all);
}

/// Appends a time line when there is a time.
fn push_time(lines: &mut Vec<Line>, name: &str, t: Option<i64>)
    ensures
        lines_view(final(lines)@) == lines_view(old(lines)@) + time_line(name@, t),
{
    let ghost before = lines_view(lines@);
    match t {
        Some(v) => push_dim_pair(lines, name, rfc3339_of(v)),
        None => {},
    }
    assert(lines_view(lines@) =~= before + time_line(name@, t));
}

/// Appends a duration line when there is a duration.
fn push_duration(lines: &mut Vec<Line>, name: &str, d: Option<i64>)
    ensures
        lines_view(final(lines)@) == lines_view(old(lines)@) + duration_line(name@, d),
{
    let ghost before = lines_view(lines@);
    match d {
        Some(v) => push_dim_pair(lines, name, format_duration(v)),
        None => {},
    }
    assert(lines_view(lines@) =~= before + duration_line(name@, d));
}

/// Appends a titled JSON section when there is a value.
fn push_json_section(lines: &mut Vec<Line>, title: &str, c: Color, v: &Option<JsonValue>)
    ensures
        lines_view(final(lines)@) == lines_view(old(lines)@) + json_section(title@, c, *v),
{
    let ghost before = lines_view(lines@);
    match v {
        Some(j) => {
            push_blank(lines);
            push_heading(lines, title, c);
            let jl = json_to_lines(j);
            extend_lines(lines, jl);
        },
        None => {},
    }
    assert(lines_view(lines@) =~= before + json_section(title@, c, *v));
}

/// Appends the failure section when there is a failure.
fn push_failure(lines: &mut Vec<Line>, f: &Option<FailureInfo>)
    ensures
        lines_view(final(lines)@) == lines_view(old(lines)@) + failure_section(*f),
{
    let ghost before = lines_view(lines@);
    match f {
        Some(fi) => {
            push_blank(lines);
            push_heading(lines, "Failure:", Color::Red);
            push_pieces(lines, pair(lit("  Type:    ", SpanStyle::Fg(Color::DarkGray)),
                piece_of(fi.failure_type.clone(), SpanStyle::Fg(Color::Red))));
            push_dim_pair(lines, "  Message: ", fi.message.clone());
            let ghost mid = lines_view(lines@);
            match &fi.stack_trace {
                Some(t) => {
                    push_blank(lines);
                    push_heading(lines, "Stack Trace:", Color::Red);
                    let ghost head = lines_view(lines@);
                    let tl = split_lines(&chars_of(t.as_str()));
                    let ghost tv = trace_lines(t@);
                    assert(views(tl@) == lines_of(t@));
                    let mut i: usize = 0;
                    while i < tl.len()
                        invariant
                            views(tl@) == lines_of(t@),
                            tv == trace_lines(t@),
                            i <= tl@.len(),
                            lines_view(lines@) == head + tv.take(i as int),
                        decreases tl.len() - i,
                    {
                        let mut text: Vec<char> = Vec::new();
                        push_str(&mut text, "  ");
                        crate::text::push_chars(&mut text, &tl[i]);
                        assert(views(tl@)[i as int] == tl@[i as int]@);
                        push_pieces(lines, single(piece_of(string_of(&text), SpanStyle::Fg(Color::DarkGray))));
                        assert(tv.take(i + 1) =~= tv.take(i as int).push(tv[i as int]));
                        i = i + 1;
                    }
                    assert(tv.take(tl@.len() as int) =~= tv);
                },
                None => {},
            }
            assert(lines_view(lines@) =~= before + failure_section(*f));
        },
        None => {
            assert(lines_view(lines@) =~= before + failure_section(*f));
        },
    }
}

/// The header lines of an activity.
fn activity_head_lines(a: &ActivityExecution) -> (r: Vec<Line>)
    ensures
        lines_view(r@) == activity_head(*a),
{
    let mut lines: Vec<Line> = Vec::new();
    push_pieces(&mut lines, pair(lit("Type:   ", SpanStyle::Bold(Color::Cyan)),
        piece_of(a.activity_type.clone(), SpanStyle::BrightBold)));
    push_pieces(&mut lines, pair(lit("ID:     ", SpanStyle::Bold(Color::Cyan)),
        piece_of(a.activity_id.clone(), SpanStyle::Bright)));
    push_pieces(&mut lines, pair(lit("Status: ", SpanStyle::Bold(Color::Cyan)),
        lit(a.status.short_name(), SpanStyle::Bold(a.status.color()))));
    let ghost s1 = lines_view(lines@);
    if a.attempt > 0 {
        let mut t: Vec<char> = Vec::new();
        push_str(&mut t, " ");
        push_idec(&mut t, a.attempt as i64);
        push_pieces(&mut lines, pair(lit("Attempt:", SpanStyle::Bold(Color::Cyan)), piece_of(string_of(&t), SpanStyle::Plain)));
    }
    let ghost s2 = lines_view(lines@);
    match &a.task_queue {
        Some(q) => push_pieces(&mut lines, pair(lit("Queue:  ", SpanStyle::Bold(Color::Cyan)),
            piece_of(q.clone(), SpanStyle::Plain))),
        None => {},
    }
    assert(lines_view(lines@) =~= activity_head(*a));
    lines
}

/// Appends the timestamps of an activity.
fn push_activity_times(lines: &mut Vec<Line>, a: &ActivityExecution)
    ensures
        lines_view(final(lines)@) == lines_view(old(lines)@) + activity_times(*a),
{
    let ghost before = lines_view(lines@);
    push_blank(lines);
    push_heading(lines, "Timestamps:", Color::Cyan);
    push_dim_pair(lines, "  Scheduled: ", rfc3339_of(a.scheduled_time));
    let ghost mid = lines_view(lines@);
    push_time(lines, "  Started:   ", a.started_time);
    push_time(lines, "  Closed:    ", a.closed_time);
    assert(lines_view(lines@) =~= before + activity_times(*a));
}

/// Appends the durations of an activity, when any is known.
fn push_activity_durations(lines: &mut Vec<Line>, a: &ActivityExecution)
    ensures
        lines_view(final(lines)@) == lines_view(old(lines)@) + activity_durations(*a),
{
    let ghost before = lines_view(lines@);
    if a.queue_wait.is_some() || a.execution_time.is_some() || a.total_time.is_some() {
        push_blank(lines);
        push_heading(lines, "Durations:", Color::Cyan);
        let ghost mid = lines_view(lines@);
        push_duration(lines, "  Queue Wait: ", a.queue_wait);
        push_duration(lines, "  Execution:  ", a.execution_time);
        push_duration(lines, "  Total:      ", a.total_time);
    }
    assert(lines_view(lines@) =~= before + activity_durations(*a));
}

/// The lines of an activity's detail view.
pub fn activity_lines(a: &ActivityExecution) -> (r: Vec<Line>)
    ensures
        lines_view(r@) == activity_lines_view(*a),
{
    let mut lines = activity_head_lines(a);
    push_activity_times(&mut lines, a);
    push_activity_durations(&mut lines, a);
    push_json_section(&mut lines, "Input:", Color::Cyan, &a.input);
    push_json_section(&mut lines, "Output:", Color::Green, &a.output);
    push_failure(&mut lines, &a.failure);
    lines
}

/// The header lines of a child workflow.
fn child_head_lines(c: &ChildWorkflowExecution) -> (r: Vec<Line>)
    ensures
        lines_view(r@) == child_head(*c),
{
    let mut lines: Vec<Line> = Vec::new();
    push_pieces(&mut lines, pair(lit("Type:        ", SpanStyle::Bold(Color::Cyan)),
        piece_of(c.workflow_type.clone(), SpanStyle::BrightBold)));
    push_pieces(&mut lines, pair(lit("Workflow ID: ", SpanStyle::Bold(Color::Cyan)),
        piece_of(c.workflow_id.clone(), SpanStyle::Bright)));
    push_pieces(&mut lines, pair(lit("Status:      ", SpanStyle::Bold(Color::Cyan)),
        lit(c.status.short_name(), SpanStyle::Bold(c.status.color()))));
    let ghost s1 = lines_view(lines@);
    match &c.run_id {
        Some(r) => push_pieces(&mut lines, pair(lit("Run ID:      ", SpanStyle::Bold(Color::Cyan)),
            piece_of(r.clone(), SpanStyle::Plain))),
        None => {},
    }
    let ghost s2 = lines_view(lines@);
    match &c.namespace {
        Some(n) => push_pieces(&mut lines, pair(lit("Namespace:   ", SpanStyle::Bold(Color::Cyan)),
            piece_of(n.clone(), SpanStyle::Plain))),
        None => {},
    }
    assert(lines_view(lines@) =~= child_head(*c));
    lines
}

/// Appends the timestamps of a child workflow.
fn push_child_times(lines: &mut Vec<Line>, c: &ChildWorkflowExecution)
    ensures
        lines_view(final(lines)@) == lines_view(old(lines)@) + child_times(*c),
{
    let ghost before = lines_view(lines@);
    push_blank(lines);
    push_heading(lines, "Timestamps:", Color::Cyan);
    push_dim_pair(lines, "  Initiated: ", rfc3339_of(c.initiated_time));
    let ghost mid = lines_view(lines@);
    push_time(lines, "  Started:   ", c.started_time);
    push_time(lines, "  Closed:    ", c.closed_time);
    assert(lines_view(lines@) =~= before + child_times(*c));
}

/// Appends the durations of a child workflow, when any is known.
fn push_child_durations(lines: &mut Vec<Line>, c: &ChildWorkflowExecution)
    ensures
        lines_view(final(lines)@) == lines_view(old(lines)@) + child_durations(*c),
{
    let ghost before = lines_view(lines@);
    if c.start_latency.is_some() || c.execution_time.is_some() || c.total_time.is_some() {
        push_blank(lines);
        push_heading(lines, "Durations:", Color::Cyan);
        let ghost mid = lines_view(lines@);
        push_duration(lines, "  Start Latency: ", c.start_latency);
        push_duration(lines, "  Execution:     ", c.execution_time);
        push_duration(lines, "  Total:         ", c.total_time);
    }
    assert(lines_view(lines@) =~= before + child_durations(*c));
}

/// The lines of a child workflow's detail view.
pub fn child_lines(c: &ChildWorkflowExecution) -> (r: Vec<Line>)
    ensures
        lines_view(r@) == child_lines_view(*c),
{
    let mut lines = child_head_lines(c);
    push_child_times(&mut lines, c);
    push_child_durations(&mut lines, c);
    push_failure(&mut lines, &c.failure);
    lines
}

/// The colour of an event type.
pub fn event_color(event_type: &str) -> (c: Color)
    ensures
        c == event_color_of(event_type@),
{
    let t = chars_of(event_type);
    if contains(&t, &chars_of("Activity")) {
        Color::Cyan
    } else if contains(&t, &chars_of("ChildWorkflow")) {
        Color::Magenta
    } else if contains(&t, &chars_of("Timer")) || contains(&t, &chars_of("Signal")) {
        Color::Yellow
    } else if contains(&t, &chars_of("WorkflowExecution")) {
        Color::Green
    } else if contains(&t, &chars_of("WorkflowTask")) {
        Color::DarkGray
    } else {
        Color::White
    }
}

/// The lines of a history event's detail view.
pub fn event_lines(e: &HistoryEvent) -> (r: Vec<Line>)
    ensures
        lines_view(r@) == event_lines_view(*e),
{
    let mut lines: Vec<Line> = Vec::new();
    let mut id: Vec<char> = Vec::new();
    push_str(&mut id, "#");
    push_idec(&mut id, e.event_id);
    let mut first: Vec<Span> = Vec::new();
    push_span(&mut first, lit("Event: ", SpanStyle::Bold(Color::Cyan)));
    push_span(&mut first, piece_of(string_of(&id), SpanStyle::BrightBold));
    push_span(&mut first, lit("  ", SpanStyle::Plain));
    push_span(&mut first, piece_of(e.event_type.clone(), SpanStyle::Bold(event_color(e.event_type.as_str()))));
    assert(spans_view(first@) =~= event_lines_view(*e)[0]);
    push_pieces(&mut lines, first);
    push_pieces(&mut lines, pair(lit("Time:  ", SpanStyle::Bold(Color::Cyan)),
        piece_of(rfc3339_of(e.timestamp), SpanStyle::Fg(Color::DarkGray))));
    push_blank(&mut lines);
    push_heading(&mut lines, "Details:", Color::Cyan);
    let ghost head = lines_view(lines@);
    assert(head =~= event_lines_view(*e).take(4));
    let jl = json_to_lines(&e.details);
    extend_lines(&mut lines, jl);
    assert(lines_view(lines@) =~= event_lines_view(*e));
    lines
}

/// Marks the characters of a text that a match of one of the terms (two or
/// more characters, ignoring case) covers.
fn term_cover_marks(t: &Vec<char>, terms: &Vec<String>) -> (r: Vec<bool>)
    ensures
        r@.len() == t@.len(),
        forall|i: int| 0 <= i < t@.len() ==> r@[i] == term_covers(lower_of(t@), term_texts(terms@), i),
{
    let low = lower_chars(t);
    let n = t.len();
    let ghost tv = term_texts(terms@);
    let mut hl: Vec<bool> = Vec::new();
    let mut i: usize = 0;
    while i < n
        invariant
            i <= n,
            hl@.len() == i,
            forall|k: int| 0 <= k < i ==> !hl@[k],
        decreases n - i,
    {
        hl.push(false);
        i = i + 1;
    }
    let mut j: usize = 0;
    while j < terms.len()
        invariant
            n == t@.len(),
            low@ == lower_of(t@),
            tv == term_texts(terms@),
            j <= terms@.len(),
            hl@.len() == n,
            forall|i: int| 0 <= i < n ==> hl@[i] == exists|k: int| 0 <= k < j && tv[k].len() >= 2
                && #[trigger] covered(low@, lower_of(tv[k]), i),
        decreases terms.len() - j,
    {
        let term = chars_of(terms[j].as_str());
        assert(tv[j as int] == term@);
        if term.len() >= 2 {
            let q = lower_chars(&term);
            let m = cover_marks(&low, &q, n);
            let mut i: usize = 0;
            while i < n
                invariant
                    n == t@.len(),
                    hl@.len() == n,
                    m@.len() == n,
                    i <= n,
                    forall|x: int| 0 <= x < n ==> m@[x] == covered(low@, q@, x),
                    forall|x: int| 0 <= x < i ==> hl@[x] == ((exists|k: int| 0 <= k < j && tv[k].len() >= 2
                        && #[trigger] covered(low@, lower_of(tv[k]), x)) || m@[x]),
                    forall|x: int| i <= x < n ==> hl@[x] == exists|k: int| 0 <= k < j && tv[k].len() >= 2
                        && #[trigger] covered(low@, lower_of(tv[k]), x),
                decreases n - i,
            {
                let v = hl[i] || m[i];
                hl.set(i, v);
                i = i + 1;
            }
        }
        assert forall|x: int| 0 <= x < n implies hl@[x] == exists|k: int| 0 <= k < j + 1 && tv[k].len() >= 2
            && #[trigger] covered(low@, lower_of(tv[k]), x) by {
            let before = exists|k: int| 0 <= k < j && tv[k].len() >= 2 && #[trigger] covered(low@, lower_of(tv[k]), x);
            let after = exists|k: int| 0 <= k < j + 1 && tv[k].len() >= 2 && #[trigger] covered(low@, lower_of(tv[k]), x);
            if before {
                let k = choose|k: int| 0 <= k < j && tv[k].len() >= 2 && #[trigger] covered(low@, lower_of(tv[k]), x);
                assert(0 <= k < j + 1);
            }
            if tv[j as int].len() >= 2 && covered(low@, lower_of(tv[j as int]), x) {
                assert(after);
            }
            if after && !before {
                let k = choose|k: int| 0 <= k < j + 1 && tv[k].len() >= 2 && #[trigger] covered(low@, lower_of(tv[k]), x);
                assert(k == j);
            }
        }
        j = j + 1;
    }
    hl
}

/// Splits a text into pieces: the matches of the trigger terms (ignoring
/// case; terms shorter than two characters are left out) in the highlight
/// style, the rest in the normal style. Overlapping and touching matches
/// form one piece; a text without matches is a single piece.
pub fn highlight_trigger_terms(text: &str, trigger_terms: &Vec<String>, normal_style: SpanStyle,
    highlight_style: SpanStyle) -> (r: Vec<Span>)
    ensures
        spans_view(r@) == trigger_spans(text@, term_texts(trigger_terms@), normal_style, highlight_style),
{
    let t = chars_of(text);
    let hl = term_cover_marks(&t, trigger_terms);
    let ghost m = term_marks(text@, term_texts(trigger_terms@), SpanStyle::Plain);
    let mut any = false;
    let mut i: usize = 0;
    while i < hl.len()
        invariant
            hl@.len() == t@.len(),
            t@ == text@,
            m == term_marks(text@, term_texts(trigger_terms@), SpanStyle::Plain),
            forall|x: int| 0 <= x < t@.len() ==> hl@[x] == m[x].2,
            i <= hl@.len(),
            any <==> exists|x: int| 0 <= x < i && (#[trigger] m[x]).2,
        decreases hl.len() - i,
    {
        if hl[i] {
            assert(m[i as int].2);
        }
        any = any || hl[i];
        i = i + 1;
    }
    if !any {
        return single(piece_of(text.to_owned(), normal_style));
    }
    let mut styled: Vec<(char, SpanStyle)> = Vec::new();
    let mut k: usize = 0;
    while k < t.len()
        invariant
            k <= t@.len(),
            styled@.len() == k,
            forall|x: int| 0 <= x < k ==> (#[trigger] styled@[x]) == (t@[x], SpanStyle::Plain),
        decreases t.len() - k,
    {
        styled.push((t[k], SpanStyle::Plain));
        k = k + 1;
    }
    let groups = regroup_exec(&styled, &hl);
    assert(Seq::new(styled@.len(), |x: int| (styled@[x].0, styled@[x].1, hl@[x])) =~= m);
    let ghost gv = regroup(m);
    let mut out: Vec<Span> = Vec::new();
    let mut g: usize = 0;
    while g < groups.len()
        invariant
            spans_view(groups@) == gv,
            g <= groups@.len(),
            spans_view(out@) == gv.take(g as int).map_values(
                |p: (Seq<char>, SpanStyle)| if p.1 == SpanStyle::Highlight { (p.0, highlight_style) } else { (p.0, normal_style) },
            ),
        decreases groups.len() - g,
    {
        let sp = &groups[g];
        assert(gv[g as int] == (sp.text@, sp.style));
        let style = if sp.style == SpanStyle::Highlight { highlight_style } else { normal_style };
        push_span(&mut out, Span { text: sp.text.clone(), style });
        assert(gv.take(g + 1) =~= gv.take(g as int).push(gv[g as int]));
        assert(spans_view(out@) =~= gv.take(g + 1).map_values(
            |p: (Seq<char>, SpanStyle)| if p.1 == SpanStyle::Highlight { (p.0, highlight_style) } else { (p.0, normal_style) },
        ));
        g = g + 1;
    }
    assert(gv.take(groups@.len() as int) =~= gv);
    out
}

/// Appends copies of the given pieces to a line.
fn append_spans(line: &mut Vec<Span>, more: &Vec<Span>)
    ensures
        spans_view(final(line)@) == spans_view(old(line)@) + spans_view(more@),
{
    let ghost start = spans_view(line@);
    let mut i: usize = 0;
    while i < more.len()
        invariant
            i <= more@.len(),
            spans_view(line@) == start + spans_view(more@).take(i as int),
        decreases more.len() - i,
    {
        push_span(line, Span { text: more[i].text.clone(), style: more[i].style });
        assert(spans_view(more@).take(i + 1) =~= spans_view(more@).take(i as int).push(spans_view(more@)[i as int]));
        i = i + 1;
    }
    assert(spans_view(more@).take(more@.len() as int) =~= spans_view(more@));
}

/// The first lines of an insight finding's detail view.
fn insight_head_lines(f: &InsightFinding, terms: &Vec<String>) -> (r: Vec<Line>)
    ensures
        lines_view(r@) == insight_head(*f, term_texts(terms@)),
{
    let ghost tv = term_texts(terms@);
    let c = f.severity.color();
    let mut lines: Vec<Line> = Vec::new();
    let mut badge: Vec<char> = Vec::new();
    push_str(&mut badge, " ");
    push_str(&mut badge, f.severity.label());
    push_str(&mut badge, " ");
    let mut first: Vec<Span> = Vec::new();
    push_span(&mut first, lit("Severity: ", SpanStyle::Emph));
    push_span(&mut first, piece_of(string_of(&badge), SpanStyle::Badge(c)));
    push_span(&mut first, lit("    ", SpanStyle::Plain));
    push_span(&mut first, lit("Category: ", SpanStyle::Emph));
    push_span(&mut first, lit(f.category.label(), SpanStyle::Plain));
    assert(spans_view(first@) =~= insight_head(*f, tv)[0]);
    push_pieces(&mut lines, first);
    push_blank(&mut lines);
    let mut title = single(lit("Finding: ", SpanStyle::Bold(Color::Cyan)));
    let marked = highlight_trigger_terms(f.title.as_str(), terms, SpanStyle::Bold(c), SpanStyle::Badge(c));
    append_spans(&mut title, &marked);
    push_pieces(&mut lines, title);
    push_blank(&mut lines);
    assert(lines_view(lines@) =~= insight_head(*f, tv));
    lines
}

/// Appends the detail section of an insight finding.
fn push_insight_detail(lines: &mut Vec<Line>, f: &InsightFinding, terms: &Vec<String>)
    ensures
        lines_view(final(lines)@) == lines_view(old(lines)@) + insight_detail_section(*f, term_texts(terms@)),
{
    let ghost before = lines_view(lines@);
    let ghost tv = term_texts(terms@);
    let c = f.severity.color();
    let d = chars_of(f.detail.as_str());
    if d.len() > 0 {
        push_heading(lines, "Detail:", Color::Cyan);
        let ghost head = lines_view(lines@);
        let dl = split_lines(&d);
        let ghost body = lines_of(f.detail@).map_values(
            |l: Seq<char>| trigger_spans(l, tv, SpanStyle::Bright, SpanStyle::Badge(c)),
        );
        let mut i: usize = 0;
        while i < dl.len()
            invariant
                views(dl@) == lines_of(f.detail@),
                tv == term_texts(terms@),
                c == severity_color(f.severity),
                body == lines_of(f.detail@).map_values(
                    |l: Seq<char>| trigger_spans(l, tv, SpanStyle::Bright, SpanStyle::Badge(c)),
                ),
                i <= dl@.len(),
                lines_view(lines@) == head + body.take(i as int),
            decreases dl.len() - i,
        {
            assert(views(dl@)[i as int] == dl@[i as int]@);
            let text = string_of(&dl[i]);
            let marked = highlight_trigger_terms(text.as_str(), terms, SpanStyle::Bright, SpanStyle::Badge(c));
            push_pieces(lines, marked);
            assert(body.take(i + 1) =~= body.take(i as int).push(body[i as int]));
            i = i + 1;
        }
        assert(body.take(dl@.len() as int) =~= body);
        push_blank(lines);
    }
    assert(lines_view(lines@) =~= before + insight_detail_section(*f, tv));
}

/// The line of affected entity `i`.
fn entity_pieces(e: &String, i: usize, selected: Option<usize>, c: Color) -> (r: Vec<Span>)
    requires
        i < usize::MAX,
    ensures
        spans_view(r@) == entity_line(e@, i as int, selected, c),
{
    let mut t: Vec<char> = Vec::new();
    push_dec(&mut t, (i + 1) as u64);
    push_str(&mut t, ". ");
    crate::text::push_chars(&mut t, &chars_of(e.as_str()));
    let is_sel = match selected {
        Some(s) => s == i,
        None => false,
    };
    let r = if is_sel {
        pair(lit(" \u{25B6} ", SpanStyle::Bold(c)), piece_of(string_of(&t), SpanStyle::Reversed))
    } else {
        pair(lit(" \u{25CF} ", SpanStyle::Fg(c)), piece_of(string_of(&t), SpanStyle::Plain))
    };
    assert(t@ =~= dec((i + 1) as nat) + ". "@ + e@);
    r
}

/// Appends the affected-entities section of an insight finding.
fn push_insight_entities(lines: &mut Vec<Line>, f: &InsightFinding, selected: Option<usize>)
    ensures
        lines_view(final(lines)@) == lines_view(old(lines)@) + insight_entities(*f, selected),
{
    let ghost before = lines_view(lines@);
    let c = f.severity.color();
    let n = f.affected_entities.len();
    if n > 0 {
        let mut count: Vec<char> = Vec::new();
        push_str(&mut count, "(");
        push_dec(&mut count, n as u64);
        push_str(&mut count, ")");
        let suffix = match selected {
            Some(_) => " (n/p to navigate, Enter to view)",
            None => "",
        };
        let mut head: Vec<Span> = Vec::new();
        push_span(&mut head, lit("Affected Entities ", SpanStyle::Bold(Color::Cyan)));
        push_span(&mut head, piece_of(string_of(&count), SpanStyle::Bold(c)));
        push_span(&mut head, lit(":", SpanStyle::Bold(Color::Cyan)));
        push_span(&mut head, lit(suffix, SpanStyle::Fg(Color::DarkGray)));
        assert(spans_view(head@) =~= insight_entities(*f, selected)[0]);
        push_pieces(lines, head);
        let ghost start = lines_view(lines@);
        let ghost body = Seq::new(n as nat, |i: int| entity_line(f.affected_entities@[i]@, i, selected, c));
        let mut i: usize = 0;
        while i < n
            invariant
                n == f.affected_entities@.len(),
                c == severity_color(f.severity),
                body == Seq::new(n as nat, |i: int| entity_line(f.affected_entities@[i]@, i, selected, c)),
                i <= n,
                lines_view(lines@) == start + body.take(i as int),
            decreases n - i,
        {
            push_pieces(lines, entity_pieces(&f.affected_entities[i], i, selected, c));
            assert(body.take(i + 1) =~= body.take(i as int).push(body[i as int]));
            i = i + 1;
        }
        assert(body.take(n as int) =~= body);
    }
    assert(lines_view(lines@) =~= before + insight_entities(*f, selected));
}

/// The lines of an insight finding's detail view, with the given entity
/// selected (if any) and the given trigger terms highlighted.
pub fn insight_lines(f: &InsightFinding, selected_entity: Option<usize>, trigger_terms: &Vec<String>) -> (r: Vec<Line>)
    ensures
        lines_view(r@) == insight_lines_view(*f, selected_entity, term_texts(trigger_terms@)),
{
    let mut lines = insight_head_lines(f, trigger_terms);
    push_insight_detail(&mut lines, f, trigger_terms);
    push_insight_entities(&mut lines, f, selected_entity);
    lines
}

/// The lines of an insight finding's detail view as the search sees them:
/// entity `entity_index` selected when there are entities, none otherwise.
pub fn insight_lines_static(f: &InsightFinding, entity_index: usize, trigger_terms: &Vec<String>) -> (r: Vec<Line>)
    ensures
        lines_view(r@) == insight_lines_view(*f,
            if f.affected_entities@.len() == 0 { None } else { Some(entity_index) }, term_texts(trigger_terms@)),
{
    let selected = if f.affected_entities.len() == 0 { None } else { Some(entity_index) };
    insight_lines(f, selected, trigger_terms)
}

/// The title of an activity's detail view.
pub open spec fn activity_title_text(a: ActivityExecution) -> Seq<char> {
    " "@ + a.activity_type@ + " ["@ + a.activity_id@ + "] "@ + activity_short_text(a.status) + " "@
}

/// The title of an activity's detail view: type, id and status.
pub fn activity_title(a: &ActivityExecution) -> (r: String)
    ensures
        r@ == activity_title_text(*a),
{
    let mut t: Vec<char> = Vec::new();
    push_str(&mut t, " ");
    push_str(&mut t, a.activity_type.as_str());
    push_str(&mut t, " [");
    push_str(&mut t, a.activity_id.as_str());
    push_str(&mut t, "] ");
    push_str(&mut t, a.status.short_name());
    push_str(&mut t, " ");
    assert(t@ =~= activity_title_text(*a));
    string_of(&t)
}

/// The title of a child workflow's detail view.
pub open spec fn child_title_text(c: ChildWorkflowExecution) -> Seq<char> {
    " [cw] "@ + c.workflow_type@ + " "@ + child_short_text(c.status) + " "@
}

/// The title of a child workflow's detail view: type and status.
pub fn child_title(c: &ChildWorkflowExecution) -> (r: String)
    ensures
        r@ == child_title_text(*c),
{
    let mut t: Vec<char> = Vec::new();
    push_str(&mut t, " [cw] ");
    push_str(&mut t, c.workflow_type.as_str());
    push_str(&mut t, " ");
    push_str(&mut t, c.status.short_name());
    push_str(&mut t, " ");
    assert(t@ =~= child_title_text(*c));
    string_of(&t)
}

/// The title of an event's detail view.
pub open spec fn event_title_text(e: HistoryEvent) -> Seq<char> {
    " #"@ + idec(e.event_id as int) + " "@ + e.event_type@ + " "@
}

/// The title of an event's detail view: number and type.
pub fn event_title(e: &HistoryEvent) -> (r: String)
    ensures
        r@ == event_title_text(*e),
{
    let mut t: Vec<char> = Vec::new();
    push_str(&mut t, " #");
    push_idec(&mut t, e.event_id);
    push_str(&mut t, " ");
    push_str(&mut t, e.event_type.as_str());
    push_str(&mut t, " ");
    assert(t@ =~= event_title_text(*e));
    string_of(&t)
}

/// The title of a finding's detail view in a frame `width` columns wide:
/// severity, category and the title cut to leave room for the rest.
pub open spec fn insight_title_text(f: InsightFinding, width: u16) -> Seq<char> {
    " "@ + severity_text(f.severity) + " | "@ + category_text(f.category) + " | "@
        + title_cut(f.title@, if width >= 30 { (width - 30) as nat } else { 0 }) + " "@
}

/// The title of a finding's detail view.
pub fn insight_title(f: &InsightFinding, width: u16) -> (r: String)
    ensures
        r@ == insight_title_text(*f, width),
{
    let room: usize = if width >= 30 { (width - 30) as usize } else { 0 };
    let cut = truncate_title(f.title.as_str(), room);
    let mut t: Vec<char> = Vec::new();
    push_str(&mut t, " ");
    push_str(&mut t, f.severity.label());
    push_str(&mut t, " | ");
    push_str(&mut t, f.category.label());
    push_str(&mut t, " | ");
    push_str(&mut t, cut.as_str());
    push_str(&mut t, " ");
    assert(t@ =~= insight_title_text(*f, width));
    string_of(&t)
}

/// What a detail view's title adds during a search: the position of the
/// current match among the matches and the query, or that nothing matched.
pub open spec fn search_suffix_text(query: Seq<char>, current: usize, count: usize) -> Seq<char> {
    if count > 0 {
        " ["@ + dec((current + 1) as nat) + "/"@ + dec(count as nat) + " \""@ + query + "\"] "@
    } else {
        " [no matches for \""@ + query + "\"] "@
    }
}

/// The search part of a detail view's title.
pub fn search_suffix(query: &str, current: usize, count: usize) -> (r: String)
    requires
        count > 0 ==> current < usize::MAX,
    ensures
        r@ == search_suffix_text(query@, current, count),
{
    let mut t: Vec<char> = Vec::new();
    if count > 0 {
        push_str(&mut t, " [");
        push_dec(&mut t, (current + 1) as u64);
        push_str(&mut t, "/");
        push_dec(&mut t, count as u64);
        push_str(&mut t, " \"");
        push_str(&mut t, query);
        push_str(&mut t, "\"] ");
    } else {
        push_str(&mut t, " [no matches for \"");
        push_str(&mut t, query);
        push_str(&mut t, "\"] ");
    }
    assert(t@ =~= search_suffix_text(query@, current, count));
    string_of(&t)
}


/// The search line shown in the filter bar once a search is entered: in a
/// detail view, the position of the current match among the matching lines;
/// in a list, how many rows match; or that nothing matched.
pub open spec fn search_status_text(query: Seq<char>, detail: bool, current: usize, total: usize) -> Seq<char> {
    if total == 0 {
        "Search: \""@ + query + "\" (no matches) — Esc clear"@
    } else if detail {
        "Search: \""@ + query + "\" ("@ + dec((current + 1) as nat) + "/"@ + dec(total as nat)
            + ") — n/N navigate, Esc clear"@
    } else {
        "Search: \""@ + query + "\" ("@ + dec(total as nat) + " matches) — n/N navigate, Esc clear"@
    }
}

/// The search line of the filter bar.
pub fn search_status(query: &str, detail: bool, current: usize, total: usize) -> (r: String)
    requires
        detail && total > 0 ==> current < usize::MAX,
    ensures
        r@ == search_status_text(query@, detail, current, total),
{
    let mut t: Vec<char> = Vec::new();
    push_str(&mut t, "Search: \"");
    push_str(&mut t, query);
    if total == 0 {
        push_str(&mut t, "\" (no matches) — Esc clear");
    } else if detail {
        push_str(&mut t, "\" (");
        push_dec(&mut t, (current + 1) as u64);
        push_str(&mut t, "/");
        push_dec(&mut t, total as u64);
        push_str(&mut t, ") — n/N navigate, Esc clear");
    } else {
        push_str(&mut t, "\" (");
        push_dec(&mut t, total as u64);
        push_str(&mut t, " matches) — n/N navigate, Esc clear");
    }
    assert(t@ =~= search_status_text(query@, detail, current, total));
    string_of(&t)
}

} // verus!
