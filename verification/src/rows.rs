//! The cells of the rows of the terminal's lists (workflows, workflow
//! types, activities, events, findings) and the short detail shown under
//! an expanded activity. Laying the cells out is the caller's part.

use vstd::prelude::*;
use crate::activity::ActivityExecution;
use crate::app::TypeStat;
use crate::clock::{format_utc, utc_text};
use crate::detail_lines::{spans_view, LineV};
use crate::insights::InsightFinding;
use crate::json::{json_pretty, json_pretty_text_of, json_text, json_text_of, JsonValue};
use crate::json_lines::{lit, push_span, Line, Span, SpanStyle};
use crate::model::{time_ok, HistoryEvent, WorkflowSummary};
use crate::status::{
    activity_short_text, all_statuses, category_text, severity_text, workflow_short_text, ActivityStatus, Color,
    TableColumn, WorkflowStatus,
};
use crate::text::{
    chars_of, dec, ends_with_seq, lines_of, push_chars, push_dec, push_str, split_lines, string_of, truncated,
    truncate_chars, views,
};
use crate::widgets::{duration_text, format_duration, format_duration_since_at, since_text, title_cut, truncate_string, truncate_title};

verus! {

/// A text right-aligned in `width` columns: spaces before it when shorter.
pub open spec fn pad_left(s: Seq<char>, width: nat) -> Seq<char> {
    if s.len() < width { Seq::new((width - s.len()) as nat, |i: int| ' ') + s } else { s }
}

/// Right-aligns a text in `width` columns.
fn pad(s: &Vec<char>, width: usize) -> (r: String)
    ensures
        r@ == pad_left(s@, width as nat),
{
    let mut t: Vec<char> = Vec::new();
    if s.len() < width {
        let mut i: usize = 0;
        while i < width - s.len()
            invariant
                s@.len() < width,
                i <= width - s@.len(),
                t@ == Seq::new(i as nat, |k: int| ' '),
            decreases width - s.len() - i,
        {
            t.push(' ');
            assert(t@ =~= Seq::new((i + 1) as nat, |k: int| ' '));
            i = i + 1;
        }
    }
    push_chars(&mut t, s);
    assert(t@ =~= pad_left(s@, width as nat));
    string_of(&t)
}

/// The texts of cells.
pub open spec fn cell_texts(r: Seq<String>) -> Seq<Seq<char>> {
    r.map_values(|s: String| s@)
}

/// The cells of a workflow row: its number (from one), then, for the
/// columns shown, the right-aligned status label, the type cut to 35
/// characters, the id cut to 45, and how long ago it started.
pub open spec fn workflow_cells(idx: usize, w: WorkflowSummary, columns: Seq<TableColumn>, now: i64) -> Seq<Seq<char>> {
    seq![dec((idx + 1) as nat)]
        + (if columns.contains(TableColumn::Status) { seq![pad_left(workflow_short_text(w.status), 6)] } else { Seq::empty() })
        + (if columns.contains(TableColumn::Type) { seq![truncated(w.workflow_type@, 35)] } else { Seq::empty() })
        + (if columns.contains(TableColumn::WorkflowId) { seq![truncated(w.workflow_id@, 45)] } else { Seq::empty() })
        + (if columns.contains(TableColumn::Started) { seq![since_text(w.start_time, now)] } else { Seq::empty() })
}

/// Whether a column is among the shown ones.
fn shown(columns: &Vec<TableColumn>, c: TableColumn) -> (r: bool)
    ensures
        r == columns@.contains(c),
{
    let mut i: usize = 0;
    while i < columns.len()
        invariant
            i <= columns@.len(),
            forall|k: int| 0 <= k < i ==> columns@[k] != c,
        decreases columns.len() - i,
    {
        if columns[i] == c {
            assert(columns@[i as int] == c);
            return true;
        }
        i = i + 1;
    }
    false
}

/// The cells of row `idx` of the workflow list at time `now`.
pub fn workflow_row(idx: usize, w: &WorkflowSummary, columns: &Vec<TableColumn>, now: i64) -> (r: Vec<String>)
    requires
        idx < usize::MAX,
        time_ok(w.start_time),
        time_ok(now),
    ensures
        cell_texts(r@) == workflow_cells(idx, *w, columns@, now),
{
    let mut r: Vec<String> = Vec::new();
    let mut n: Vec<char> = Vec::new();
    push_dec(&mut n, (idx + 1) as u64);
    r.push(string_of(&n));
    let ghost s0 = cell_texts(r@);
    assert(s0 =~= seq![dec((idx + 1) as nat)]);
    if shown(columns, TableColumn::Status) {
        r.push(pad(&chars_of(w.status.short_name()), 6));
    }
    let ghost s1 = cell_texts(r@);
    if shown(columns, TableColumn::Type) {
        r.push(truncate_string(w.workflow_type.as_str(), 35));
    }
    let ghost s2 = cell_texts(r@);
    if shown(columns, TableColumn::WorkflowId) {
        r.push(truncate_string(w.workflow_id.as_str(), 45));
    }
    let ghost s3 = cell_texts(r@);
    if shown(columns, TableColumn::Started) {
        r.push(format_duration_since_at(w.start_time, now));
    }
    assert(cell_texts(r@) =~= workflow_cells(idx, *w, columns@, now));
    r
}

/// The cells of a workflow type's row: the type cut to 40 characters, the
/// total right-aligned in 6 columns, then the count of each status in 4
/// columns, `-` for none.
pub open spec fn stat_cells(t: TypeStat) -> Seq<Seq<char>> {
    seq![truncated(t.workflow_type@, 40), pad_left(dec(t.total as nat), 6)]
        + all_statuses().map_values(|s: WorkflowStatus| if t.counts.count_of(s) > 0 {
            pad_left(dec(t.counts.count_of(s) as nat), 4)
        } else {
            pad_left("-"@, 4)
        })
}

/// The cells of a workflow type's row.
pub fn stat_row(t: &TypeStat) -> (r: Vec<String>)
    requires
        t.counts.wf(),
    ensures
        cell_texts(r@) == stat_cells(*t),
{
    let mut r: Vec<String> = Vec::new();
    r.push(truncate_string(t.workflow_type.as_str(), 40));
    let mut tot: Vec<char> = Vec::new();
    push_dec(&mut tot, t.total);
    r.push(pad(&tot, 6));
    let all = WorkflowStatus::all();
    let ghost f = |s: WorkflowStatus| if t.counts.count_of(s) > 0 {
        pad_left(dec(t.counts.count_of(s) as nat), 4)
    } else {
        pad_left("-"@, 4)
    };
    let mut i: usize = 0;
    while i < all.len()
        invariant
            all@ == all_statuses(),
            t.counts.wf(),
            f == (|s: WorkflowStatus| if t.counts.count_of(s) > 0 {
                pad_left(dec(t.counts.count_of(s) as nat), 4)
            } else {
                pad_left("-"@, 4)
            }),
            i <= all@.len(),
            cell_texts(r@) == seq![truncated(t.workflow_type@, 40), pad_left(dec(t.total as nat), 6)]
                + all@.take(i as int).map_values(f),
        decreases all.len() - i,
    {
        let c = t.get_status_count(all[i]);
        let cell = if c > 0 {
            let mut d: Vec<char> = Vec::new();
            push_dec(&mut d, c);
            pad(&d, 4)
        } else {
            pad(&chars_of("-"), 4)
        };
        let ghost before = r@;
        r.push(cell);
        assert(cell_texts(r@) =~= cell_texts(before).push(cell@));
        assert(all@.take(i + 1).map_values(f) =~= all@.take(i as int).map_values(f).push(f(all@[i as int])));
        i = i + 1;
    }
    assert(all@.take(all@.len() as int) =~= all@);
    r
}

/// The cells of a finding's row: severity, category and title.
pub fn finding_row(f: &InsightFinding) -> (r: Vec<String>)
    ensures
        cell_texts(r@) == seq![severity_text(f.severity), category_text(f.category), f.title@],
{
    let r = vec![f.severity.label().to_owned(), f.category.label().to_owned(), f.title.clone()];
    assert(cell_texts(r@) =~= seq![severity_text(f.severity), category_text(f.category), f.title@]);
    r
}

/// The summary of a detail value: a text cut to 40 characters, anything
/// else as compact JSON cut to 40.
pub open spec fn value_summary(v: JsonValue) -> Seq<char> {
    match v {
        JsonValue::String(s) => title_cut(s@, 40),
        _ => title_cut(json_text_of(v), 40),
    }
}

/// A member that an event summary shows: not an event reference and not
/// null.
pub open spec fn summarised(m: (String, JsonValue)) -> bool {
    !ends_with_seq(m.0@, "_event_id"@) && m.0@ != "event_id"@ && !(m.1 is Null)
}

/// The `key=value` texts of the members an event summary shows.
pub open spec fn summary_parts(ms: Seq<(String, JsonValue)>) -> Seq<Seq<char>> {
    let kept = ms.filter(|m: (String, JsonValue)| summarised(m));
    kept.take(if kept.len() < 3 { kept.len() as int } else { 3 }).map_values(
        |m: (String, JsonValue)| m.0@ + "="@ + value_summary(m.1),
    )
}

/// The summary of an event: the first three members of its details that
/// are no event references and not null, as `key=value`, two spaces
/// apart; empty when the details are no object.
pub open spec fn event_summary_text(e: HistoryEvent) -> Seq<char> {
    match e.details {
        JsonValue::Object(ms) => crate::text::join_seq(summary_parts(ms@), "  "@),
        _ => Seq::empty(),
    }
}

/// The summary of a detail value.
fn summarise_value(v: &JsonValue) -> (r: String)
    ensures
        r@ == value_summary(*v),
{
    match v {
        JsonValue::String(s) => truncate_title(s.as_str(), 40),
        _ => truncate_title(json_text(v).as_str(), 40),
    }
}

/// The summary of an event's details.
pub fn event_summary(e: &HistoryEvent) -> (r: String)
    ensures
        r@ == event_summary_text(*e),
{
    match &e.details {
        JsonValue::Object(ms) => {
            let ghost keep = |m: (String, JsonValue)| summarised(m);
            let ghost part = |m: (String, JsonValue)| m.0@ + "="@ + value_summary(m.1);
            let mut parts: Vec<Vec<char>> = Vec::new();
            let mut kept_n: usize = 0;
            let mut i: usize = 0;
            while i < ms.len()
                invariant
                    keep == (|m: (String, JsonValue)| summarised(m)),
                    part == (|m: (String, JsonValue)| m.0@ + "="@ + value_summary(m.1)),
                    i <= ms@.len(),
                    kept_n == ms@.take(i as int).filter(keep).len(),
                    views(parts@) == {
                        let k = ms@.take(i as int).filter(keep);
                        k.take(if k.len() < 3 { k.len() as int } else { 3 }).map_values(part)
                    },
                decreases ms.len() - i,
            {
                let ghost prev = ms@.take(i as int).filter(keep);
                let ghost next = ms@.take(i + 1).filter(keep);
                let m = &ms[i];
                proof {
                    assert(ms@.take(i + 1).drop_last() =~= ms@.take(i as int));
                    assert(ms@.take(i + 1).last() == ms@[i as int]);
                    reveal(Seq::filter);
                    assert(next == if keep(ms@[i as int]) { prev.push(ms@[i as int]) } else { prev });
                }
                let key = chars_of(m.0.as_str());
                let is_ref = crate::text::ends_with(&key, "_event_id");
                let is_id = crate::text::eq_str(&key, "event_id");
                let is_null = match &m.1 {
                    JsonValue::Null => true,
                    _ => false,
                };
                if !is_ref && !is_id && !is_null {
                    if kept_n < 3 {
                        let mut t = key;
                        push_str(&mut t, "=");
                        push_str(&mut t, summarise_value(&m.1).as_str());
                        let ghost before = parts@;
                        parts.push(t);
                        assert(views(parts@) =~= views(before).push(part(ms@[i as int])));
                        assert(next.take(if next.len() < 3 { next.len() as int } else { 3 })
                            =~= prev.take(if prev.len() < 3 { prev.len() as int } else { 3 }).push(ms@[i as int]));
                    } else {
                        assert(next.take(3) =~= prev.take(3));
                    }
                    kept_n = kept_n + 1;
                }
                i = i + 1;
            }
            assert(ms@.take(ms@.len() as int) =~= ms@);
            string_of(&crate::text::join(&parts, "  "))
        },
        _ => String::new(),
    }
}

/// The cells of an event's row: `#` and its number, its time of day with
/// milliseconds, its type, and its summary.
pub fn event_row(e: &HistoryEvent) -> (r: Vec<String>)
    ensures
        cell_texts(r@) == seq!["#"@ + crate::text::idec(e.event_id as int), utc_text(e.timestamp, "%H:%M:%S%.3f"@),
            e.event_type@, event_summary_text(*e)],
{
    let mut id: Vec<char> = Vec::new();
    push_str(&mut id, "#");
    crate::text::push_idec(&mut id, e.event_id);
    let r = vec![string_of(&id), format_utc(e.timestamp, "%H:%M:%S%.3f"), e.event_type.clone(), event_summary(e)];
    assert(cell_texts(r@) =~= seq!["#"@ + crate::text::idec(e.event_id as int), utc_text(e.timestamp, "%H:%M:%S%.3f"@),
        e.event_type@, event_summary_text(*e)]);
    r
}

/// How long ago `since` was at `now`, in brackets.
pub open spec fn elapsed_text(since: i64, now: i64) -> Seq<char> {
    "("@ + duration_text(now - since) + ")"@
}

/// How long ago `since` was at `now`, in brackets, e.g. `(2m 5s)`.
pub fn format_elapsed_since_at(since: i64, now: i64) -> (r: String)
    requires
        time_ok(since),
        time_ok(now),
    ensures
        r@ == elapsed_text(since, now),
{
    let mut t: Vec<char> = Vec::new();
    push_str(&mut t, "(");
    push_str(&mut t, format_duration(now - since).as_str());
    push_str(&mut t, ")");
    string_of(&t)
}

/// How long ago `since` was, in brackets.
pub fn format_elapsed_since(since: i64) -> (r: String)
    requires
        time_ok(since),
    ensures
        exists|now: i64| time_ok(now) && r@ == #[trigger] elapsed_text(since, now),
{
    let now = crate::clock::now_ms();
    let r = format_elapsed_since_at(since, now);
    assert(r@ == elapsed_text(since, now));
    r
}

/// A duration cell: the duration, or `-` when there is none.
pub open spec fn duration_or_dash(d: Option<i64>) -> Seq<char> {
    match d {
        Some(v) => duration_text(v as int),
        None => "-"@,
    }
}

/// The cells of an activity's row at time `now`: type cut to 35
/// characters, id, status label, how long it ran (how long it has been
/// running, for a running one), attempt (`-` for none) and its queue wait
/// (how long it has been waiting, for a scheduled one).
pub open spec fn activity_cells(a: ActivityExecution, now: i64) -> Seq<Seq<char>> {
    let duration = match a.status {
        ActivityStatus::Running => match a.started_time {
            Some(t) => elapsed_text(t, now),
            None => "-"@,
        },
        ActivityStatus::Scheduled => "-"@,
        _ => duration_or_dash(a.execution_time),
    };
    let wait = match a.status {
        ActivityStatus::Scheduled => elapsed_text(a.scheduled_time, now),
        _ => duration_or_dash(a.queue_wait),
    };
    seq![truncated(crate::text::single_line(a.activity_type@), 35), a.activity_id@, activity_short_text(a.status), duration,
        if a.attempt > 0 { dec(a.attempt as nat) } else { "-"@ }, wait]
}

/// The times of an activity lie in the supported range.
pub open spec fn activity_times_ok(a: ActivityExecution) -> bool {
    time_ok(a.scheduled_time) && (a.started_time matches Some(t) ==> time_ok(t))
}

/// A duration or `-`.
fn duration_cell(d: Option<i64>) -> (r: String)
    ensures
        r@ == duration_or_dash(d),
{
    match d {
        Some(v) => format_duration(v),
        None => "-".to_owned(),
    }
}

/// The cells of an activity's row at time `now`.
pub fn activity_row(a: &ActivityExecution, now: i64) -> (r: Vec<String>)
    requires
        activity_times_ok(*a),
        time_ok(now),
    ensures
        cell_texts(r@) == activity_cells(*a, now),
{
    let duration = match a.status {
        ActivityStatus::Running => match a.started_time {
            Some(t) => format_elapsed_since_at(t, now),
            None => "-".to_owned(),
        },
        ActivityStatus::Scheduled => "-".to_owned(),
        _ => duration_cell(a.execution_time),
    };
    let wait = match a.status {
        ActivityStatus::Scheduled => format_elapsed_since_at(a.scheduled_time, now),
        _ => duration_cell(a.queue_wait),
    };
    let attempt = if a.attempt > 0 {
        let mut t: Vec<char> = Vec::new();
        push_dec(&mut t, a.attempt as u64);
        string_of(&t)
    } else {
        "-".to_owned()
    };
    let single = crate::text::single_line_chars(&chars_of(a.activity_type.as_str()));
    let r = vec![string_of(&truncate_chars(&single, 35)), a.activity_id.clone(), a.status.short_name().to_owned(),
        duration, attempt, wait];
    assert(cell_texts(r@) =~= activity_cells(*a, now));
    r
}

/// The title of the activity list: the number of activities, and of those
/// failed or timed out when there are any.
pub open spec fn activity_list_title_text(acts: Seq<ActivityExecution>) -> Seq<char> {
    let failed = acts.filter(|a: ActivityExecution| a.status == ActivityStatus::Failed || a.status == ActivityStatus::TimedOut).len();
    if failed > 0 {
        "Activities ("@ + dec(acts.len()) + " total, "@ + dec(failed) + " failed)"@
    } else {
        "Activities ("@ + dec(acts.len()) + " total)"@
    }
}

/// The title of the activity list.
pub fn activity_list_title(acts: &Vec<ActivityExecution>) -> (r: String)
    ensures
        r@ == activity_list_title_text(acts@),
{
    let ghost bad = |a: ActivityExecution| a.status == ActivityStatus::Failed || a.status == ActivityStatus::TimedOut;
    let mut failed: usize = 0;
    let mut i: usize = 0;
    while i < acts.len()
        invariant
            bad == (|a: ActivityExecution| a.status == ActivityStatus::Failed || a.status == ActivityStatus::TimedOut),
            i <= acts@.len(),
            failed == acts@.take(i as int).filter(bad).len(),
            failed <= i,
        decreases acts.len() - i,
    {
        proof {
            assert(acts@.take(i + 1).drop_last() =~= acts@.take(i as int));
            assert(acts@.take(i + 1).last() == acts@[i as int]);
            reveal(Seq::filter);
        }
        match acts[i].status {
            ActivityStatus::Failed | ActivityStatus::TimedOut => failed = failed + 1,
            _ => {},
        }
        i = i + 1;
    }
    assert(acts@.take(acts@.len() as int) =~= acts@);
    let mut t: Vec<char> = Vec::new();
    push_str(&mut t, "Activities (");
    push_dec(&mut t, acts.len() as u64);
    if failed > 0 {
        push_str(&mut t, " total, ");
        push_dec(&mut t, failed as u64);
        push_str(&mut t, " failed)");
    } else {
        push_str(&mut t, " total)");
    }
    string_of(&t)
}

/// The input or output line of the expanded detail.
pub open spec fn json_line(label: Seq<char>, c: Color, v: Option<JsonValue>) -> Seq<LineV> {
    match v {
        Some(j) => seq![seq![(label, SpanStyle::Bold(c)),
            (truncated(crate::text::single_line(json_pretty_text_of(j)), 200), SpanStyle::Plain)]],
        None => Seq::empty(),
    }
}

/// The failure lines of the expanded detail: type and message, then at
/// most three lines of the trace.
pub open spec fn failure_lines(f: Option<crate::model::FailureInfo>) -> Seq<LineV> {
    match f {
        Some(fi) => seq![seq![("  Failure: "@, SpanStyle::Bold(Color::Red)), ("["@ + fi.failure_type@ + "] "@ + fi.message@,
            SpanStyle::Plain)]] + match fi.stack_trace {
            Some(t) => {
                let ls = lines_of(t@);
                ls.take(if ls.len() < 3 { ls.len() as int } else { 3 }).map_values(
                    |l: Seq<char>| seq![("    "@, SpanStyle::Plain), (l, SpanStyle::Fg(Color::DarkGray))],
                )
            },
            None => Seq::empty(),
        },
        None => Seq::empty(),
    }
}

/// The queue line of the expanded detail.
pub open spec fn queue_line(q: Option<String>) -> Seq<LineV> {
    match q {
        Some(t) => seq![seq![("  Queue: "@, SpanStyle::Bold(Color::Yellow)), (t@, SpanStyle::Plain)]],
        None => Seq::empty(),
    }
}

/// The lines of the expanded detail before the fallback note.
pub open spec fn expanded_body(a: ActivityExecution) -> Seq<LineV> {
    json_line("  Input: "@, Color::Cyan, a.input) + json_line("  Output: "@, Color::Green, a.output)
        + failure_lines(a.failure) + queue_line(a.task_queue)
}

/// The short detail shown under an expanded activity: input and output as
/// indented JSON on one line cut to 200 characters, the failure with the
/// first three lines of its trace, and the queue; a note when there is
/// none of these.
pub open spec fn expanded_lines_view(a: ActivityExecution) -> Seq<LineV> {
    let body = expanded_body(a);
    if body.len() == 0 { seq![seq![("  (no additional details)"@, SpanStyle::Dim)]] } else { body }
}

/// A line of a bold label and a plain text.
fn label_line(lines: &mut Vec<Line>, label: &str, c: Color, text: String)
    ensures
        crate::json_lines::lines_view(final(lines)@) == crate::json_lines::lines_view(old(lines)@).push(
            seq![(label@, SpanStyle::Bold(c)), (text@, SpanStyle::Plain)]),
{
    let mut spans: Vec<Span> = Vec::new();
    push_span(&mut spans, lit(label, SpanStyle::Bold(c)));
    push_span(&mut spans, Span { text, style: SpanStyle::Plain });
    assert(spans@.map_values(|s: Span| (s.text@, s.style)) =~= seq![(label@, SpanStyle::Bold(c)), (text@, SpanStyle::Plain)]);
    crate::json_lines::push_line(lines, spans);
}

/// A JSON value on one line, indented text cut to 200 characters.
fn json_summary(v: &JsonValue) -> (r: String)
    ensures
        r@ == truncated(crate::text::single_line(json_pretty_text_of(*v)), 200),
{
    let one = crate::text::single_line_chars(&chars_of(json_pretty(v).as_str()));
    string_of(&truncate_chars(&one, 200))
}

/// Appends the input or output line.
fn push_json_line(lines: &mut Vec<Line>, label: &str, c: Color, v: &Option<JsonValue>)
    ensures
        crate::json_lines::lines_view(final(lines)@) == crate::json_lines::lines_view(old(lines)@) + json_line(label@, c, *v),
{
    let ghost before = crate::json_lines::lines_view(lines@);
    match v {
        Some(j) => label_line(lines, label, c, json_summary(j)),
        None => {},
    }
    assert(crate::json_lines::lines_view(lines@) =~= before + json_line(label@, c, *v));
}

/// Appends the failure lines.
fn push_failure_lines(lines: &mut Vec<Line>, f: &Option<crate::model::FailureInfo>)
    ensures
        crate::json_lines::lines_view(final(lines)@) == crate::json_lines::lines_view(old(lines)@) + failure_lines(*f),
{
    let ghost before = crate::json_lines::lines_view(lines@);
    match f {
        Some(fi) => {
            let mut t: Vec<char> = Vec::new();
            push_str(&mut t, "[");
            push_str(&mut t, fi.failure_type.as_str());
            push_str(&mut t, "] ");
            push_str(&mut t, fi.message.as_str());
            label_line(lines, "  Failure: ", Color::Red, string_of(&t));
            let ghost head = crate::json_lines::lines_view(lines@);
            match &fi.stack_trace {
                Some(tr) => {
                    let ls = split_lines(&chars_of(tr.as_str()));
                    let ghost lv = lines_of(tr@);
                    let n: usize = if ls.len() < 3 { ls.len() } else { 3 };
                    let ghost f3 = |l: Seq<char>| seq![("    "@, SpanStyle::Plain), (l, SpanStyle::Fg(Color::DarkGray))];
                    let mut i: usize = 0;
                    while i < n
                        invariant
                            views(ls@) == lv,
                            lv == lines_of(tr@),
                            n == (if ls@.len() < 3 { ls@.len() } else { 3 }),
                            f3 == (|l: Seq<char>| seq![("    "@, SpanStyle::Plain), (l, SpanStyle::Fg(Color::DarkGray))]),
                            i <= n,
                            crate::json_lines::lines_view(lines@) == head + lv.take(i as int).map_values(f3),
                        decreases n - i,
                    {
                        let mut spans: Vec<Span> = Vec::new();
                        push_span(&mut spans, lit("    ", SpanStyle::Plain));
                        push_span(&mut spans, Span { text: string_of(&ls[i]), style: SpanStyle::Fg(Color::DarkGray) });
                        assert(views(ls@)[i as int] == ls@[i as int]@);
                        assert(spans@.map_values(|s: Span| (s.text@, s.style)) =~= f3(lv[i as int]));
                        crate::json_lines::push_line(lines, spans);
                        assert(lv.take(i + 1).map_values(f3) =~= lv.take(i as int).map_values(f3).push(f3(lv[i as int])));
                        i = i + 1;
                    }
                },
                None => {},
            }
            assert(crate::json_lines::lines_view(lines@) =~= before + failure_lines(*f));
        },
        None => {
            assert(crate::json_lines::lines_view(lines@) =~= before + failure_lines(*f));
        },
    }
}

/// Appends the queue line.
fn push_queue_line(lines: &mut Vec<Line>, q: &Option<String>)
    ensures
        crate::json_lines::lines_view(final(lines)@) == crate::json_lines::lines_view(old(lines)@) + queue_line(*q),
{
    let ghost before = crate::json_lines::lines_view(lines@);
    match q {
        Some(t) => label_line(lines, "  Queue: ", Color::Yellow, t.clone()),
        None => {},
    }
    assert(crate::json_lines::lines_view(lines@) =~= before + queue_line(*q));
}

/// The short detail shown under an expanded activity.
pub fn expanded_lines(a: &ActivityExecution) -> (r: Vec<Line>)
    ensures
        crate::json_lines::lines_view(r@) == expanded_lines_view(*a),
{
    let mut lines: Vec<Line> = Vec::new();
    assert(crate::json_lines::lines_view(lines@) =~= Seq::<LineV>::empty());
    push_json_line(&mut lines, "  Input: ", Color::Cyan, &a.input);
    push_json_line(&mut lines, "  Output: ", Color::Green, &a.output);
    push_failure_lines(&mut lines, &a.failure);
    push_queue_line(&mut lines, &a.task_queue);
    assert(crate::json_lines::lines_view(lines@) =~= expanded_body(*a));
    if lines.len() == 0 {
        let mut spans: Vec<Span> = Vec::new();
        push_span(&mut spans, lit("  (no additional details)", SpanStyle::Dim));
        assert(spans@.map_values(|s: Span| (s.text@, s.style)) =~= seq![("  (no additional details)"@, SpanStyle::Dim)]);
        assert(expanded_body(*a).len() == 0);
        let ghost before = crate::json_lines::lines_view(lines@);
        assert(before =~= Seq::<LineV>::empty());
        crate::json_lines::push_line(&mut lines, spans);
        assert(crate::json_lines::lines_view(lines@) =~= expanded_lines_view(*a));
    }
    lines
}

/// The height the expanded detail takes: its lines and one more.
pub fn expanded_height(a: &ActivityExecution) -> (r: u16)
    ensures
        r == expanded_lines_view(*a).len() + 1,
{
    let lines = expanded_lines(a);
    assert(lines@.len() == crate::json_lines::lines_view(lines@).len());
    assert(lines@.len() <= 7) by {
        assert(expanded_lines_view(*a).len() <= 7);
    }
    (lines.len() + 1) as u16
}

} // verus!
