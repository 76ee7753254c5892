//! The rows of the tables that commands print: a header and the cells of
//! each row, as texts. Drawing the table is the caller's part.

use vstd::prelude::*;
use crate::activity::ActivityExecution;
use crate::clock::{format_utc, utc_text};
use crate::config::Config;
use crate::insights::InsightsResult;
use crate::json::{json_text, json_text_of};
use crate::model::{HistoryEvent, WorkflowDetail, WorkflowSummary};
use crate::stats::StatusCounts;
use crate::status::{activity_short_text, category_text, query_value_text, severity_text, WorkflowStatus};
use crate::text::{chars_of, dec, idec, join, join_seq, push_dec, push_idec, string_of};
use crate::widgets::{duration_text, format_duration};

verus! {

/// The texts of the cells of a row.
pub open spec fn cells(r: Vec<String>) -> Seq<Seq<char>> {
    r@.map_values(|s: String| s@)
}

/// The texts of the cells of each row.
pub open spec fn rows_view(rs: Seq<Vec<String>>) -> Seq<Seq<Seq<char>>> {
    rs.map_values(|r: Vec<String>| cells(r))
}

/// A row of the given cells.
fn row_of(cs: Vec<String>) -> (r: Vec<String>)
    ensures
        r == cs,
{
    cs
}

/// The decimal text of an unsigned number.
fn num(n: u64) -> (r: String)
    ensures
        r@ == dec(n as nat),
{
    let mut t: Vec<char> = Vec::new();
    push_dec(&mut t, n);
    string_of(&t)
}

/// The decimal text of a signed number.
fn inum(n: i64) -> (r: String)
    ensures
        r@ == idec(n as int),
{
    let mut t: Vec<char> = Vec::new();
    push_idec(&mut t, n);
    string_of(&t)
}

/// A duration cell: the duration, or `-` when there is none.
pub open spec fn duration_cell(ms: Option<i64>) -> Seq<char> {
    match ms {
        Some(m) => duration_text(m as int),
        None => "-"@,
    }
}

fn duration_or_dash(ms: Option<i64>) -> (r: String)
    ensures
        r@ == duration_cell(ms),
{
    match ms {
        Some(m) => format_duration(m),
        None => "-".to_owned(),
    }
}

/// The cells of a workflow row: status, type, id, start time, task queue.
pub open spec fn workflow_cells(w: WorkflowSummary) -> Seq<Seq<char>> {
    seq![query_value_text(w.status), w.workflow_type@, w.workflow_id@, utc_text(w.start_time, "%Y-%m-%d %H:%M:%S"@), w.task_queue@]
}

/// The table of a workflow list: one row per workflow.
pub fn workflow_rows(ws: &[WorkflowSummary]) -> (r: Vec<Vec<String>>)
    ensures
        r@.len() == ws@.len(),
        forall|k: int| 0 <= k < ws@.len() ==> cells(#[trigger] r@[k]) == workflow_cells(ws@[k]),
{
    let mut r: Vec<Vec<String>> = Vec::new();
    let mut i: usize = 0;
    while i < ws.len()
        invariant
            i <= ws@.len(),
            r@.len() == i,
            forall|k: int| 0 <= k < i ==> cells(#[trigger] r@[k]) == workflow_cells(ws@[k]),
        decreases ws.len() - i,
    {
        let w = &ws[i];
        let row = row_of(vec![
            w.status.as_query_value().to_owned(),
            w.workflow_type.clone(),
            w.workflow_id.clone(),
            format_utc(w.start_time, "%Y-%m-%d %H:%M:%S"),
            w.task_queue.clone(),
        ]);
        assert(cells(row) =~= workflow_cells(*w));
        r.push(row);
        i = i + 1;
    }
    r
}

/// The header of a workflow list.
pub fn workflow_header() -> (r: Vec<&'static str>)
    ensures
        r@.map_values(|s: &str| s@) == seq!["STATUS"@, "TYPE"@, "WORKFLOW ID"@, "STARTED"@, "TASK QUEUE"@],
{
    let r = vec!["STATUS", "TYPE", "WORKFLOW ID", "STARTED", "TASK QUEUE"];
    assert(r@.map_values(|s: &str| s@) =~= seq!["STATUS"@, "TYPE"@, "WORKFLOW ID"@, "STARTED"@, "TASK QUEUE"@]);
    r
}

/// The cells of an activity row: id, type, status, attempt, queue wait and
/// execution time.
pub open spec fn activity_cells(a: ActivityExecution) -> Seq<Seq<char>> {
    seq![a.activity_id@, a.activity_type@, activity_short_text(a.status), idec(a.attempt as int),
        duration_cell(a.queue_wait), duration_cell(a.execution_time)]
}

/// The table of an activity list: one row per activity.
pub fn activity_rows(acts: &[ActivityExecution]) -> (r: Vec<Vec<String>>)
    ensures
        r@.len() == acts@.len(),
        forall|k: int| 0 <= k < acts@.len() ==> cells(#[trigger] r@[k]) == activity_cells(acts@[k]),
{
    let mut r: Vec<Vec<String>> = Vec::new();
    let mut i: usize = 0;
    while i < acts.len()
        invariant
            i <= acts@.len(),
            r@.len() == i,
            forall|k: int| 0 <= k < i ==> cells(#[trigger] r@[k]) == activity_cells(acts@[k]),
        decreases acts.len() - i,
    {
        let a = &acts[i];
        let row = row_of(vec![
            a.activity_id.clone(),
            a.activity_type.clone(),
            a.status.short_name().to_owned(),
            inum(a.attempt as i64),
            duration_or_dash(a.queue_wait),
            duration_or_dash(a.execution_time),
        ]);
        assert(cells(row) =~= activity_cells(*a));
        r.push(row);
        i = i + 1;
    }
    r
}

/// The cells of a history event row: id, type and time.
pub open spec fn event_cells(e: HistoryEvent) -> Seq<Seq<char>> {
    seq![idec(e.event_id as int), e.event_type@, utc_text(e.timestamp, "%Y-%m-%d %H:%M:%S"@)]
}

/// The table of a history: one row per event.
pub fn event_rows(events: &[HistoryEvent]) -> (r: Vec<Vec<String>>)
    ensures
        r@.len() == events@.len(),
        forall|k: int| 0 <= k < events@.len() ==> cells(#[trigger] r@[k]) == event_cells(events@[k]),
{
    let mut r: Vec<Vec<String>> = Vec::new();
    let mut i: usize = 0;
    while i < events.len()
        invariant
            i <= events@.len(),
            r@.len() == i,
            forall|k: int| 0 <= k < i ==> cells(#[trigger] r@[k]) == event_cells(events@[k]),
        decreases events.len() - i,
    {
        let e = &events[i];
        let row = row_of(vec![inum(e.event_id), e.event_type.clone(), format_utc(e.timestamp, "%Y-%m-%d %H:%M:%S")]);
        assert(cells(row) =~= event_cells(*e));
        r.push(row);
        i = i + 1;
    }
    r
}

/// The rows of a workflow's detail table: field and value.
pub open spec fn detail_cells(d: WorkflowDetail) -> Seq<Seq<Seq<char>>> {
    seq![
        seq!["Workflow ID"@, d.summary.workflow_id@],
        seq!["Run ID"@, d.summary.run_id@],
        seq!["Type"@, d.summary.workflow_type@],
        seq!["Status"@, query_value_text(d.summary.status)],
        seq!["Started"@, utc_text(d.summary.start_time, "%Y-%m-%d %H:%M:%S UTC"@)],
    ] + match d.summary.close_time {
        Some(t) => seq![seq!["Closed"@, utc_text(t, "%Y-%m-%d %H:%M:%S UTC"@)]],
        None => Seq::empty(),
    } + seq![
        seq!["Task Queue"@, d.summary.task_queue@],
        seq!["History Length"@, dec(d.history_length as nat)],
    ] + match d.input {
        Some(v) => seq![seq!["Input"@, json_text_of(v)]],
        None => Seq::empty(),
    } + match d.output {
        Some(v) => seq![seq!["Output"@, json_text_of(v)]],
        None => Seq::empty(),
    } + match d.failure {
        Some(f) => seq![seq!["Failure"@, f.message@], seq!["Failure Type"@, f.failure_type@]],
        None => Seq::empty(),
    }
}

/// Appends a row of two cells.
fn push_pair(rows: &mut Vec<Vec<String>>, a: &str, b: String)
    ensures
        rows_view(final(rows)@) == rows_view(old(rows)@).push(seq![a@, b@]),
{
    let ghost before = rows@;
    let row = row_of(vec![a.to_owned(), b]);
    assert(cells(row) =~= seq![a@, b@]);
    rows.push(row);
    assert(rows_view(rows@) =~= rows_view(before).push(cells(row)));
}

/// The table of a workflow's detail.
pub fn detail_rows(d: &WorkflowDetail) -> (r: Vec<Vec<String>>)
    ensures
        rows_view(r@) == detail_cells(*d),
{
    let mut rows: Vec<Vec<String>> = Vec::new();
    push_pair(&mut rows, "Workflow ID", d.summary.workflow_id.clone());
    push_pair(&mut rows, "Run ID", d.summary.run_id.clone());
    push_pair(&mut rows, "Type", d.summary.workflow_type.clone());
    push_pair(&mut rows, "Status", d.summary.status.as_query_value().to_owned());
    push_pair(&mut rows, "Started", format_utc(d.summary.start_time, "%Y-%m-%d %H:%M:%S UTC"));
    match d.summary.close_time {
        Some(t) => push_pair(&mut rows, "Closed", format_utc(t, "%Y-%m-%d %H:%M:%S UTC")),
        None => {},
    }
    push_pair(&mut rows, "Task Queue", d.summary.task_queue.clone());
    push_pair(&mut rows, "History Length", num(d.history_length));
    match &d.input {
        Some(v) => push_pair(&mut rows, "Input", json_text(v)),
        None => {},
    }
    match &d.output {
        Some(v) => push_pair(&mut rows, "Output", json_text(v)),
        None => {},
    }
    match &d.failure {
        Some(f) => {
            push_pair(&mut rows, "Failure", f.message.clone());
            push_pair(&mut rows, "Failure Type", f.failure_type.clone());
        },
        None => {},
    }
    assert(rows_view(rows@) =~= detail_cells(*d));
    rows
}

/// The cells of a finding row: severity, category, title and the number of
/// affected entities.
pub open spec fn finding_cells(r: InsightsResult, k: int) -> Seq<Seq<char>> {
    let f = r.findings@[k];
    seq![severity_text(f.severity), category_text(f.category), f.title@, dec(f.affected_entities@.len())]
}

/// The table of an insights scan: one row per finding.
pub fn finding_rows(result: &InsightsResult) -> (r: Vec<Vec<String>>)
    ensures
        r@.len() == result.findings@.len(),
        forall|k: int| 0 <= k < r@.len() ==> cells(#[trigger] r@[k]) == finding_cells(*result, k),
{
    let mut r: Vec<Vec<String>> = Vec::new();
    let mut i: usize = 0;
    while i < result.findings.len()
        invariant
            i <= result.findings@.len(),
            r@.len() == i,
            forall|k: int| 0 <= k < i ==> cells(#[trigger] r@[k]) == finding_cells(*result, k),
        decreases result.findings.len() - i,
    {
        let f = &result.findings[i];
        let row = row_of(vec![
            f.severity.label().to_owned(),
            f.category.label().to_owned(),
            f.title.clone(),
            num(f.affected_entities.len() as u64),
        ]);
        assert(cells(row) =~= finding_cells(*result, i as int));
        r.push(row);
        i = i + 1;
    }
    r
}

/// The rows of a count table: each status with a count above zero, in
/// display order, then the total.
pub open spec fn count_cells(c: StatusCounts) -> Seq<Seq<Seq<char>>> {
    crate::status::all_statuses().filter(|s: WorkflowStatus| c.count_of(s) > 0)
        .map_values(|s: WorkflowStatus| seq![query_value_text(s), dec(c.count_of(s) as nat)])
        .push(seq!["Total"@, dec(c.sum() as nat)])
}

/// The table of status counts.
pub fn count_rows(c: &StatusCounts) -> (r: Vec<Vec<String>>)
    requires
        c.wf(),
        c.sum() <= u64::MAX,
    ensures
        rows_view(r@) == count_cells(*c),
{
    let all = WorkflowStatus::all();
    let ghost pred = |s: WorkflowStatus| c.count_of(s) > 0;
    let ghost cell = |s: WorkflowStatus| seq![query_value_text(s), dec(c.count_of(s) as nat)];
    let mut rows: Vec<Vec<String>> = Vec::new();
    let mut i: usize = 0;
    while i < all.len()
        invariant
            all@ == crate::status::all_statuses(),
            c.wf(),
            i <= all@.len(),
            pred == (|s: WorkflowStatus| c.count_of(s) > 0),
            cell == (|s: WorkflowStatus| seq![query_value_text(s), dec(c.count_of(s) as nat)]),
            rows_view(rows@) == all@.take(i as int).filter(pred).map_values(cell),
        decreases all.len() - i,
    {
        let s = all[i];
        let n = c.get(s);
        let ghost prev = all@.take(i as int).filter(pred);
        let ghost next = all@.take(i + 1).filter(pred);
        proof {
            assert(all@.take(i + 1).drop_last() =~= all@.take(i as int));
            assert(all@.take(i + 1).last() == s);
            reveal(Seq::filter);
            assert(next == if pred(s) { prev.push(s) } else { prev });
        }
        if n > 0 {
            let ghost before = rows@;
            let row = row_of(vec![s.as_query_value().to_owned(), num(n)]);
            assert(cells(row) =~= cell(s));
            rows.push(row);
            assert(rows_view(rows@) =~= rows_view(before).push(cells(row)));
            assert(prev.push(s).map_values(cell) =~= prev.map_values(cell).push(cell(s)));
        }
        assert(rows_view(rows@) =~= next.map_values(cell));
        i = i + 1;
    }
    assert(all@.take(all@.len() as int) =~= all@);
    let total = c.total();
    push_pair(&mut rows, "Total", num(total));
    rows
}

/// The text of a flag.
pub open spec fn bool_text(b: bool) -> Seq<char> {
    if b { "true"@ } else { "false"@ }
}

/// The rows of the configuration table: setting and value. The key itself
/// is never shown, only whether one is set.
pub open spec fn config_cells(c: Config) -> Seq<Seq<Seq<char>>> {
    seq![
        seq!["Active Profile"@, match c.active_profile { Some(p) => p@, None => "(none)"@ }],
        seq!["Temporal Address"@, c.temporal_address@],
        seq!["Temporal Namespace"@, c.temporal_namespace@],
        seq!["API Key"@, if c.temporal_api_key is Some { "(set, hidden)"@ } else { "(not set)"@ }],
        seq!["Default Limit"@, dec(c.default_limit as nat)],
        seq!["Mock Mode"@, bool_text(c.use_mock)],
        seq!["Mock Workflow Count"@, dec(c.mock_workflow_count as nat)],
    ] + if c.insights.allowlist@.len() > 0 {
        seq![seq!["Insights Allowlist"@, join_seq(c.insights.allowlist@.map_values(|s: String| s@), ", "@)]]
    } else {
        Seq::empty()
    }
}

/// The table of the effective configuration.
pub fn config_rows(c: &Config) -> (r: Vec<Vec<String>>)
    ensures
        rows_view(r@) == config_cells(*c),
{
    let mut rows: Vec<Vec<String>> = Vec::new();
    let profile = match &c.active_profile {
        Some(p) => p.clone(),
        None => "(none)".to_owned(),
    };
    push_pair(&mut rows, "Active Profile", profile);
    push_pair(&mut rows, "Temporal Address", c.temporal_address.clone());
    push_pair(&mut rows, "Temporal Namespace", c.temporal_namespace.clone());
    let key = if c.temporal_api_key.is_some() { "(set, hidden)".to_owned() } else { "(not set)".to_owned() };
    push_pair(&mut rows, "API Key", key);
    push_pair(&mut rows, "Default Limit", num(c.default_limit as u64));
    let mock = if c.use_mock { "true".to_owned() } else { "false".to_owned() };
    push_pair(&mut rows, "Mock Mode", mock);
    push_pair(&mut rows, "Mock Workflow Count", num(c.mock_workflow_count as u64));
    let ghost base = rows_view(rows@);
    let ghost want = config_cells(*c);
    assert(base.len() == 7);
    assert(base[0] == want[0]);
    assert(base[1] == want[1]);
    assert(base[3] == want[3]);
    assert(base[4] == want[4]);
    assert(base[5] == want[5]);
    assert(base[6] == want[6]);
    assert(base =~= config_cells(*c).take(7));
    if c.insights.allowlist.len() > 0 {
        let mut parts: Vec<Vec<char>> = Vec::new();
        let mut i: usize = 0;
        while i < c.insights.allowlist.len()
            invariant
                i <= c.insights.allowlist@.len(),
                parts@.len() == i,
                forall|k: int| 0 <= k < i ==> (#[trigger] parts@[k])@ == c.insights.allowlist@[k]@,
            decreases c.insights.allowlist.len() - i,
        {
            parts.push(chars_of(c.insights.allowlist[i].as_str()));
            i = i + 1;
        }
        assert(parts@.map_values(|p: Vec<char>| p@) =~= c.insights.allowlist@.map_values(|s: String| s@));
        let joined = join(&parts, ", ");
        push_pair(&mut rows, "Insights Allowlist", string_of(&joined));
        assert(rows_view(rows@) =~= config_cells(*c));
    } else {
        assert(rows_view(rows@) =~= config_cells(*c));
    }
    rows
}

} // verus!
