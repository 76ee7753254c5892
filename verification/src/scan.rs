//! The steps of an insights scan that decide rather than fetch: which
//! workflows the scan lists, when it reports progress, how many histories
//! it fetches at once, and how its findings come together. Listing
//! workflows and fetching histories is the caller's part.

use vstd::prelude::*;
use crate::filter::WorkflowFilter;
use crate::sampled::{one_decimal, push_one_decimal};
use crate::text::{dec, idec, push_dec, push_idec, push_str, string_of};
use crate::insights::{rank_findings, ranked_as, InsightFinding, InsightsConfig, InsightsResult};

verus! {

/// The filter a scan lists workflows with: the time bounds of `f`, and no
/// status, type or id condition.
pub fn scan_filter(f: &WorkflowFilter) -> (r: WorkflowFilter)
    ensures
        r == (WorkflowFilter {
            status: None,
            workflow_type: None,
            workflow_id_prefix: None,
            start_time_after: f.start_time_after,
            start_time_before: f.start_time_before,
            close_time_after: f.close_time_after,
            close_time_before: f.close_time_before,
        }),
{
    WorkflowFilter {
        status: None,
        workflow_type: None,
        workflow_id_prefix: None,
        start_time_after: f.start_time_after,
        start_time_before: f.start_time_before,
        close_time_after: f.close_time_after,
        close_time_before: f.close_time_before,
    }
}

/// How many histories a scan fetches at once: the configured number, at
/// least one.
pub fn fetch_concurrency(config: &InsightsConfig) -> (r: usize)
    ensures
        r == if config.concurrency >= 1 { config.concurrency } else { 1 },
{
    if config.concurrency >= 1 { config.concurrency } else { 1 }
}

/// Whether a scan reports its progress after `scanned` of `total`
/// histories: after every fifth, and after the last.
pub fn progress_due(scanned: usize, total: usize) -> (r: bool)
    ensures
        r == (scanned % 5 == 0 || scanned == total),
{
    scanned % 5 == 0 || scanned == total
}

/// The result of a scan that started at `start` and ended at `end`
/// (milliseconds since the epoch): the list, activity and child workflow
/// findings, ranked together.
pub fn finish_scan(
    list: Vec<InsightFinding>,
    activity: Vec<InsightFinding>,
    child: Vec<InsightFinding>,
    workflows_scanned: usize,
    histories_fetched: usize,
    start: i64,
    end: i64,
) -> (r: InsightsResult)
    requires
        i64::MIN <= end - start <= i64::MAX,
    ensures
        ranked_as(list@ + activity@ + child@, r.findings@),
        r.workflows_scanned == workflows_scanned,
        r.histories_fetched == histories_fetched,
        r.computed_at == end,
        r.scan_duration == end - start,
{
    let ghost all = list@ + activity@ + child@;
    let mut findings = list;
    let mut a = activity;
    let mut c = child;
    findings.append(&mut a);
    findings.append(&mut c);
    assert(findings@ =~= all);
    let ranked = rank_findings(findings);
    InsightsResult {
        findings: ranked,
        workflows_scanned,
        histories_fetched,
        computed_at: end,
        scan_duration: end - start,
    }
}


/// How far a running scan has got: workflows listed so far, or histories
/// fetched out of those to fetch.
#[derive(Debug, Clone, Copy, PartialEq, Eq, Structural)]
pub enum ScanPhase {
    FetchingWorkflows(usize),
    SamplingHistories(usize, usize),
}

/// `s` when there is not exactly one.
pub open spec fn plural(n: nat) -> Seq<char> {
    if n == 1 { Seq::empty() } else { "s"@ }
}

/// A scan's duration: whole milliseconds below a second, else seconds with
/// one decimal.
pub open spec fn duration_label(ms: i64) -> Seq<char> {
    if ms < 1000 { idec(ms as int) + "ms"@ } else { one_decimal(ms as int, 1000) + "s"@ }
}

/// The title of the insights view: the number of findings, then while a
/// scan runs its progress through the histories (or that it is scanning),
/// else how many workflows and histories it read and how long it took; the
/// date range label last, when one is set.
pub open spec fn insights_title_text(result: InsightsResult, scanning: bool, progress: Option<ScanPhase>,
    date_label: Option<Seq<char>>) -> Seq<char> {
    let n = result.findings@.len();
    let date = match date_label { Some(l) => " | "@ + l, None => Seq::empty() };
    let head = "Insights ("@ + dec(n) + " finding"@ + plural(n);
    if scanning {
        match progress {
            Some(ScanPhase::SamplingHistories(scanned, total)) => head + " | sampling "@ + dec(scanned as nat) + "/"@
                + dec(total as nat) + " histories"@ + date + ")"@,
            _ => head + " | scanning..."@ + date + ")"@,
        }
    } else {
        head + " | "@ + dec(result.workflows_scanned as nat) + " scanned | "@ + dec(result.histories_fetched as nat)
            + " histories | "@ + duration_label(result.scan_duration) + date + ")"@
    }
}

/// The title of the insights view.
pub fn insights_title(result: &InsightsResult, scanning: bool, progress: Option<ScanPhase>, date_label: Option<&str>) -> (r: String)
    ensures
        r@ == insights_title_text(*result, scanning, progress, match date_label { Some(l) => Some(l@), None => None }),
{
    let n = result.findings.len();
    let mut t: Vec<char> = Vec::new();
    push_str(&mut t, "Insights (");
    push_dec(&mut t, n as u64);
    push_str(&mut t, " finding");
    if n != 1 {
        push_str(&mut t, "s");
    }
    let ghost head = t@;
    if scanning {
        match progress {
            Some(ScanPhase::SamplingHistories(scanned, total)) => {
                push_str(&mut t, " | sampling ");
                push_dec(&mut t, scanned as u64);
                push_str(&mut t, "/");
                push_dec(&mut t, total as u64);
                push_str(&mut t, " histories");
            },
            _ => {
                push_str(&mut t, " | scanning...");
            },
        }
    } else {
        push_str(&mut t, " | ");
        push_dec(&mut t, result.workflows_scanned as u64);
        push_str(&mut t, " scanned | ");
        push_dec(&mut t, result.histories_fetched as u64);
        push_str(&mut t, " histories | ");
        let ms = result.scan_duration;
        if ms < 1000 {
            push_idec(&mut t, ms);
            push_str(&mut t, "ms");
        } else {
            push_one_decimal(&mut t, ms as i128, 1000);
            push_str(&mut t, "s");
        }
    }
    match date_label {
        Some(l) => {
            push_str(&mut t, " | ");
            push_str(&mut t, l);
        },
        None => {},
    }
    push_str(&mut t, ")");
    assert(t@ =~= insights_title_text(*result, scanning, progress, match date_label { Some(l) => Some(l@), None => None }));
    string_of(&t)
}


/// What the insights view shows while a scan runs and nothing has come
/// back yet: the phase it is in, with a tip to set a date range when none
/// is set (not while sampling histories).
pub open spec fn loading_text_of(progress: Option<ScanPhase>, has_date_label: bool) -> Seq<char> {
    let tip = if has_date_label { Seq::empty() } else { "\n\nTip: press 'd' to set a date range and speed up the scan"@ };
    match progress {
        Some(ScanPhase::FetchingWorkflows(n)) => "Fetching workflows... "@ + dec(n as nat) + tip,
        Some(ScanPhase::SamplingHistories(scanned, total)) => "Sampling histories... "@ + dec(scanned as nat) + "/"@
            + dec(total as nat),
        None => "Scanning workflows for health insights..."@ + tip,
    }
}

/// The insights view's text while a scan runs.
pub fn loading_text(progress: Option<ScanPhase>, has_date_label: bool) -> (r: String)
    ensures
        r@ == loading_text_of(progress, has_date_label),
{
    let mut t: Vec<char> = Vec::new();
    match progress {
        Some(ScanPhase::FetchingWorkflows(n)) => {
            push_str(&mut t, "Fetching workflows... ");
            push_dec(&mut t, n as u64);
        },
        Some(ScanPhase::SamplingHistories(scanned, total)) => {
            push_str(&mut t, "Sampling histories... ");
            push_dec(&mut t, scanned as u64);
            push_str(&mut t, "/");
            push_dec(&mut t, total as u64);
        },
        None => {
            push_str(&mut t, "Scanning workflows for health insights...");
        },
    }
    let sampling = match progress {
        Some(ScanPhase::SamplingHistories(_, _)) => true,
        _ => false,
    };
    if !sampling && !has_date_label {
        push_str(&mut t, "\n\nTip: press 'd' to set a date range and speed up the scan");
    }
    assert(t@ =~= loading_text_of(progress, has_date_label));
    string_of(&t)
}

} // verus!
