//! Insight findings: the records, their thresholds, sampling of workflows
//! for history scans, and ranking.

use vstd::prelude::*;
use crate::model::{time_ok, WorkflowSummary};
use crate::order::{key_before, stable_order, stable_order_asc};
use crate::status::{is_failed_status, severity_rank, InsightCategory, InsightSeverity, WorkflowStatus};
use crate::text::{chars_eq, chars_of, contains, contains_seq, lower_chars, lower_of, truncate_chars, truncated};

verus! {

/// One insight finding. `computed_at` is milliseconds since the epoch.
#[derive(Debug)]
pub struct InsightFinding {
    pub severity: InsightSeverity,
    pub category: InsightCategory,
    pub title: String,
    pub detail: String,
    pub affected_entities: Vec<String>,
    pub computed_at: i64,
}

/// The result of an insights scan; `scan_duration` is in milliseconds.
#[derive(Debug)]
pub struct InsightsResult {
    pub findings: Vec<InsightFinding>,
    pub workflows_scanned: usize,
    pub histories_fetched: usize,
    pub computed_at: i64,
    pub scan_duration: i64,
}

/// Settings of the insights scan: phrases whose presence in a text keeps it
/// from being reported as an error, and how many histories to fetch at once.
#[derive(Debug, Clone)]
pub struct InsightsConfig {
    pub allowlist: Vec<String>,
    pub concurrency: usize,
}

/// Threshold constants of insight detection. Rates are in percent.
pub struct InsightThresholds;

impl InsightThresholds {
    pub const MIN_WORKFLOWS_FOR_RATE: usize = 3;
    pub const FAILURE_RATE_INFO_PERCENT: u64 = 10;
    pub const FAILURE_RATE_WARNING_PERCENT: u64 = 25;
    pub const FAILURE_RATE_CRITICAL_PERCENT: u64 = 50;
    pub const ALL_FAILED_MIN_WORKFLOWS: usize = 2;
    pub const STUCK_WARNING_HOURS: i64 = 2;
    pub const STUCK_CRITICAL_HOURS: i64 = 6;
    pub const RETRY_MIN_INSTANCES: usize = 3;
    pub const RETRY_WARNING_AVG: i64 = 2;
    pub const RETRY_CRITICAL_AVG: i64 = 3;
    pub const QUEUE_LATENCY_WARNING_MS: i64 = 1000;
    pub const QUEUE_LATENCY_CRITICAL_MS: i64 = 5000;
    pub const ACTIVITY_FAILURE_WARNING: usize = 3;
    pub const ACTIVITY_FAILURE_CRITICAL: usize = 5;
    pub const LONG_ACTIVITY_WARNING_MINS: i64 = 30;
    pub const LONG_ACTIVITY_CRITICAL_MINS: i64 = 120;
    pub const ACTIVITY_RETRY_MIN_ATTEMPT: i32 = 2;
    pub const ERROR_IN_OUTPUT_WARNING: usize = 2;
    pub const ERROR_IN_OUTPUT_CRITICAL: usize = 5;
    pub const CHILD_WF_FAILURE_WARNING: usize = 2;
    pub const CHILD_WF_FAILURE_CRITICAL: usize = 5;
    pub const CHILD_WF_LATENCY_WARNING_MS: i64 = 2000;
    pub const CHILD_WF_LATENCY_CRITICAL_MS: i64 = 10000;
    pub const MAX_HISTORY_SAMPLES: usize = 30;
}

/// The error patterns scanned for in activity input and output, in order.
pub open spec fn error_patterns() -> Seq<Seq<char>> {
    seq![
        "error"@, "exception"@, "failed"@, "failure"@, "timed out"@, "timeout"@, "panic"@,
        "fatal"@, "unhandled"@, "traceback"@, "stack trace"@, "errno"@,
    ]
}

/// The error patterns scanned for in activity input and output.
pub fn error_pattern_list() -> (r: Vec<&'static str>)
    ensures
        r@.map_values(|s: &str| s@) == error_patterns(),
{
    let r = vec![
        "error", "exception", "failed", "failure", "timed out", "timeout", "panic", "fatal",
        "unhandled", "traceback", "stack trace", "errno",
    ];
    assert(r@.map_values(|s: &str| s@) =~= error_patterns());
    r
}

impl InsightsConfig {
    /// No allow-listed phrases; ten histories fetched at once.
    pub fn new() -> (r: InsightsConfig)
        ensures
            r.allowlist@.len() == 0,
            r.concurrency == 10,
    {
        InsightsConfig { allowlist: Vec::new(), concurrency: 10 }
    }

    /// Whether the (lower-cased) text holds one of the allow-listed phrases,
    /// compared in lower case.
    pub fn is_allowlisted(&self, text: &Vec<char>) -> (r: bool)
        ensures
            r == exists|i: int| 0 <= i < self.allowlist@.len()
                && contains_seq(text@, lower_of(#[trigger] self.allowlist@[i]@)),
    {
        let mut i: usize = 0;
        while i < self.allowlist.len()
            invariant
                i <= self.allowlist@.len(),
                forall|k: int| 0 <= k < i ==> !contains_seq(text@, lower_of(#[trigger] self.allowlist@[k]@)),
            decreases self.allowlist.len() - i,
        {
            let phrase = lower_chars(&chars_of(self.allowlist[i].as_str()));
            if contains(text, &phrase) {
                return true;
            }
            i = i + 1;
        }
        false
    }
}

impl Default for InsightsConfig {
    fn default() -> (r: InsightsConfig)
        ensures
            r.allowlist@.len() == 0,
            r.concurrency == 10,
    {
        InsightsConfig::new()
    }
}

/// Sort keys ranking findings: higher severity first, then more affected
/// entities first.
pub open spec fn rank_keys(f: Seq<InsightFinding>) -> Seq<i128> {
    Seq::new(f.len(), |i: int| (-(severity_rank(f[i].severity) * 0x1_0000_0000_0000_0000int + f[i].affected_entities@.len())) as i128)
}

/// `r` is `findings` reordered stably by `rank_keys`.
pub open spec fn ranked_as(findings: Seq<InsightFinding>, r: Seq<InsightFinding>) -> bool {
    exists|p: Seq<usize>|
        #[trigger] stable_order(rank_keys(findings), p) && r.len() == p.len()
            && forall|j: int| 0 <= j < p.len() ==> r[j] == findings[p[j] as int]
}

/// Orders findings: Critical first, then Warning, then Info; within one
/// severity, more affected entities first; otherwise as given.
pub fn rank_findings(findings: Vec<InsightFinding>) -> (r: Vec<InsightFinding>)
    ensures
        ranked_as(findings@, r@),
{
    let mut keys: Vec<i128> = Vec::new();
    let mut i: usize = 0;
    while i < findings.len()
        invariant
            i <= findings@.len(),
            keys@ == rank_keys(findings@).take(i as int),
        decreases findings.len() - i,
    {
        let f = &findings[i];
        let k: i128 = -((f.severity.rank() as i128) * 0x1_0000_0000_0000_0000i128 + f.affected_entities.len() as i128);
        keys.push(k);
        assert(keys@ =~= rank_keys(findings@).take(i + 1));
        i = i + 1;
    }
    assert(keys@ =~= rank_keys(findings@));
    let p = stable_order_asc(&keys);
    let ghost orig = findings@;
    let mut slots: Vec<Option<InsightFinding>> = Vec::new();
    let mut rest = findings;
    while rest.len() > 0
        invariant
            slots@.len() + rest@.len() == orig.len(),
            forall|k: int| 0 <= k < slots@.len() ==> slots@[k] == Some(orig[k]),
            forall|k: int| 0 <= k < rest@.len() ==> rest@[k] == orig[slots@.len() + k],
        decreases rest.len(),
    {
        let f = rest.remove(0);
        slots.push(Some(f));
    }
    let mut r: Vec<InsightFinding> = Vec::new();
    let mut j: usize = 0;
    while j < p.len()
        invariant
            stable_order(keys@, p@),
            keys@.len() == orig.len(),
            slots@.len() == orig.len(),
            j <= p@.len(),
            r@.len() == j,
            forall|k: int| 0 <= k < j ==> r@[k] == orig[p@[k] as int],
            forall|k: int| 0 <= k < orig.len() ==> (slots@[k] == Some(orig[k]) || slots@[k] is None),
            forall|k: int| j <= k < p@.len() ==> slots@[p@[k] as int] == Some(orig[p@[k] as int]),
        decreases p.len() - j,
    {
        let k = p[j];
        proof {
            assert(slots@[p@[j as int] as int] == Some(orig[p@[j as int] as int]));
        }
        let ghost before = slots@;
        let slot = slots.remove(k);
        slots.insert(k, None);
        proof {
            assert(slot == before[k as int]);
            assert(slot == Some(orig[k as int]));
            assert(slots@ =~= before.update(k as int, None));
            assert forall|m: int| j + 1 <= m < p@.len() implies slots@[p@[m] as int] == Some(orig[p@[m] as int]) by {
                assert(key_before(
                    keys@[p@[j as int] as int] as int,
                    p@[j as int] as int,
                    keys@[p@[m] as int] as int,
                    p@[m] as int,
                ));
            }
        }
        match slot {
            Some(f) => r.push(f),
            None => {},
        }
        j = j + 1;
    }
    r
}

/// Position `i` of `ws` is a candidate of phase `phase` of sampling:
/// failed (0), running (1) or completed (2).
pub open spec fn sample_phase(w: WorkflowSummary, phase: int) -> bool {
    if phase == 0 {
        is_failed_status(w.status)
    } else if phase == 1 {
        w.status == WorkflowStatus::Running
    } else {
        w.status == WorkflowStatus::Completed
    }
}

/// The workflow ids of the positions `sel` of `ws`.
pub open spec fn ids_at(ws: Seq<WorkflowSummary>, sel: Seq<int>) -> Seq<Seq<char>> {
    sel.map_values(|i: int| ws[i].workflow_id@)
}

/// Adds the candidate positions `cand`, in order, to `acc`, skipping those
/// whose workflow id is already selected and stopping at `max` positions.
pub open spec fn pick(ws: Seq<WorkflowSummary>, cand: Seq<int>, acc: Seq<int>, max: nat) -> Seq<int>
    decreases cand.len(),
{
    if cand.len() == 0 {
        acc
    } else {
        let prev = pick(ws, cand.drop_last(), acc, max);
        let c = cand.last();
        if prev.len() < max && !ids_at(ws, prev).contains(ws[c].workflow_id@) {
            prev.push(c)
        } else {
            prev
        }
    }
}

/// The positions of `ws` whose workflow has a status of `phase`, in order.
pub open spec fn phase_positions(ws: Seq<WorkflowSummary>, phase: int, n: int) -> Seq<int>
    decreases n,
{
    if n <= 0 {
        Seq::empty()
    } else if sample_phase(ws[n - 1], phase) {
        phase_positions(ws, phase, n - 1).push(n - 1)
    } else {
        phase_positions(ws, phase, n - 1)
    }
}

/// Start-time sort keys of the running workflows, in their order in `ws`.
pub open spec fn running_keys(ws: Seq<WorkflowSummary>, run: Seq<int>) -> Seq<i128> {
    Seq::new(run.len(), |k: int| ws[run[k]].start_time as i128)
}

} // verus!
