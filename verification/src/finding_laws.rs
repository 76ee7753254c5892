//! When the detectors report a finding, stated per group: the thresholds
//! that decide whether a workflow type or an activity type gets a finding,
//! its severity, and that the finding is among those the detectors return.

use vstd::prelude::*;
use crate::activity::ActivityExecution;
use crate::child::ChildWorkflowExecution;
use crate::activity_findings::{
    activity_findings, activity_type_keys, attempt_sum, failed_activities, failure_hotspot_finding, hotspot_section,
    io_section, long_running_finding, queue_keys, queue_latency_finding, queue_section, retry_section,
    retried, retry_storm_finding, retry_storm_section,
};
use crate::findings::{
    FindingModel, failed_among, percent_value, hours_between, ids_of, lemma_positions_bounded, list_findings, max_hours, stuck_finding,
    stuck_keys, type_finding, type_keys,
};
use crate::grouping::{collect, distinct, lemma_distinct, positions_of, present};
use crate::insights::InsightsConfig;
use crate::model::WorkflowSummary;
use crate::sampled::{
    child_failure_finding, child_findings, child_latency_finding, child_members, child_opts, child_type_keys,
    failed_children, parent_ids, with_latency,
};
use crate::status::{InsightCategory, InsightSeverity, WorkflowStatus};
use crate::text::dec;

verus! {

/// Every value an option list holds at some position is among the values
/// it collects.
proof fn lemma_collect_has<T>(opts: Seq<Option<T>>, g: int)
    requires
        0 <= g < opts.len(),
        opts[g] is Some,
    ensures
        collect(opts).contains(opts[g]->0),
    decreases opts.len(),
{
    let prev = collect(opts.drop_last());
    if g == opts.len() - 1 {
        assert(collect(opts) == prev.push(opts[g]->0));
        assert(collect(opts)[prev.len() as int] == opts[g]->0);
    } else {
        assert(opts.drop_last()[g] == opts[g]);
        lemma_collect_has(opts.drop_last(), g);
        let k = choose|k: int| 0 <= k < prev.len() && prev[k] == opts[g]->0;
        match opts.last() {
            Some(x) => {
                assert(collect(opts) == prev.push(x));
                assert(collect(opts)[k] == opts[g]->0);
            },
            None => {},
        }
    }
}

/// A key held at some position is among the present keys.
pub proof fn lemma_present_has(keys: Seq<Option<Seq<char>>>, i: int)
    requires
        0 <= i < keys.len(),
        keys[i] is Some,
    ensures
        present(keys).contains(keys[i]->0),
    decreases keys.len(),
{
    let prev = present(keys.drop_last());
    if i == keys.len() - 1 {
        assert(present(keys) == prev.push(keys[i]->0));
        assert(present(keys)[prev.len() as int] == keys[i]->0);
    } else {
        assert(keys.drop_last()[i] == keys[i]);
        lemma_present_has(keys.drop_last(), i);
        let k = choose|k: int| 0 <= k < prev.len() && prev[k] == keys[i]->0;
        match keys.last() {
            Some(x) => {
                assert(present(keys) == prev.push(x));
                assert(present(keys)[k] == keys[i]->0);
            },
            None => {},
        }
    }
}

/// The position, among the distinct present keys, of a key held at
/// position `i`.
proof fn lemma_group_index(keys: Seq<Option<Seq<char>>>, i: int) -> (g: int)
    requires
        0 <= i < keys.len(),
        keys[i] is Some,
    ensures
        0 <= g < distinct(present(keys)).len(),
        distinct(present(keys))[g] == keys[i]->0,
{
    lemma_present_has(keys, i);
    lemma_distinct(present(keys));
    let ts = distinct(present(keys));
    choose|g: int| 0 <= g < ts.len() && ts[g] == keys[i]->0
}

/// Every position holding a key is among the positions of that key.
proof fn lemma_positions_complete(keys: Seq<Option<Seq<char>>>, t: Seq<char>)
    requires
        keys.len() <= usize::MAX,
    ensures
        forall|j: int| 0 <= j < keys.len() && keys[j] == Some(t) ==> positions_of(keys, t).contains(j as usize),
    decreases keys.len(),
{
    if keys.len() > 0 {
        let prev = positions_of(keys.drop_last(), t);
        lemma_positions_complete(keys.drop_last(), t);
        assert forall|j: int| 0 <= j < keys.len() && keys[j] == Some(t) implies positions_of(keys, t).contains(j as usize) by {
            if j < keys.len() - 1 {
                assert(keys.drop_last()[j] == Some(t));
                let k = choose|k: int| 0 <= k < prev.len() && prev[k] == j as usize;
                assert(positions_of(keys, t) == prev.push((keys.len() - 1) as usize) || positions_of(keys, t) == prev);
                assert(positions_of(keys, t)[k] == j as usize);
            } else {
                assert(positions_of(keys, t) == prev.push((keys.len() - 1) as usize));
                assert(positions_of(keys, t)[prev.len() as int] == j as usize);
            }
        }
    }
}

/// The largest running time among a nonempty group is the running time of
/// one of its members, and no member has run longer.
proof fn lemma_max_hours(ws: Seq<WorkflowSummary>, now: i64, m: Seq<usize>)
    requires
        m.len() > 0,
    ensures
        exists|k: int| 0 <= k < m.len() && hours_between(now, ws[m[k] as int].start_time) == max_hours(ws, now, m),
        forall|k: int| 0 <= k < m.len() ==> hours_between(now, ws[#[trigger] m[k] as int].start_time) <= max_hours(ws, now, m),
    decreases m.len(),
{
    let last = m.len() - 1;
    if m.len() > 1 {
        lemma_max_hours(ws, now, m.drop_last());
        let p = m.drop_last();
        assert forall|k: int| 0 <= k < m.len() implies hours_between(now, ws[#[trigger] m[k] as int].start_time) <= max_hours(ws, now, m) by {
            if k < last {
                assert(m[k] == p[k]);
            }
        }
        let j = choose|j: int| 0 <= j < p.len() && hours_between(now, ws[p[j] as int].start_time) == max_hours(ws, now, p);
        assert(m[j] == p[j]);
        assert(hours_between(now, ws[m[last] as int].start_time) == max_hours(ws, now, m)
            || hours_between(now, ws[m[j] as int].start_time) == max_hours(ws, now, m));
    } else {
        assert(hours_between(now, ws[m[0] as int].start_time) == max_hours(ws, now, m));
    }
}


/// The findings of `s` whose category is one of `cs`, in order.
pub open spec fn of_kinds(s: Seq<FindingModel>, cs: Set<InsightCategory>) -> Seq<FindingModel>
    decreases s.len(),
{
    if s.len() == 0 {
        Seq::empty()
    } else {
        let p = of_kinds(s.drop_last(), cs);
        if cs.contains(s.last().category) { p.push(s.last()) } else { p }
    }
}

/// Keeping some categories distributes over concatenation.
proof fn lemma_of_kinds_add(a: Seq<FindingModel>, b: Seq<FindingModel>, cs: Set<InsightCategory>)
    ensures
        of_kinds(a + b, cs) == of_kinds(a, cs) + of_kinds(b, cs),
    decreases b.len(),
{
    if b.len() == 0 {
        assert(a + b =~= a);
        assert(of_kinds(a, cs) + of_kinds(b, cs) =~= of_kinds(a, cs));
    } else {
        lemma_of_kinds_add(a, b.drop_last(), cs);
        assert((a + b).drop_last() =~= a + b.drop_last());
        assert((a + b).last() == b.last());
        let x = b.last();
        if cs.contains(x.category) {
            assert(of_kinds(a, cs) + of_kinds(b, cs) =~= (of_kinds(a, cs) + of_kinds(b.drop_last(), cs)).push(x));
        } else {
            assert(of_kinds(a, cs) + of_kinds(b, cs) =~= of_kinds(a, cs) + of_kinds(b.drop_last(), cs));
        }
    }
}

/// Keeping the categories of a list of optional findings keeps the present
/// findings whose category is kept.
proof fn lemma_of_kinds_collect(opts: Seq<Option<FindingModel>>, cs: Set<InsightCategory>)
    ensures
        of_kinds(collect(opts), cs) == collect(Seq::new(opts.len(), |g: int|
            if opts[g] matches Some(x) && cs.contains(x.category) { opts[g] } else { None })),
    decreases opts.len(),
{
    let kept = Seq::new(opts.len(), |g: int|
        if opts[g] matches Some(x) && cs.contains(x.category) { opts[g] } else { None });
    if opts.len() > 0 {
        let o2 = opts.drop_last();
        lemma_of_kinds_collect(o2, cs);
        let kept2 = Seq::new(o2.len(), |g: int|
            if o2[g] matches Some(x) && cs.contains(x.category) { o2[g] } else { None });
        assert(kept.drop_last() =~= kept2);
        match opts.last() {
            Some(x) => {
                assert(collect(opts) == collect(o2).push(x));
                assert(collect(opts).drop_last() =~= collect(o2));
            },
            None => {},
        }
    } else {
        assert(kept =~= Seq::<Option<FindingModel>>::empty());
    }
}

/// The positions of the present entries of a list of optional findings, in
/// order: the `k`-th collected finding stands at position `idx[k]`, and every
/// present entry is among them.
proof fn lemma_collect_positions(opts: Seq<Option<FindingModel>>) -> (idx: Seq<int>)
    ensures
        idx.len() == collect(opts).len(),
        forall|k: int| 0 <= k < idx.len() ==> 0 <= #[trigger] idx[k] < opts.len()
            && opts[idx[k]] == Some(collect(opts)[k]),
        forall|a: int, b: int| 0 <= a < b < idx.len() ==> idx[a] < idx[b],
        forall|g: int| 0 <= g < opts.len() && opts[g] is Some ==> idx.contains(g),
    decreases opts.len(),
{
    if opts.len() == 0 {
        Seq::empty()
    } else {
        let n = opts.len() - 1;
        let o2 = opts.drop_last();
        let prev = lemma_collect_positions(o2);
        let pc = collect(o2);
        assert forall|k: int| 0 <= k < prev.len() implies opts[prev[k]] == Some(pc[k]) by {
            assert(o2[prev[k]] == opts[prev[k]]);
        }
        match opts.last() {
            Some(x) => {
                let idx = prev.push(n);
                assert(collect(opts) == pc.push(x));
                assert forall|k: int| 0 <= k < idx.len() implies 0 <= #[trigger] idx[k] < opts.len()
                    && opts[idx[k]] == Some(collect(opts)[k]) by {
                    if k < prev.len() {
                        assert(idx[k] == prev[k]);
                        assert(collect(opts)[k] == pc[k]);
                    }
                }
                assert forall|g: int| 0 <= g < opts.len() && opts[g] is Some implies idx.contains(g) by {
                    if g == n {
                        assert(idx[prev.len() as int] == g);
                    } else {
                        assert(o2[g] is Some);
                        assert(prev.contains(g));
                        let k = choose|k: int| 0 <= k < prev.len() && prev[k] == g;
                        assert(idx[k] == g);
                    }
                }
                idx
            },
            None => {
                assert(collect(opts) == pc);
                assert forall|g: int| 0 <= g < opts.len() && opts[g] is Some implies prev.contains(g) by {
                    assert(o2[g] is Some);
                }
                prev
            },
        }
    }
}

/// Subjects taken at increasing positions where the subjects of present
/// entries differ are distinct.
proof fn lemma_subjects_distinct(ts: Seq<Seq<char>>, opts: Seq<Option<FindingModel>>, idx: Seq<int>)
    requires
        ts.len() == opts.len(),
        forall|a: int, b: int| 0 <= a < b < opts.len() && opts[a] is Some && opts[b] is Some ==> ts[a] != ts[b],
        forall|k: int| 0 <= k < idx.len() ==> 0 <= #[trigger] idx[k] < opts.len() && opts[idx[k]] is Some,
        forall|a: int, b: int| 0 <= a < b < idx.len() ==> idx[a] < idx[b],
    ensures
        idx.map_values(|g: int| ts[g]).no_duplicates(),
{
    let sj = idx.map_values(|g: int| ts[g]);
    assert forall|a: int, b: int| 0 <= a < b < sj.len() implies sj[a] != sj[b] by {
        assert(idx[a] < idx[b]);
        assert(opts[idx[a]] is Some && opts[idx[b]] is Some);
    }
}

/// A key among the present keys is held at some position.
pub proof fn lemma_present_from(keys: Seq<Option<Seq<char>>>, t: Seq<char>)
    requires
        present(keys).contains(t),
    ensures
        exists|i: int| 0 <= i < keys.len() && keys[i] == Some(t),
    decreases keys.len(),
{
    let prev = present(keys.drop_last());
    let k = choose|k: int| 0 <= k < present(keys).len() && present(keys)[k] == t;
    match keys.last() {
        Some(x) => {
            assert(present(keys) == prev.push(x));
            if k == prev.len() {
                assert(keys[keys.len() - 1] == Some(t));
            } else {
                assert(prev[k] == t);
                lemma_present_from(keys.drop_last(), t);
                let i = choose|i: int| 0 <= i < keys.drop_last().len() && keys.drop_last()[i] == Some(t);
                assert(keys[i] == Some(t));
            }
        },
        None => {
            assert(present(keys) == prev);
            lemma_present_from(keys.drop_last(), t);
            let i = choose|i: int| 0 <= i < keys.drop_last().len() && keys.drop_last()[i] == Some(t);
            assert(keys[i] == Some(t));
        },
    }
}

/// A sampled activity type gets a retry-storm finding exactly when three or
/// more of its activities were sampled and their attempt numbers average
/// two or more. The finding is critical exactly when they average three or
/// more, it names the workflows of the retried ones, and it is among the
/// activity findings.
pub proof fn law_retry_storm_threshold(
    items: Seq<(Seq<char>, ActivityExecution)>,
    i: int,
    cfg: InsightsConfig,
    now: i64,
    meds: Seq<int>,
)
    requires
        0 <= i < items.len(),
    ensures
        ({
            let t = items[i].1.activity_type@;
            let m = positions_of(activity_type_keys(items), t);
            let n = m.len() as int;
            let sum = attempt_sum(items, m);
            &&& (retry_storm_finding(items, t, m) is Some <==> (n >= 3 && sum >= 2 * n))
            &&& retry_storm_finding(items, t, m) matches Some(f) ==> {
                &&& activity_findings(cfg, items, now, meds).contains(f)
                &&& f.category == InsightCategory::RetryStorm
                &&& (f.severity == InsightSeverity::Critical <==> sum >= 3 * n)
                &&& f.affected == distinct(parent_ids(items, retried(items, m)))
            }
        }),
{
    let keys = activity_type_keys(items);
    let t = items[i].1.activity_type@;
    let m = positions_of(keys, t);
    if retry_storm_finding(items, t, m) is Some {
        let g = lemma_group_index(keys, i);
        let ts = distinct(present(keys));
        let opts = Seq::new(ts.len(), |h: int| retry_storm_finding(items, ts[h], positions_of(keys, ts[h])));
        assert(opts[g] == retry_storm_finding(items, t, m));
        lemma_collect_has(opts, g);
        let f = retry_storm_finding(items, t, m)->0;
        let all = activity_findings(cfg, items, now, meds);
        let k = choose|k: int| 0 <= k < collect(opts).len() && collect(opts)[k] == f;
        assert(all[k] == f);
    }
}

/// A sampled activity type gets a failure-hotspot finding exactly when
/// three or more of its activities failed. The finding is critical exactly
/// when five or more did, it names the workflows of the failed ones, and it
/// is among the activity findings.
pub proof fn law_failure_hotspot_threshold(
    items: Seq<(Seq<char>, ActivityExecution)>,
    i: int,
    cfg: InsightsConfig,
    now: i64,
    meds: Seq<int>,
)
    requires
        0 <= i < items.len(),
    ensures
        ({
            let t = items[i].1.activity_type@;
            let m = positions_of(activity_type_keys(items), t);
            let failed = failed_activities(items, m);
            &&& (failure_hotspot_finding(items, t, m) is Some <==> failed.len() >= 3)
            &&& failure_hotspot_finding(items, t, m) matches Some(f) ==> {
                &&& activity_findings(cfg, items, now, meds).contains(f)
                &&& f.category == InsightCategory::ActivityFailure
                &&& (f.severity == InsightSeverity::Critical <==> failed.len() >= 5)
                &&& f.affected == distinct(parent_ids(items, failed))
                &&& f.title == t + ": "@ + dec(failed.len()) + " failures in "@
                    + dec(distinct(parent_ids(items, failed)).len()) + " workflows"@
            }
        }),
{
    let keys = activity_type_keys(items);
    let t = items[i].1.activity_type@;
    let m = positions_of(keys, t);
    if failure_hotspot_finding(items, t, m) is Some {
        let g = lemma_group_index(keys, i);
        let ts = distinct(present(keys));
        let opts = Seq::new(ts.len(), |h: int| failure_hotspot_finding(items, ts[h], positions_of(keys, ts[h])));
        assert(opts[g] == failure_hotspot_finding(items, t, m));
        lemma_collect_has(opts, g);
        let f = failure_hotspot_finding(items, t, m)->0;
        let all = activity_findings(cfg, items, now, meds);
        let k = choose|k: int| 0 <= k < collect(opts).len() && collect(opts)[k] == f;
        let a = crate::activity_findings::retry_storm_section(items)
            + crate::activity_findings::queue_section(items, meds);
        assert(all[a.len() + k] == f);
    }
}

/// A workflow type whose workflows are listed gets an all-failed finding
/// exactly when two or more are listed and every one of them failed, was
/// terminated or timed out. Otherwise it gets a failure-rate finding
/// exactly when three or more are listed and at least a tenth of them
/// failed; that finding is critical from a half on, a warning from a
/// quarter on, and informational below. Either finding is among the list
/// findings.
pub proof fn law_type_finding_thresholds(ws: Seq<WorkflowSummary>, i: int, now: i64)
    requires
        0 <= i < ws.len(),
    ensures
        ({
            let t = ws[i].workflow_type@;
            let m = positions_of(type_keys(ws), t);
            let total = m.len() as int;
            let nf = failed_among(ws, m).len() as int;
            let all_failed = total >= 2 && nf == total;
            &&& (type_finding(ws, t) matches Some(f) && f.category == InsightCategory::TypeAnomaly) <==> all_failed
            &&& (type_finding(ws, t) matches Some(f) && f.category == InsightCategory::FailureRate)
                <==> (!all_failed && total >= 3 && 100 * nf >= 10 * total)
            &&& type_finding(ws, t) matches Some(f) ==> {
                &&& list_findings(ws, now).contains(f)
                &&& f.category == InsightCategory::TypeAnomaly ==> f.title
                    == t + ": all "@ + dec(total as nat) + " executions failed/terminated/timed out"@
                &&& f.category == InsightCategory::FailureRate ==> f.title == t + ": "@ + dec(nf as nat) + "/"@
                    + dec(total as nat) + " failed ("@ + dec(percent_value(nf, total) as nat) + "%)"@
                &&& f.category == InsightCategory::FailureRate ==> {
                    &&& (f.severity == InsightSeverity::Critical <==> 100 * nf >= 50 * total)
                    &&& (f.severity == InsightSeverity::Warning <==> 100 * nf >= 25 * total && 100 * nf < 50 * total)
                    &&& (f.severity == InsightSeverity::Info <==> 100 * nf < 25 * total)
                }
            }
        }),
{
    let keys = type_keys(ws);
    let t = ws[i].workflow_type@;
    let m = positions_of(keys, t);
    let total = m.len() as int;
    let nf = failed_among(ws, m).len() as int;
    if total >= 3 && 100 * nf >= 10 * total {
        assert(nf > 0);
    }
    if type_finding(ws, t) is Some {
        let g = lemma_group_index(keys, i);
        let ts = distinct(present(keys));
        let opts = Seq::new(ts.len(), |h: int| type_finding(ws, ts[h]));
        assert(opts[g] == type_finding(ws, t));
        lemma_collect_has(opts, g);
        let f = type_finding(ws, t)->0;
        let k = choose|k: int| 0 <= k < collect(opts).len() && collect(opts)[k] == f;
        assert(list_findings(ws, now)[k] == f);
    }
}

/// A running workflow that has run for two hours or more gives its type a
/// stuck-workflow finding among the list findings. The finding names
/// exactly the running workflows of that type that have run that long, and
/// it is critical exactly when one of them has run for six hours or more.
pub proof fn law_stuck_threshold(ws: Seq<WorkflowSummary>, now: i64, i: int)
    requires
        ws.len() <= usize::MAX,
        0 <= i < ws.len(),
        ws[i].status == WorkflowStatus::Running,
        hours_between(now, ws[i].start_time) >= 2,
    ensures
        ({
            let t = ws[i].workflow_type@;
            let m = positions_of(stuck_keys(ws, now), t);
            let f = stuck_finding(ws, now, t);
            &&& list_findings(ws, now).contains(f)
            &&& f.category == InsightCategory::StuckWorkflow
            &&& f.affected == ids_of(ws, m)
            &&& forall|k: int| 0 <= k < m.len() ==> {
                &&& (#[trigger] m[k]) < ws.len()
                &&& ws[m[k] as int].status == WorkflowStatus::Running
                &&& ws[m[k] as int].workflow_type@ == t
                &&& hours_between(now, ws[m[k] as int].start_time) >= 2
            }
            &&& forall|j: int| 0 <= j < ws.len() && ws[j].status == WorkflowStatus::Running
                && ws[j].workflow_type@ == t && hours_between(now, ws[j].start_time) >= 2
                ==> m.contains(j as usize)
            &&& (f.severity == InsightSeverity::Critical <==> exists|k: int| 0 <= k < m.len()
                && hours_between(now, ws[#[trigger] m[k] as int].start_time) >= 6)
        }),
{
    let keys = stuck_keys(ws, now);
    let t = ws[i].workflow_type@;
    let m = positions_of(keys, t);
    assert(keys[i] == Some(t));
    let g = lemma_group_index(keys, i);
    let stuck = distinct(present(keys));
    let types = distinct(present(type_keys(ws)));
    let first = collect(Seq::new(types.len(), |h: int| type_finding(ws, types[h])));
    let second = Seq::new(stuck.len(), |h: int| stuck_finding(ws, now, stuck[h]));
    assert(list_findings(ws, now)[first.len() + g] == second[g]);
    lemma_positions_bounded(keys, t);
    lemma_positions_complete(keys, t);
    assert forall|j: int| 0 <= j < ws.len() && ws[j].status == WorkflowStatus::Running
        && ws[j].workflow_type@ == t && hours_between(now, ws[j].start_time) >= 2 implies m.contains(j as usize) by {
        assert(keys[j] == Some(t));
    }
    assert(m.contains(i as usize));
    lemma_max_hours(ws, now, m);
}


/// A sampled child workflow type gets a failure finding exactly when two or
/// more of its child workflows failed; it is critical exactly when five or
/// more did and names the parents of the failed ones. It gets a
/// start-latency finding exactly when some of its children have a start
/// latency and the median of those is two seconds or more; that one is
/// critical exactly when the median is ten seconds or more. Both are among
/// the child workflow findings.
pub proof fn law_child_thresholds(items: Seq<(Seq<char>, ChildWorkflowExecution)>, i: int, meds: Seq<int>)
    requires
        0 <= i < items.len(),
        meds.len() == distinct(present(child_type_keys(items))).len(),
    ensures
        ({
            let t = items[i].1.workflow_type@;
            let m = child_members(items, t);
            let failed = failed_children(items, m);
            &&& (child_failure_finding(items, t, m) is Some <==> failed.len() >= 2)
            &&& child_failure_finding(items, t, m) matches Some(f) ==> {
                &&& child_findings(items, meds).contains(f)
                &&& f.category == InsightCategory::ChildWorkflowFailure
                &&& (f.severity == InsightSeverity::Critical <==> failed.len() >= 5)
                &&& f.affected == distinct(parent_ids(items, failed))
            }
            &&& exists|g: int| {
                &&& 0 <= g < meds.len()
                &&& distinct(present(child_type_keys(items)))[g] == t
                &&& (child_latency_finding(items, t, m, #[trigger] meds[g]) is Some
                    <==> (with_latency(items, m).len() > 0 && meds[g] >= 2000))
                &&& child_latency_finding(items, t, m, meds[g]) matches Some(f) ==> {
                    &&& child_findings(items, meds).contains(f)
                    &&& f.category == InsightCategory::ChildWorkflowLatency
                    &&& (f.severity == InsightSeverity::Critical <==> meds[g] >= 10000)
                }
            }
        }),
{
    let keys = child_type_keys(items);
    let t = items[i].1.workflow_type@;
    let m = child_members(items, t);
    let g = lemma_group_index(keys, i);
    let opts = child_opts(items, meds);
    assert((2 * g) % 2 == 0 && (2 * g) / 2 == g);
    assert((2 * g + 1) % 2 == 1 && (2 * g + 1) / 2 == g);
    assert(opts[2 * g] == child_failure_finding(items, t, m));
    assert(opts[2 * g + 1] == child_latency_finding(items, t, m, meds[g]));
    if opts[2 * g] is Some {
        lemma_collect_has(opts, 2 * g);
    }
    if opts[2 * g + 1] is Some {
        lemma_collect_has(opts, 2 * g + 1);
    }
}


/// Keeping categories that every finding has keeps them all.
proof fn lemma_of_kinds_all(s: Seq<FindingModel>, cs: Set<InsightCategory>)
    requires
        forall|k: int| 0 <= k < s.len() ==> cs.contains(#[trigger] s[k].category),
    ensures
        of_kinds(s, cs) == s,
    decreases s.len(),
{
    if s.len() > 0 {
        lemma_of_kinds_all(s.drop_last(), cs);
        assert(cs.contains(s[s.len() - 1].category));
        assert(s.drop_last().push(s.last()) =~= s);
    }
}

/// Keeping categories that no finding has keeps none.
proof fn lemma_of_kinds_none(s: Seq<FindingModel>, cs: Set<InsightCategory>)
    requires
        forall|k: int| 0 <= k < s.len() ==> !cs.contains(#[trigger] s[k].category),
    ensures
        of_kinds(s, cs) == Seq::<FindingModel>::empty(),
    decreases s.len(),
{
    if s.len() > 0 {
        lemma_of_kinds_none(s.drop_last(), cs);
        assert(!cs.contains(s[s.len() - 1].category));
    }
}

/// Every collected finding has a category that every present entry has.
proof fn lemma_collect_kinds(opts: Seq<Option<FindingModel>>, cs: Set<InsightCategory>)
    requires
        forall|g: int| 0 <= g < opts.len() && (#[trigger] opts[g]) is Some ==> cs.contains(opts[g]->0.category),
    ensures
        forall|k: int| 0 <= k < collect(opts).len() ==> cs.contains(#[trigger] collect(opts)[k].category),
{
    let idx = lemma_collect_positions(opts);
    assert forall|k: int| 0 <= k < collect(opts).len() implies cs.contains(#[trigger] collect(opts)[k].category) by {
        assert(opts[idx[k]] == Some(collect(opts)[k]));
    }
}

/// Every collected finding has a category that no present entry lacks the
/// complement of: none is kept.
proof fn lemma_collect_kinds_none(opts: Seq<Option<FindingModel>>, cs: Set<InsightCategory>)
    requires
        forall|g: int| 0 <= g < opts.len() && (#[trigger] opts[g]) is Some ==> !cs.contains(opts[g]->0.category),
    ensures
        of_kinds(collect(opts), cs) == Seq::<FindingModel>::empty(),
{
    let idx = lemma_collect_positions(opts);
    assert forall|k: int| 0 <= k < collect(opts).len() implies !cs.contains(#[trigger] collect(opts)[k].category) by {
        assert(opts[idx[k]] == Some(collect(opts)[k]));
    }
    lemma_of_kinds_none(collect(opts), cs);
}

/// The subjects of the findings made per distinct present key: one subject
/// per collected finding, none twice, each a present key whose finding it
/// is, and every present key with a finding among them.
proof fn lemma_per_subject(keys: Seq<Option<Seq<char>>>, f: spec_fn(Seq<char>) -> Option<FindingModel>) -> (subj: Seq<Seq<char>>)
    ensures
        ({
            let ts = distinct(present(keys));
            let found = collect(Seq::new(ts.len(), |g: int| f(ts[g])));
            &&& subj.len() == found.len()
            &&& subj.no_duplicates()
            &&& forall|k: int| 0 <= k < subj.len() ==> f(#[trigger] subj[k]) == Some(found[k]) && present(keys).contains(subj[k])
            &&& forall|t: Seq<char>| present(keys).contains(t) && f(t) is Some ==> subj.contains(t)
        }),
{
    let ts = distinct(present(keys));
    let opts = Seq::new(ts.len(), |g: int| f(ts[g]));
    lemma_distinct(present(keys));
    let idx = lemma_collect_positions(opts);
    let subj = idx.map_values(|g: int| ts[g]);
    lemma_subjects_distinct(ts, opts, idx);
    assert forall|k: int| 0 <= k < subj.len() implies f(#[trigger] subj[k]) == Some(collect(opts)[k])
        && present(keys).contains(subj[k]) by {
        assert(subj[k] == ts[idx[k]]);
        assert(ts.contains(ts[idx[k]]));
    }
    assert forall|t: Seq<char>| present(keys).contains(t) && f(t) is Some implies subj.contains(t) by {
        let g = choose|g: int| 0 <= g < ts.len() && ts[g] == t;
        assert(opts[g] is Some);
        assert(idx.contains(g));
        let k = choose|k: int| 0 <= k < idx.len() && idx[k] == g;
        assert(subj[k] == t);
    }
    subj
}

/// Whether some sampled activity has type `t`.
pub open spec fn sampled_type(items: Seq<(Seq<char>, ActivityExecution)>, t: Seq<char>) -> bool {
    exists|i: int| 0 <= i < items.len() && items[i].1.activity_type@ == t
}

/// The activity types present are the types of the sampled activities.
proof fn lemma_sampled_type(items: Seq<(Seq<char>, ActivityExecution)>, t: Seq<char>)
    ensures
        present(activity_type_keys(items)).contains(t) <==> sampled_type(items, t),
{
    let keys = activity_type_keys(items);
    if present(keys).contains(t) {
        lemma_present_from(keys, t);
        let i = choose|i: int| 0 <= i < keys.len() && keys[i] == Some(t);
        assert(items[i].1.activity_type@ == t);
    }
    if sampled_type(items, t) {
        let i = choose|i: int| 0 <= i < items.len() && items[i].1.activity_type@ == t;
        assert(keys[i] == Some(t));
        lemma_present_has(keys, i);
    }
}

/// The retry-storm finding of activity type `t`, if any.
pub open spec fn retry_storm_of(items: Seq<(Seq<char>, ActivityExecution)>, t: Seq<char>) -> Option<FindingModel> {
    retry_storm_finding(items, t, positions_of(activity_type_keys(items), t))
}

/// The failure-hotspot finding of activity type `t`, if any.
pub open spec fn hotspot_of(items: Seq<(Seq<char>, ActivityExecution)>, t: Seq<char>) -> Option<FindingModel> {
    failure_hotspot_finding(items, t, positions_of(activity_type_keys(items), t))
}

/// The activity findings split into their sections, the sections given
/// by category.
proof fn lemma_activity_kinds(cfg: InsightsConfig, items: Seq<(Seq<char>, ActivityExecution)>, now: i64, meds: Seq<int>,
    c: InsightCategory)
    requires
        c == InsightCategory::RetryStorm || c == InsightCategory::ActivityFailure,
    ensures
        of_kinds(activity_findings(cfg, items, now, meds), set![c]) == if c == InsightCategory::RetryStorm {
            retry_storm_section(items)
        } else {
            hotspot_section(items)
        },
{
    let cs = set![c];
    let keys = activity_type_keys(items);
    let ts = distinct(present(keys));
    let a = retry_storm_section(items);
    let b = queue_section(items, meds);
    let h = hotspot_section(items);
    let rt = retry_section(items);
    let io = io_section(cfg, items);
    let lr: Seq<FindingModel> = match long_running_finding(items, now) {
        Some(f) => seq![f],
        None => Seq::empty(),
    };
    lemma_of_kinds_add(a, b, cs);
    lemma_of_kinds_add(a + b, h, cs);
    lemma_of_kinds_add(a + b + h, rt, cs);
    lemma_of_kinds_add(a + b + h + rt, io, cs);
    lemma_of_kinds_add(a + b + h + rt + io, lr, cs);
    let ra = Seq::new(ts.len(), |g: int| retry_storm_finding(items, ts[g], positions_of(keys, ts[g])));
    let ha = Seq::new(ts.len(), |g: int| failure_hotspot_finding(items, ts[g], positions_of(keys, ts[g])));
    let qs = distinct(present(queue_keys(items)));
    let qa = Seq::new(qs.len(), |g: int| queue_latency_finding(qs[g], positions_of(queue_keys(items), qs[g]).len(), meds[g]));
    let rset = set![InsightCategory::RetryStorm];
    let hset = set![InsightCategory::ActivityFailure];
    assert forall|g: int| 0 <= g < qa.len() && (#[trigger] qa[g]) is Some implies !cs.contains(qa[g]->0.category) by {}
    lemma_collect_kinds_none(qa, cs);
    lemma_of_kinds_none(rt, cs);
    lemma_of_kinds_none(io, cs);
    lemma_of_kinds_none(lr, cs);
    if c == InsightCategory::RetryStorm {
        assert forall|g: int| 0 <= g < ra.len() && (#[trigger] ra[g]) is Some implies cs.contains(ra[g]->0.category) by {}
        lemma_collect_kinds(ra, cs);
        lemma_of_kinds_all(a, cs);
        assert forall|g: int| 0 <= g < ha.len() && (#[trigger] ha[g]) is Some implies !cs.contains(ha[g]->0.category) by {}
        lemma_collect_kinds_none(ha, cs);
    } else {
        assert forall|g: int| 0 <= g < ha.len() && (#[trigger] ha[g]) is Some implies cs.contains(ha[g]->0.category) by {}
        lemma_collect_kinds(ha, cs);
        lemma_of_kinds_all(h, cs);
        assert forall|g: int| 0 <= g < ra.len() && (#[trigger] ra[g]) is Some implies !cs.contains(ra[g]->0.category) by {}
        lemma_collect_kinds_none(ra, cs);
    }
    let e = Seq::<FindingModel>::empty();
    assert(of_kinds(activity_findings(cfg, items, now, meds), cs)
        == of_kinds(a, cs) + of_kinds(b, cs) + of_kinds(h, cs) + of_kinds(rt, cs) + of_kinds(io, cs) + of_kinds(lr, cs));
    if c == InsightCategory::RetryStorm {
        assert(of_kinds(a, cs) + e + e + e + e + e =~= a);
    } else {
        assert(e + e + of_kinds(h, cs) + e + e + e =~= h);
    }
}

/// Each sampled activity type gets at most one retry-storm finding, and the
/// retry-storm findings of the result are those of distinct sampled types:
/// every one is the finding of its type, and every sampled type whose
/// finding exists has one.
pub proof fn law_retry_storm_once_per_type(cfg: InsightsConfig, items: Seq<(Seq<char>, ActivityExecution)>, now: i64,
    meds: Seq<int>)
    ensures
        ({
            let rs = of_kinds(activity_findings(cfg, items, now, meds), set![InsightCategory::RetryStorm]);
            exists|subj: Seq<Seq<char>>| {
                &&& subj.len() == rs.len()
                &&& subj.no_duplicates()
                &&& forall|k: int| 0 <= k < subj.len() ==> retry_storm_of(items, #[trigger] subj[k]) == Some(rs[k])
                    && sampled_type(items, subj[k])
                &&& forall|t: Seq<char>| sampled_type(items, t) && (#[trigger] retry_storm_of(items, t)) is Some ==> subj.contains(t)
            }
        }),
{
    let keys = activity_type_keys(items);
    let ts = distinct(present(keys));
    let f = |t: Seq<char>| retry_storm_of(items, t);
    let subj = lemma_per_subject(keys, f);
    lemma_activity_kinds(cfg, items, now, meds, InsightCategory::RetryStorm);
    assert(Seq::new(ts.len(), |g: int| f(ts[g])) =~= Seq::new(ts.len(), |g: int| retry_storm_finding(items, ts[g], positions_of(keys, ts[g]))));
    let rs = of_kinds(activity_findings(cfg, items, now, meds), set![InsightCategory::RetryStorm]);
    assert forall|k: int| 0 <= k < subj.len() implies retry_storm_of(items, #[trigger] subj[k]) == Some(rs[k])
        && sampled_type(items, subj[k]) by {
        assert(f(subj[k]) == retry_storm_of(items, subj[k]));
        lemma_sampled_type(items, subj[k]);
    }
    assert forall|t: Seq<char>| sampled_type(items, t) && (#[trigger] retry_storm_of(items, t)) is Some implies subj.contains(t) by {
        lemma_sampled_type(items, t);
        assert(f(t) is Some);
    }
}

/// Each sampled activity type gets at most one failure-hotspot finding, and
/// the failure-hotspot findings of the result are those of distinct sampled
/// types: every one is the finding of its type, and every sampled type
/// whose finding exists has one.
pub proof fn law_failure_hotspot_once_per_type(cfg: InsightsConfig, items: Seq<(Seq<char>, ActivityExecution)>, now: i64,
    meds: Seq<int>)
    ensures
        ({
            let rs = of_kinds(activity_findings(cfg, items, now, meds), set![InsightCategory::ActivityFailure]);
            exists|subj: Seq<Seq<char>>| {
                &&& subj.len() == rs.len()
                &&& subj.no_duplicates()
                &&& forall|k: int| 0 <= k < subj.len() ==> hotspot_of(items, #[trigger] subj[k]) == Some(rs[k])
                    && sampled_type(items, subj[k])
                &&& forall|t: Seq<char>| sampled_type(items, t) && (#[trigger] hotspot_of(items, t)) is Some ==> subj.contains(t)
            }
        }),
{
    let keys = activity_type_keys(items);
    let ts = distinct(present(keys));
    let f = |t: Seq<char>| hotspot_of(items, t);
    let subj = lemma_per_subject(keys, f);
    lemma_activity_kinds(cfg, items, now, meds, InsightCategory::ActivityFailure);
    assert(Seq::new(ts.len(), |g: int| f(ts[g])) =~= Seq::new(ts.len(), |g: int| failure_hotspot_finding(items, ts[g], positions_of(keys, ts[g]))));
    let rs = of_kinds(activity_findings(cfg, items, now, meds), set![InsightCategory::ActivityFailure]);
    assert forall|k: int| 0 <= k < subj.len() implies hotspot_of(items, #[trigger] subj[k]) == Some(rs[k])
        && sampled_type(items, subj[k]) by {
        assert(f(subj[k]) == hotspot_of(items, subj[k]));
        lemma_sampled_type(items, subj[k]);
    }
    assert forall|t: Seq<char>| sampled_type(items, t) && (#[trigger] hotspot_of(items, t)) is Some implies subj.contains(t) by {
        lemma_sampled_type(items, t);
        assert(f(t) is Some);
    }
}


/// Whether some listed workflow has type `t`.
pub open spec fn listed_type(ws: Seq<WorkflowSummary>, t: Seq<char>) -> bool {
    exists|i: int| 0 <= i < ws.len() && ws[i].workflow_type@ == t
}

/// Whether some listed workflow of type `t` has been running for two hours
/// or more at `now`.
pub open spec fn stuck_type(ws: Seq<WorkflowSummary>, now: i64, t: Seq<char>) -> bool {
    exists|i: int| 0 <= i < ws.len() && ws[i].workflow_type@ == t && ws[i].status == WorkflowStatus::Running
        && hours_between(now, ws[i].start_time) >= 2
}

/// The list findings split into the per-type part and the stuck part, by
/// category.
proof fn lemma_list_kinds(ws: Seq<WorkflowSummary>, now: i64)
    ensures
        ({
            let types = distinct(present(type_keys(ws)));
            let stuck = distinct(present(stuck_keys(ws, now)));
            let first = collect(Seq::new(types.len(), |g: int| type_finding(ws, types[g])));
            let second = Seq::new(stuck.len(), |g: int| stuck_finding(ws, now, stuck[g]));
            &&& of_kinds(list_findings(ws, now), set![InsightCategory::TypeAnomaly, InsightCategory::FailureRate]) == first
            &&& of_kinds(list_findings(ws, now), set![InsightCategory::StuckWorkflow]) == second
        }),
{
    let types = distinct(present(type_keys(ws)));
    let stuck = distinct(present(stuck_keys(ws, now)));
    let opts = Seq::new(types.len(), |g: int| type_finding(ws, types[g]));
    let first = collect(opts);
    let second = Seq::new(stuck.len(), |g: int| stuck_finding(ws, now, stuck[g]));
    let c1 = set![InsightCategory::TypeAnomaly, InsightCategory::FailureRate];
    let c2 = set![InsightCategory::StuckWorkflow];
    lemma_of_kinds_add(first, second, c1);
    lemma_of_kinds_add(first, second, c2);
    assert forall|g: int| 0 <= g < opts.len() && (#[trigger] opts[g]) is Some implies c1.contains(opts[g]->0.category) by {}
    lemma_collect_kinds(opts, c1);
    lemma_of_kinds_all(first, c1);
    assert forall|g: int| 0 <= g < opts.len() && (#[trigger] opts[g]) is Some implies !c2.contains(opts[g]->0.category) by {}
    lemma_collect_kinds_none(opts, c2);
    lemma_of_kinds_none(second, c1);
    lemma_of_kinds_all(second, c2);
    assert(first + Seq::<FindingModel>::empty() =~= first);
    assert(Seq::<FindingModel>::empty() + second =~= second);
}

/// Each listed workflow type gets at most one all-failed or failure-rate
/// finding, and those findings of the result are those of distinct listed
/// types: every one is the finding of its type, and every listed type whose
/// finding exists has one.
pub proof fn law_type_findings_once_per_type(ws: Seq<WorkflowSummary>, now: i64)
    ensures
        ({
            let rs = of_kinds(list_findings(ws, now), set![InsightCategory::TypeAnomaly, InsightCategory::FailureRate]);
            exists|subj: Seq<Seq<char>>| {
                &&& subj.len() == rs.len()
                &&& subj.no_duplicates()
                &&& forall|k: int| 0 <= k < subj.len() ==> type_finding(ws, #[trigger] subj[k]) == Some(rs[k])
                    && listed_type(ws, subj[k])
                &&& forall|t: Seq<char>| listed_type(ws, t) && (#[trigger] type_finding(ws, t)) is Some ==> subj.contains(t)
            }
        }),
{
    let keys = type_keys(ws);
    let ts = distinct(present(keys));
    let f = |t: Seq<char>| type_finding(ws, t);
    let subj = lemma_per_subject(keys, f);
    lemma_list_kinds(ws, now);
    assert(Seq::new(ts.len(), |g: int| f(ts[g])) =~= Seq::new(ts.len(), |g: int| type_finding(ws, ts[g])));
    assert forall|t: Seq<char>| present(keys).contains(t) <==> listed_type(ws, t) by {
        if present(keys).contains(t) {
            lemma_present_from(keys, t);
            let i = choose|i: int| 0 <= i < keys.len() && keys[i] == Some(t);
            assert(ws[i].workflow_type@ == t);
        }
        if listed_type(ws, t) {
            let i = choose|i: int| 0 <= i < ws.len() && ws[i].workflow_type@ == t;
            assert(keys[i] == Some(t));
            lemma_present_has(keys, i);
        }
    }
    let rs = of_kinds(list_findings(ws, now), set![InsightCategory::TypeAnomaly, InsightCategory::FailureRate]);
    assert forall|k: int| 0 <= k < subj.len() implies type_finding(ws, #[trigger] subj[k]) == Some(rs[k])
        && listed_type(ws, subj[k]) by {
        assert(f(subj[k]) == type_finding(ws, subj[k]));
    }
    assert forall|t: Seq<char>| listed_type(ws, t) && (#[trigger] type_finding(ws, t)) is Some implies subj.contains(t) by {
        assert(f(t) is Some);
    }
}

/// The stuck-workflow findings of the result are one per workflow type
/// with a workflow running for two hours or more, in order of first
/// appearance, each that type's finding; other types get none.
pub proof fn law_stuck_once_per_type(ws: Seq<WorkflowSummary>, now: i64)
    ensures
        ({
            let stuck = distinct(present(stuck_keys(ws, now)));
            &&& of_kinds(list_findings(ws, now), set![InsightCategory::StuckWorkflow])
                == Seq::new(stuck.len(), |g: int| stuck_finding(ws, now, stuck[g]))
            &&& stuck.no_duplicates()
            &&& forall|g: int| 0 <= g < stuck.len() ==> stuck_type(ws, now, #[trigger] stuck[g])
            &&& forall|t: Seq<char>| #[trigger] stuck_type(ws, now, t) ==> stuck.contains(t)
        }),
{
    let keys = stuck_keys(ws, now);
    let stuck = distinct(present(keys));
    lemma_list_kinds(ws, now);
    lemma_distinct(present(keys));
    assert forall|g: int| 0 <= g < stuck.len() implies stuck_type(ws, now, #[trigger] stuck[g]) by {
        assert(stuck.contains(stuck[g]));
        lemma_present_from(keys, stuck[g]);
        let i = choose|i: int| 0 <= i < keys.len() && keys[i] == Some(stuck[g]);
        assert(ws[i].workflow_type@ == stuck[g]);
    }
    assert forall|t: Seq<char>| #[trigger] stuck_type(ws, now, t) implies stuck.contains(t) by {
        let i = choose|i: int| 0 <= i < ws.len() && ws[i].workflow_type@ == t && ws[i].status == WorkflowStatus::Running
            && hours_between(now, ws[i].start_time) >= 2;
        assert(keys[i] == Some(t));
        lemma_present_has(keys, i);
    }
}

/// The entries of an interleaving at the positions of one parity, the
/// others empty, collect as the entries themselves.
proof fn lemma_collect_interleaved(a: Seq<Option<FindingModel>>, c: Seq<Option<FindingModel>>, p: int)
    requires
        p == 0 || p == 1,
        c.len() == 2 * a.len(),
        forall|k: int| 0 <= k < c.len() ==> #[trigger] c[k] == if k % 2 == p { a[k / 2] } else { None },
    ensures
        collect(c) == collect(a),
    decreases a.len(),
{
    if a.len() > 0 {
        let n = a.len() - 1;
        let c2 = c.drop_last().drop_last();
        assert forall|k: int| 0 <= k < c2.len() implies #[trigger] c2[k] == if k % 2 == p { a.drop_last()[k / 2] } else { None } by {
            assert(c2[k] == c[k]);
        }
        lemma_collect_interleaved(a.drop_last(), c2, p);
        assert(c.drop_last().drop_last() =~= c2);
        assert(c[2 * n] == if (2 * n) % 2 == p { a[n] } else { None });
        assert(c[2 * n + 1] == if (2 * n + 1) % 2 == p { a[n] } else { None });
        assert((2 * n) % 2 == 0 && (2 * n) / 2 == n && (2 * n + 1) % 2 == 1 && (2 * n + 1) / 2 == n);
        assert(c.drop_last().last() == c[2 * n]);
        assert(c.last() == c[2 * n + 1]);
        let d = c.drop_last();
        if p == 0 {
            assert(c.last() is None);
            assert(collect(c) == collect(d));
            match a.last() {
                Some(x) => assert(collect(d) == collect(c2).push(x)),
                None => assert(collect(d) == collect(c2)),
            }
        } else {
            assert(d.last() is None);
            assert(collect(d) == collect(c2));
            match a.last() {
                Some(x) => assert(collect(c) == collect(d).push(x)),
                None => assert(collect(c) == collect(d)),
            }
        }
    }
}

/// Whether some sampled child workflow has type `t`.
pub open spec fn child_type(items: Seq<(Seq<char>, ChildWorkflowExecution)>, t: Seq<char>) -> bool {
    exists|i: int| 0 <= i < items.len() && items[i].1.workflow_type@ == t
}

/// The child workflow findings are, per child type in order of first
/// appearance (no type twice, every sampled type present), at most one
/// failure finding and at most one start-latency finding; child types
/// that were not sampled get none.
pub proof fn law_child_findings_once_per_type(items: Seq<(Seq<char>, ChildWorkflowExecution)>, meds: Seq<int>)
    requires
        meds.len() == distinct(present(child_type_keys(items))).len(),
    ensures
        ({
            let types = distinct(present(child_type_keys(items)));
            &&& of_kinds(child_findings(items, meds), set![InsightCategory::ChildWorkflowFailure])
                == collect(Seq::new(types.len(), |g: int| child_failure_finding(items, types[g], child_members(items, types[g]))))
            &&& of_kinds(child_findings(items, meds), set![InsightCategory::ChildWorkflowLatency])
                == collect(Seq::new(types.len(), |g: int| child_latency_finding(items, types[g], child_members(items, types[g]), meds[g])))
            &&& types.no_duplicates()
            &&& forall|g: int| 0 <= g < types.len() ==> child_type(items, #[trigger] types[g])
            &&& forall|t: Seq<char>| #[trigger] child_type(items, t) ==> types.contains(t)
        }),
{
    let keys = child_type_keys(items);
    let types = distinct(present(keys));
    let opts = child_opts(items, meds);
    let fa = Seq::new(types.len(), |g: int| child_failure_finding(items, types[g], child_members(items, types[g])));
    let la = Seq::new(types.len(), |g: int| child_latency_finding(items, types[g], child_members(items, types[g]), meds[g]));
    let cf = set![InsightCategory::ChildWorkflowFailure];
    let cl = set![InsightCategory::ChildWorkflowLatency];
    lemma_of_kinds_collect(opts, cf);
    lemma_of_kinds_collect(opts, cl);
    let kf = Seq::new(opts.len(), |g: int| if opts[g] matches Some(x) && cf.contains(x.category) { opts[g] } else { None });
    let kl = Seq::new(opts.len(), |g: int| if opts[g] matches Some(x) && cl.contains(x.category) { opts[g] } else { None });
    assert forall|k: int| 0 <= k < kf.len() implies #[trigger] kf[k] == if k % 2 == 0 { fa[k / 2] } else { None } by {}
    assert forall|k: int| 0 <= k < kl.len() implies #[trigger] kl[k] == if k % 2 == 1 { la[k / 2] } else { None } by {}
    lemma_collect_interleaved(fa, kf, 0);
    lemma_collect_interleaved(la, kl, 1);
    lemma_distinct(present(keys));
    assert forall|g: int| 0 <= g < types.len() implies child_type(items, #[trigger] types[g]) by {
        assert(types.contains(types[g]));
        lemma_present_from(keys, types[g]);
        let i = choose|i: int| 0 <= i < keys.len() && keys[i] == Some(types[g]);
        assert(items[i].1.workflow_type@ == types[g]);
    }
    assert forall|t: Seq<char>| #[trigger] child_type(items, t) implies types.contains(t) by {
        let i = choose|i: int| 0 <= i < items.len() && items[i].1.workflow_type@ == t;
        assert(keys[i] == Some(t));
        lemma_present_has(keys, i);
    }
}

} // verus!
