//! Insight detection over the activities correlated from sampled workflow
//! histories: retry storms, queue latency, failure hotspots, retried
//! activities, error signals in activity input and output, and
//! long-running activities.

use vstd::prelude::*;
use crate::activity::ActivityExecution;
use crate::findings::{all_at, lemma_positions_bounded, model_of, models, FindingModel};
use crate::grouping::{collect, distinct, distinct_strings, group_positions, opt_texts, positions_of, present, texts, Group};
use crate::insights::InsightFinding;
use crate::sampled::{below, flat, index_ok, one_decimal, parent_ids, push_one_decimal, flatten_index};
use crate::status::{ActivityStatus, InsightCategory, InsightSeverity};
use crate::text::{chars_of, dec, idec, join, join_seq, push_chars, push_dec, push_idec, push_str, string_of};
use crate::model::time_ok;
use crate::insights::{error_pattern_list, error_patterns, InsightsConfig};
use crate::json::{json_text, json_text_of};
use crate::text::{ascii_case_all, ascii_lower, contains_seq, occurs_at, find, lower_chars, lower_of, trim, trimmed_text, truncate_chars, truncated};
use crate::order::{stable_order, stable_order_asc};
use crate::sampled::is_median;

verus! {

/// The activity type keys of all activities.
pub open spec fn activity_type_keys(items: Seq<(Seq<char>, ActivityExecution)>) -> Seq<Option<Seq<char>>> {
    Seq::new(items.len(), |i: int| Some(items[i].1.activity_type@))
}

/// The sum of the attempt numbers at the positions `m`.
pub open spec fn attempt_sum(items: Seq<(Seq<char>, ActivityExecution)>, m: Seq<usize>) -> int
    decreases m.len(),
{
    if m.len() == 0 { 0 } else { attempt_sum(items, m.drop_last()) + items[m.last() as int].1.attempt }
}

/// The largest attempt number at the positions `m` (zero for none).
pub open spec fn attempt_max(items: Seq<(Seq<char>, ActivityExecution)>, m: Seq<usize>) -> int
    decreases m.len(),
{
    if m.len() == 0 {
        0
    } else {
        let prev = attempt_max(items, m.drop_last());
        let a = items[m.last() as int].1.attempt as int;
        if m.len() == 1 || a > prev { a } else { prev }
    }
}

/// The positions among `m` whose attempt number is two or more.
pub open spec fn retried(items: Seq<(Seq<char>, ActivityExecution)>, m: Seq<usize>) -> Seq<usize>
    decreases m.len(),
{
    if m.len() == 0 {
        Seq::empty()
    } else {
        let prev = retried(items, m.drop_last());
        if items[m.last() as int].1.attempt >= 2 { prev.push(m.last()) } else { prev }
    }
}

/// The positions among `m` whose activity failed.
pub open spec fn failed_activities(items: Seq<(Seq<char>, ActivityExecution)>, m: Seq<usize>) -> Seq<usize>
    decreases m.len(),
{
    if m.len() == 0 {
        Seq::empty()
    } else {
        let prev = failed_activities(items, m.drop_last());
        if items[m.last() as int].1.status == ActivityStatus::Failed { prev.push(m.last()) } else { prev }
    }
}

/// The retry-storm finding on the activities of type `t` at the positions `m`.
pub open spec fn retry_storm_finding(items: Seq<(Seq<char>, ActivityExecution)>, t: Seq<char>, m: Seq<usize>) -> Option<FindingModel> {
    let n = m.len() as int;
    let sum = attempt_sum(items, m);
    let wfs = distinct(parent_ids(items, retried(items, m)));
    if n >= 3 && sum >= 2 * n {
        Some(FindingModel {
            severity: if sum >= 3 * n { InsightSeverity::Critical } else { InsightSeverity::Warning },
            category: InsightCategory::RetryStorm,
            title: t + ": avg "@ + one_decimal(sum, n) + " attempts ("@ + dec(wfs.len()) + " workflows)"@,
            detail: "Highest: "@ + idec(attempt_max(items, m))
                + " attempts. High retry counts indicate transient failures or misconfigured timeouts."@,
            affected: wfs,
        })
    } else {
        None
    }
}

/// How often `x` occurs in `s`.
pub open spec fn occurrences(s: Seq<Seq<char>>, x: Seq<char>) -> nat
    decreases s.len(),
{
    if s.len() == 0 {
        0
    } else {
        occurrences(s.drop_last(), x) + if s.last() == x { 1nat } else { 0nat }
    }
}

/// Among the candidates, in order, the first one occurring most often in `s`.
pub open spec fn most_common_of(cands: Seq<Seq<char>>, s: Seq<Seq<char>>) -> Option<Seq<char>>
    decreases cands.len(),
{
    if cands.len() == 0 {
        None
    } else {
        let prev = most_common_of(cands.drop_last(), s);
        let c = cands.last();
        match prev {
            Some(p) => if occurrences(s, c) > occurrences(s, p) { Some(c) } else { prev },
            None => Some(c),
        }
    }
}

/// The text occurring most often in `s`; among equally frequent ones, the
/// one that occurs first.
pub open spec fn most_common(s: Seq<Seq<char>>) -> Option<Seq<char>> {
    most_common_of(distinct(s), s)
}

/// The failure messages at the positions `m`, where there is one.
pub open spec fn failure_messages(items: Seq<(Seq<char>, ActivityExecution)>, m: Seq<usize>) -> Seq<Seq<char>>
    decreases m.len(),
{
    if m.len() == 0 {
        Seq::empty()
    } else {
        let prev = failure_messages(items, m.drop_last());
        match items[m.last() as int].1.failure {
            Some(f) => prev.push(f.message@),
            None => prev,
        }
    }
}

/// The failure-hotspot finding on the activities of type `t` at the positions `m`.
pub open spec fn failure_hotspot_finding(items: Seq<(Seq<char>, ActivityExecution)>, t: Seq<char>, m: Seq<usize>) -> Option<FindingModel> {
    let f = failed_activities(items, m);
    let wfs = distinct(parent_ids(items, f));
    let head = dec(f.len()) + " failures across "@ + dec(wfs.len()) + " workflows."@;
    if f.len() >= 3 {
        Some(FindingModel {
            severity: if f.len() >= 5 { InsightSeverity::Critical } else { InsightSeverity::Warning },
            category: InsightCategory::ActivityFailure,
            title: t + ": "@ + dec(f.len()) + " failures in "@ + dec(wfs.len()) + " workflows"@,
            detail: match most_common(failure_messages(items, f)) {
                Some(msg) => head + " Common error: "@ + msg,
                None => head,
            },
            affected: wfs,
        })
    } else {
        None
    }
}

/// The type keys of the activities with two or more attempts.
pub open spec fn retried_keys(items: Seq<(Seq<char>, ActivityExecution)>) -> Seq<Option<Seq<char>>> {
    Seq::new(items.len(), |i: int| if items[i].1.attempt >= 2 { Some(items[i].1.activity_type@) } else { None })
}

/// The finding on the retried activities of type `t` at the positions `m`.
pub open spec fn activity_retry_finding(items: Seq<(Seq<char>, ActivityExecution)>, t: Seq<char>, m: Seq<usize>) -> FindingModel {
    let n = m.len();
    let wfs = distinct(parent_ids(items, m));
    FindingModel {
        severity: if n >= 5 {
            InsightSeverity::Critical
        } else if n >= 3 {
            InsightSeverity::Warning
        } else {
            InsightSeverity::Info
        },
        category: InsightCategory::ActivityRetry,
        title: t + ": "@ + dec(n) + " retried (max "@ + idec(attempt_max(items, m)) + " attempts, "@
            + dec(wfs.len()) + " workflows)"@,
        detail: "Activities with attempt >= 2 detected. Retries indicate transient failures, timeouts, or resource contention."@,
        affected: wfs,
    }
}

/// Filtering keeps positions below the bound.
proof fn lemma_filters_below(items: Seq<(Seq<char>, ActivityExecution)>, m: Seq<usize>, n: int)
    requires
        below(m, n),
    ensures
        below(retried(items, m), n),
        below(failed_activities(items, m), n),
    decreases m.len(),
{
    if m.len() > 0 {
        assert(below(m.drop_last(), n));
        lemma_filters_below(items, m.drop_last(), n);
    }
}

/// Attempt statistics of the positions `m`: sum and largest attempt.
fn attempt_stats(samples: &[(String, Vec<ActivityExecution>)], idx: &Vec<(usize, usize)>, m: &Vec<usize>) -> (r: (i128, i64))
    requires
        index_ok(samples@, idx@),
        below(m@, idx@.len() as int),
    ensures
        r.0 == attempt_sum(flat(samples@), m@),
        r.1 == attempt_max(flat(samples@), m@),
        -0x8000_0000 * m@.len() <= r.0 <= 0x8000_0000 * m@.len(),
{
    let ghost items = flat(samples@);
    let mut sum: i128 = 0;
    let mut mx: i64 = 0;
    let mut j: usize = 0;
    while j < m.len()
        invariant
            items == flat(samples@),
            index_ok(samples@, idx@),
            below(m@, idx@.len() as int),
            j <= m@.len(),
            sum == attempt_sum(items, m@.take(j as int)),
            mx == attempt_max(items, m@.take(j as int)),
            -0x8000_0000 * j <= sum <= 0x8000_0000 * j,
        decreases m.len() - j,
    {
        assert(m@.take(j + 1).drop_last() =~= m@.take(j as int));
        let k = m[j];
        let (a, b) = idx[k];
        assert(items[k as int].1 == samples@[a as int].1@[b as int]);
        let at = samples[a].1[b].attempt;
        sum = sum + at as i128;
        if j == 0 || at as i64 > mx {
            mx = at as i64;
        }
        j = j + 1;
    }
    assert(m@.take(m.len() as int) =~= m@);
    (sum, mx)
}

/// The positions among `m` with two or more attempts.
fn retried_exec(samples: &[(String, Vec<ActivityExecution>)], idx: &Vec<(usize, usize)>, m: &Vec<usize>) -> (r: Vec<usize>)
    requires
        index_ok(samples@, idx@),
        below(m@, idx@.len() as int),
    ensures
        r@ == retried(flat(samples@), m@),
{
    let ghost items = flat(samples@);
    let mut r: Vec<usize> = Vec::new();
    let mut j: usize = 0;
    while j < m.len()
        invariant
            items == flat(samples@),
            index_ok(samples@, idx@),
            below(m@, idx@.len() as int),
            j <= m@.len(),
            r@ == retried(items, m@.take(j as int)),
        decreases m.len() - j,
    {
        assert(m@.take(j + 1).drop_last() =~= m@.take(j as int));
        let k = m[j];
        let (a, b) = idx[k];
        assert(items[k as int].1 == samples@[a as int].1@[b as int]);
        if samples[a].1[b].attempt >= 2 {
            r.push(k);
        }
        j = j + 1;
    }
    assert(m@.take(m.len() as int) =~= m@);
    r
}

/// The positions among `m` whose activity failed.
fn failed_activities_exec(samples: &[(String, Vec<ActivityExecution>)], idx: &Vec<(usize, usize)>, m: &Vec<usize>) -> (r: Vec<usize>)
    requires
        index_ok(samples@, idx@),
        below(m@, idx@.len() as int),
    ensures
        r@ == failed_activities(flat(samples@), m@),
{
    let ghost items = flat(samples@);
    let mut r: Vec<usize> = Vec::new();
    let mut j: usize = 0;
    while j < m.len()
        invariant
            items == flat(samples@),
            index_ok(samples@, idx@),
            below(m@, idx@.len() as int),
            j <= m@.len(),
            r@ == failed_activities(items, m@.take(j as int)),
        decreases m.len() - j,
    {
        assert(m@.take(j + 1).drop_last() =~= m@.take(j as int));
        let k = m[j];
        let (a, b) = idx[k];
        assert(items[k as int].1 == samples@[a as int].1@[b as int]);
        if samples[a].1[b].status == ActivityStatus::Failed {
            r.push(k);
        }
        j = j + 1;
    }
    assert(m@.take(m.len() as int) =~= m@);
    r
}

/// The workflow ids of the positions `m`, without repetitions.
fn ids_exec(samples: &[(String, Vec<ActivityExecution>)], idx: &Vec<(usize, usize)>, m: &Vec<usize>) -> (r: Vec<String>)
    requires
        index_ok(samples@, idx@),
        below(m@, idx@.len() as int),
    ensures
        texts(r@) == distinct(parent_ids(flat(samples@), m@)),
{
    let ghost items = flat(samples@);
    let mut ids: Vec<String> = Vec::new();
    let mut j: usize = 0;
    while j < m.len()
        invariant
            items == flat(samples@),
            index_ok(samples@, idx@),
            below(m@, idx@.len() as int),
            j <= m@.len(),
            texts(ids@) == parent_ids(items, m@.take(j as int)),
        decreases m.len() - j,
    {
        let k = m[j];
        let (a, b) = idx[k];
        assert(items[k as int].0 == samples@[a as int].0@);
        let ghost before = ids@;
        ids.push(samples[a].0.clone());
        assert(texts(ids@) =~= texts(before).push(items[k as int].0));
        assert(parent_ids(items, m@.take(j + 1)) =~= parent_ids(items, m@.take(j as int)).push(items[k as int].0));
        j = j + 1;
    }
    assert(m@.take(m.len() as int) =~= m@);
    distinct_strings(&ids)
}

/// The retry-storm finding on one activity type, if it applies.
fn retry_storm_exec(samples: &[(String, Vec<ActivityExecution>)], idx: &Vec<(usize, usize)>, t: &String, m: &Vec<usize>, now: i64) -> (r: Option<InsightFinding>)
    requires
        index_ok(samples@, idx@),
        below(m@, idx@.len() as int),
    ensures
        match r {
            Some(f) => retry_storm_finding(flat(samples@), t@, m@) == Some(model_of(f)) && f.computed_at == now,
            None => retry_storm_finding(flat(samples@), t@, m@) is None,
        },
{
    let n = m.len();
    let (sum, mx) = attempt_stats(samples, idx, m);
    if n < 3 || sum < 2 * (n as i128) {
        return None;
    }
    let rt = retried_exec(samples, idx, m);
    proof {
        lemma_filters_below(flat(samples@), m@, idx@.len() as int);
    }
    let wfs = ids_exec(samples, idx, &rt);
    let tc = chars_of(t.as_str());
    let mut title: Vec<char> = Vec::new();
    push_chars(&mut title, &tc);
    push_str(&mut title, ": avg ");
    push_one_decimal(&mut title, sum, n as i128);
    push_str(&mut title, " attempts (");
    push_dec(&mut title, wfs.len() as u64);
    push_str(&mut title, " workflows)");
    let mut detail: Vec<char> = Vec::new();
    push_str(&mut detail, "Highest: ");
    push_idec(&mut detail, mx);
    push_str(&mut detail, " attempts. High retry counts indicate transient failures or misconfigured timeouts.");
    let r = InsightFinding {
        severity: if sum >= 3 * (n as i128) { InsightSeverity::Critical } else { InsightSeverity::Warning },
        category: InsightCategory::RetryStorm,
        title: string_of(&title),
        detail: string_of(&detail),
        affected_entities: wfs,
        computed_at: now,
    };
    assert(model_of(r).title =~= retry_storm_finding(flat(samples@), t@, m@)->0.title);
    assert(model_of(r).detail =~= retry_storm_finding(flat(samples@), t@, m@)->0.detail);
    Some(r)
}

/// How often `x` occurs in `v`.
fn occurrences_exec(v: &Vec<String>, x: &String) -> (r: usize)
    ensures
        r == occurrences(texts(v@), x@),
{
    let mut n: usize = 0;
    let mut i: usize = 0;
    while i < v.len()
        invariant
            i <= v@.len(),
            n == occurrences(texts(v@).take(i as int), x@),
            n <= i,
        decreases v.len() - i,
    {
        assert(texts(v@).take(i + 1).drop_last() =~= texts(v@).take(i as int));
        if v[i] == *x {
            n = n + 1;
        }
        i = i + 1;
    }
    assert(texts(v@).take(v.len() as int) =~= texts(v@));
    n
}

/// The text occurring most often in `v`, the first one among equally frequent ones.
pub fn most_common_exec(v: &Vec<String>) -> (r: Option<String>)
    ensures
        match r {
            Some(s) => most_common(texts(v@)) == Some(s@),
            None => most_common(texts(v@)) is None,
        },
{
    let cands = distinct_strings(v);
    let ghost cs = texts(cands@);
    let mut best: Option<String> = None;
    let mut best_n: usize = 0;
    let mut i: usize = 0;
    while i < cands.len()
        invariant
            cs == texts(cands@),
            cs == distinct(texts(v@)),
            i <= cands@.len(),
            match best {
                Some(b) => most_common_of(cs.take(i as int), texts(v@)) == Some(b@)
                    && best_n == occurrences(texts(v@), b@),
                None => most_common_of(cs.take(i as int), texts(v@)) is None,
            },
        decreases cands.len() - i,
    {
        assert(cs.take(i + 1).drop_last() =~= cs.take(i as int));
        let n = occurrences_exec(v, &cands[i]);
        match best {
            Some(_) => {
                if n > best_n {
                    best = Some(cands[i].clone());
                    best_n = n;
                }
            },
            None => {
                best = Some(cands[i].clone());
                best_n = n;
            },
        }
        i = i + 1;
    }
    assert(cs.take(cands.len() as int) =~= cs);
    best
}

/// The failure messages at the positions `m`.
fn failure_messages_exec(samples: &[(String, Vec<ActivityExecution>)], idx: &Vec<(usize, usize)>, m: &Vec<usize>) -> (r: Vec<String>)
    requires
        index_ok(samples@, idx@),
        below(m@, idx@.len() as int),
    ensures
        texts(r@) == failure_messages(flat(samples@), m@),
{
    let ghost items = flat(samples@);
    let mut r: Vec<String> = Vec::new();
    let mut j: usize = 0;
    while j < m.len()
        invariant
            items == flat(samples@),
            index_ok(samples@, idx@),
            below(m@, idx@.len() as int),
            j <= m@.len(),
            texts(r@) == failure_messages(items, m@.take(j as int)),
        decreases m.len() - j,
    {
        assert(m@.take(j + 1).drop_last() =~= m@.take(j as int));
        let k = m[j];
        let (a, b) = idx[k];
        assert(items[k as int].1 == samples@[a as int].1@[b as int]);
        match &samples[a].1[b].failure {
            Some(f) => {
                let ghost before = r@;
                r.push(f.message.clone());
                assert(texts(r@) =~= texts(before).push(f.message@));
            },
            None => {},
        }
        j = j + 1;
    }
    assert(m@.take(m.len() as int) =~= m@);
    r
}

/// The failure-hotspot finding on one activity type, if it applies.
fn failure_hotspot_exec(samples: &[(String, Vec<ActivityExecution>)], idx: &Vec<(usize, usize)>, t: &String, m: &Vec<usize>, now: i64) -> (r: Option<InsightFinding>)
    requires
        index_ok(samples@, idx@),
        below(m@, idx@.len() as int),
    ensures
        match r {
            Some(f) => failure_hotspot_finding(flat(samples@), t@, m@) == Some(model_of(f)) && f.computed_at == now,
            None => failure_hotspot_finding(flat(samples@), t@, m@) is None,
        },
{
    let f = failed_activities_exec(samples, idx, m);
    if f.len() < 3 {
        return None;
    }
    proof {
        lemma_filters_below(flat(samples@), m@, idx@.len() as int);
    }
    let wfs = ids_exec(samples, idx, &f);
    let msgs = failure_messages_exec(samples, idx, &f);
    let common = most_common_exec(&msgs);
    let tc = chars_of(t.as_str());
    let mut title: Vec<char> = Vec::new();
    push_chars(&mut title, &tc);
    push_str(&mut title, ": ");
    push_dec(&mut title, f.len() as u64);
    push_str(&mut title, " failures in ");
    push_dec(&mut title, wfs.len() as u64);
    push_str(&mut title, " workflows");
    let mut detail: Vec<char> = Vec::new();
    push_dec(&mut detail, f.len() as u64);
    push_str(&mut detail, " failures across ");
    push_dec(&mut detail, wfs.len() as u64);
    push_str(&mut detail, " workflows.");
    let ghost head = detail@;
    match &common {
        Some(msg) => {
            push_str(&mut detail, " Common error: ");
            push_str(&mut detail, msg.as_str());
        },
        None => {},
    }
    let r = InsightFinding {
        severity: if f.len() >= 5 { InsightSeverity::Critical } else { InsightSeverity::Warning },
        category: InsightCategory::ActivityFailure,
        title: string_of(&title),
        detail: string_of(&detail),
        affected_entities: wfs,
        computed_at: now,
    };
    assert(model_of(r).title =~= failure_hotspot_finding(flat(samples@), t@, m@)->0.title);
    assert(model_of(r).detail =~= failure_hotspot_finding(flat(samples@), t@, m@)->0.detail);
    Some(r)
}

/// The finding on the retried activities of one type.
fn activity_retry_exec(samples: &[(String, Vec<ActivityExecution>)], idx: &Vec<(usize, usize)>, t: &String, m: &Vec<usize>, now: i64) -> (r: InsightFinding)
    requires
        index_ok(samples@, idx@),
        below(m@, idx@.len() as int),
    ensures
        model_of(r) == activity_retry_finding(flat(samples@), t@, m@),
        r.computed_at == now,
{
    let n = m.len();
    let (_sum, mx) = attempt_stats(samples, idx, m);
    let wfs = ids_exec(samples, idx, m);
    let tc = chars_of(t.as_str());
    let mut title: Vec<char> = Vec::new();
    push_chars(&mut title, &tc);
    push_str(&mut title, ": ");
    push_dec(&mut title, n as u64);
    push_str(&mut title, " retried (max ");
    push_idec(&mut title, mx);
    push_str(&mut title, " attempts, ");
    push_dec(&mut title, wfs.len() as u64);
    push_str(&mut title, " workflows)");
    let detail = chars_of("Activities with attempt >= 2 detected. Retries indicate transient failures, timeouts, or resource contention.");
    let r = InsightFinding {
        severity: if n >= 5 {
            InsightSeverity::Critical
        } else if n >= 3 {
            InsightSeverity::Warning
        } else {
            InsightSeverity::Info
        },
        category: InsightCategory::ActivityRetry,
        title: string_of(&title),
        detail: string_of(&detail),
        affected_entities: wfs,
        computed_at: now,
    };
    assert(model_of(r).title =~= activity_retry_finding(flat(samples@), t@, m@).title);
    r
}

/// The task queue keys of the activities with a task queue and a queue wait.
pub open spec fn queue_keys(items: Seq<(Seq<char>, ActivityExecution)>) -> Seq<Option<Seq<char>>> {
    Seq::new(items.len(), |i: int|
        if items[i].1.task_queue is Some && items[i].1.queue_wait is Some {
            Some(items[i].1.task_queue->0@)
        } else {
            None
        })
}

/// The queue waits of the positions `m`, as sort keys.
pub open spec fn wait_keys(items: Seq<(Seq<char>, ActivityExecution)>, m: Seq<usize>) -> Seq<i128> {
    m.map_values(|i: usize| items[i as int].1.queue_wait->0 as i128)
}

/// The queue-latency finding on task queue `q`, whose `n` activities have
/// the median queue wait `med`.
pub open spec fn queue_latency_finding(q: Seq<char>, n: nat, med: int) -> Option<FindingModel> {
    if med >= 1000 {
        Some(FindingModel {
            severity: if med >= 5000 { InsightSeverity::Critical } else { InsightSeverity::Warning },
            category: InsightCategory::QueueLatency,
            title: "'"@ + q + "': "@ + one_decimal(med, 1000) + "s median queue wait"@,
            detail: "Measured across "@ + dec(n) + " activities. High queue wait may indicate insufficient workers."@,
            affected: seq![q],
        })
    } else {
        None
    }
}

/// The median queue wait of the positions `m`, which all have one.
fn median_wait(samples: &[(String, Vec<ActivityExecution>)], idx: &Vec<(usize, usize)>, m: &Vec<usize>) -> (r: i64)
    requires
        index_ok(samples@, idx@),
        below(m@, idx@.len() as int),
        forall|j: int| 0 <= j < m@.len() ==> flat(samples@)[#[trigger] m@[j] as int].1.queue_wait is Some,
    ensures
        is_median(wait_keys(flat(samples@), m@), r as int),
{
    let ghost items = flat(samples@);
    let mut keys: Vec<i128> = Vec::new();
    let mut vals: Vec<i64> = Vec::new();
    let mut j: usize = 0;
    while j < m.len()
        invariant
            items == flat(samples@),
            index_ok(samples@, idx@),
            below(m@, idx@.len() as int),
            forall|j: int| 0 <= j < m@.len() ==> items[#[trigger] m@[j] as int].1.queue_wait is Some,
            j <= m@.len(),
            keys@ == wait_keys(items, m@.take(j as int)),
            vals@.len() == keys@.len(),
            forall|k: int| 0 <= k < vals@.len() ==> (#[trigger] vals@[k]) as i128 == keys@[k],
        decreases m.len() - j,
    {
        let k = m[j];
        let (a, b) = idx[k];
        assert(items[k as int].1 == samples@[a as int].1@[b as int]);
        let ms: i64 = match samples[a].1[b].queue_wait {
            Some(ms) => ms,
            None => 0,
        };
        keys.push(ms as i128);
        vals.push(ms);
        assert(keys@ =~= wait_keys(items, m@.take(j + 1)));
        j = j + 1;
    }
    assert(m@.take(m.len() as int) =~= m@);
    if keys.len() == 0 {
        return 0;
    }
    let p = stable_order_asc(&keys);
    let med = vals[p[keys.len() / 2]];
    assert(stable_order(keys@, p@) && med as int == keys@[p@[(keys@.len() / 2) as int] as int]);
    med
}

/// The queue-latency finding on one task queue, if it applies.
fn queue_latency_exec(q: &String, n: usize, med: i64, now: i64) -> (r: Option<InsightFinding>)
    ensures
        match r {
            Some(f) => queue_latency_finding(q@, n as nat, med as int) == Some(model_of(f)) && f.computed_at == now,
            None => med < 1000,
        },
{
    if med < 1000 {
        return None;
    }
    let qc = chars_of(q.as_str());
    let mut title: Vec<char> = Vec::new();
    push_str(&mut title, "'");
    push_chars(&mut title, &qc);
    push_str(&mut title, "': ");
    push_one_decimal(&mut title, med as i128, 1000);
    push_str(&mut title, "s median queue wait");
    let mut detail: Vec<char> = Vec::new();
    push_str(&mut detail, "Measured across ");
    push_dec(&mut detail, n as u64);
    push_str(&mut detail, " activities. High queue wait may indicate insufficient workers.");
    let mut affected: Vec<String> = Vec::new();
    affected.push(q.clone());
    let r = InsightFinding {
        severity: if med >= 5000 { InsightSeverity::Critical } else { InsightSeverity::Warning },
        category: InsightCategory::QueueLatency,
        title: string_of(&title),
        detail: string_of(&detail),
        affected_entities: affected,
        computed_at: now,
    };
    assert(model_of(r).title =~= queue_latency_finding(q@, n as nat, med as int)->0.title);
    assert(model_of(r).detail =~= queue_latency_finding(q@, n as nat, med as int)->0.detail);
    assert(model_of(r).affected =~= queue_latency_finding(q@, n as nat, med as int)->0.affected);
    Some(r)
}

/// Whole minutes from `start` to `now`, truncated toward zero.
pub open spec fn minutes_between(now: i64, start: i64) -> int {
    if now >= start { (now - start) / 60_000 } else { -((start - now) / 60_000) }
}

/// The type keys of the running activities started 30 minutes or more before `now`.
pub open spec fn long_keys(items: Seq<(Seq<char>, ActivityExecution)>, now: i64) -> Seq<Option<Seq<char>>> {
    Seq::new(items.len(), |i: int|
        if items[i].1.status == ActivityStatus::Running && items[i].1.started_time is Some
            && minutes_between(now, items[i].1.started_time->0) >= 30 {
            Some(items[i].1.activity_type@)
        } else {
            None
        })
}

/// The positions whose key is present, in order.
pub open spec fn present_positions(keys: Seq<Option<Seq<char>>>) -> Seq<usize>
    decreases keys.len(),
{
    if keys.len() == 0 {
        Seq::empty()
    } else {
        let prev = present_positions(keys.drop_last());
        if keys.last() is Some { prev.push((keys.len() - 1) as usize) } else { prev }
    }
}

/// The largest running time, in minutes, of the positions `m`.
pub open spec fn max_minutes(items: Seq<(Seq<char>, ActivityExecution)>, now: i64, m: Seq<usize>) -> int
    decreases m.len(),
{
    if m.len() == 0 {
        0
    } else {
        let prev = max_minutes(items, now, m.drop_last());
        let x = minutes_between(now, items[m.last() as int].1.started_time->0);
        if m.len() == 1 || x > prev { x } else { prev }
    }
}

/// Per activity type, in order of first appearance, `type(count)`.
pub open spec fn type_counts(keys: Seq<Option<Seq<char>>>) -> Seq<Seq<char>> {
    let ts = distinct(present(keys));
    Seq::new(ts.len(), |g: int| ts[g] + "("@ + dec(positions_of(keys, ts[g]).len()) + ")"@)
}

/// The long-running-activity finding at time `now`, if any activity
/// qualifies.
pub open spec fn long_running_finding(items: Seq<(Seq<char>, ActivityExecution)>, now: i64) -> Option<FindingModel> {
    let keys = long_keys(items, now);
    let l = present_positions(keys);
    let mx = max_minutes(items, now, l);
    if l.len() > 0 {
        Some(FindingModel {
            severity: if mx >= 120 { InsightSeverity::Critical } else { InsightSeverity::Warning },
            category: InsightCategory::LongRunningActivity,
            title: dec(l.len()) + " activities running > 30min: "@ + join_seq(type_counts(keys), ", "@),
            detail: "Longest: "@ + idec(mx) + "min. Long-running activities may indicate stuck workers or infinite loops."@,
            affected: distinct(parent_ids(items, l)),
        })
    } else {
        None
    }
}

/// Started times of all activities are within the supported range.
pub open spec fn started_ok(items: Seq<(Seq<char>, ActivityExecution)>) -> bool {
    forall|i: int| 0 <= i < items.len() && (#[trigger] items[i]).1.started_time is Some ==> time_ok(items[i].1.started_time->0)
}

/// Whole minutes from `start` to `now`, truncated toward zero.
fn minutes_between_exec(now: i64, start: i64) -> (r: i64)
    requires
        time_ok(now),
        time_ok(start),
    ensures
        r == minutes_between(now, start),
{
    if now >= start { (now - start) / 60_000 } else { -((start - now) / 60_000) }
}

/// The long-running-activity finding at time `now`, if any.
fn long_running_exec(samples: &[(String, Vec<ActivityExecution>)], idx: &Vec<(usize, usize)>, now: i64) -> (r: Option<InsightFinding>)
    requires
        index_ok(samples@, idx@),
        time_ok(now),
        started_ok(flat(samples@)),
    ensures
        match r {
            Some(f) => long_running_finding(flat(samples@), now) == Some(model_of(f)) && f.computed_at == now,
            None => long_running_finding(flat(samples@), now) is None,
        },
{
    let ghost items = flat(samples@);
    let ghost lk = long_keys(items, now);
    let mut keys: Vec<Option<String>> = Vec::new();
    let mut l: Vec<usize> = Vec::new();
    let mut mx: i64 = 0;
    let mut i: usize = 0;
    while i < idx.len()
        invariant
            items == flat(samples@),
            lk == long_keys(items, now),
            index_ok(samples@, idx@),
            time_ok(now),
            started_ok(items),
            i <= idx@.len(),
            opt_texts(keys@) == lk.take(i as int),
            l@ == present_positions(lk.take(i as int)),
            below(l@, i as int),
            mx == max_minutes(items, now, l@),
        decreases idx.len() - i,
    {
        let (a, b) = idx[i];
        assert(items[i as int].1 == samples@[a as int].1@[b as int]);
        let act = &samples[a].1[b];
        assert(lk.take(i + 1).drop_last() =~= lk.take(i as int));
        let ghost before = keys@;
        let ghost lbefore = l@;
        let mut key: Option<String> = None;
        if act.status == ActivityStatus::Running {
            match act.started_time {
                Some(st) => {
                    assert(items[i as int].1.started_time is Some);
                    let mins = minutes_between_exec(now, st);
                    if mins >= 30 {
                        key = Some(act.activity_type.clone());
                        if l.len() == 0 || mins > mx {
                            mx = mins;
                        }
                        l.push(i);
                        assert(l@.drop_last() =~= lbefore);
                    }
                },
                None => {},
            }
        }
        keys.push(key);
        assert(opt_texts(keys@) =~= opt_texts(before).push(lk[i as int]));
        assert(lk.take(i + 1) =~= lk.take(i as int).push(lk[i as int]));
        i = i + 1;
    }
    assert(lk.take(idx.len() as int) =~= lk);
    if l.len() == 0 {
        return None;
    }
    let groups = group_positions(&keys);
    let ghost ts = distinct(present(lk));
    let mut parts: Vec<Vec<char>> = Vec::new();
    let mut g: usize = 0;
    while g < groups.len()
        invariant
            opt_texts(keys@) == lk,
            ts == distinct(present(lk)),
            groups@.len() == ts.len(),
            forall|h: int| 0 <= h < groups@.len() ==> {
                &&& (#[trigger] groups@[h]).key@ == ts[h]
                &&& groups@[h].members@ == positions_of(lk, groups@[h].key@)
            },
            g <= groups@.len(),
            parts@.len() == g,
            forall|h: int| 0 <= h < g ==> (#[trigger] parts@[h])@ == type_counts(lk)[h],
        decreases groups.len() - g,
    {
        let mut part: Vec<char> = chars_of(groups[g].key.as_str());
        push_str(&mut part, "(");
        push_dec(&mut part, groups[g].members.len() as u64);
        push_str(&mut part, ")");
        assert(part@ =~= type_counts(lk)[g as int]);
        parts.push(part);
        g = g + 1;
    }
    assert(parts@.map_values(|p: Vec<char>| p@) =~= type_counts(lk));
    let summary = join(&parts, ", ");
    let wfs = ids_exec(samples, idx, &l);
    let mut title: Vec<char> = Vec::new();
    push_dec(&mut title, l.len() as u64);
    push_str(&mut title, " activities running > 30min: ");
    push_chars(&mut title, &summary);
    let mut detail: Vec<char> = Vec::new();
    push_str(&mut detail, "Longest: ");
    push_idec(&mut detail, mx);
    push_str(&mut detail, "min. Long-running activities may indicate stuck workers or infinite loops.");
    let r = InsightFinding {
        severity: if mx >= 120 { InsightSeverity::Critical } else { InsightSeverity::Warning },
        category: InsightCategory::LongRunningActivity,
        title: string_of(&title),
        detail: string_of(&detail),
        affected_entities: wfs,
        computed_at: now,
    };
    assert(model_of(r).title =~= long_running_finding(items, now)->0.title);
    assert(model_of(r).detail =~= long_running_finding(items, now)->0.detail);
    Some(r)
}

/// Whether the lower-cased text holds an allow-listed phrase.
pub open spec fn allowlisted(cfg: InsightsConfig, low: Seq<char>) -> bool {
    exists|i: int| 0 <= i < cfg.allowlist@.len() && contains_seq(low, lower_of(#[trigger] cfg.allowlist@[i]@))
}

/// The first of the patterns that the text holds.
pub open spec fn first_contained(low: Seq<char>, ps: Seq<Seq<char>>) -> Option<Seq<char>>
    decreases ps.len(),
{
    if ps.len() == 0 {
        None
    } else if contains_seq(low, ps[0]) {
        Some(ps[0])
    } else {
        first_contained(low, ps.drop_first())
    }
}

/// The error pattern found in a text, unless it is allow-listed: the first
/// pattern its lower-cased form holds.
pub open spec fn scan(cfg: InsightsConfig, text: Seq<char>) -> Option<Seq<char>> {
    let low = lower_of(text);
    if allowlisted(cfg, low) { None } else { first_contained(low, error_patterns()) }
}

/// The first position where `n` occurs in `h`.
pub open spec fn first_at(h: Seq<char>, n: Seq<char>) -> Option<int> {
    if contains_seq(h, n) {
        Some(choose|i: int| occurs_at(h, n, i) && forall|j: int| 0 <= j < i ==> !occurs_at(h, n, j))
    } else {
        None
    }
}

/// A line break turned into a space.
pub open spec fn unbreak(c: char) -> char {
    if c == '\n' { ' ' } else { c }
}

/// A short piece of `text` around the first place where pattern `p` occurs
/// (compared in ASCII lower case): up to 20 characters before it and 40
/// after it, line breaks as spaces, trimmed, with `...` on each side when
/// the piece is not the whole text; the text cut to 60 characters when `p`
/// does not occur.
pub open spec fn snippet(text: Seq<char>, p: Seq<char>) -> Seq<char> {
    match first_at(text.map_values(|c: char| ascii_lower(c)), p) {
        Some(pos) => {
            let start = if pos >= 20 { pos - 20 } else { 0 };
            let end = if pos + p.len() + 40 <= text.len() { pos + p.len() + 40 } else { text.len() as int };
            let piece = trimmed_text(text.subrange(start, end).map_values(|c: char| unbreak(c)));
            if start > 0 || end < text.len() { "..."@ + piece + "..."@ } else { piece }
        },
        None => truncated(text, 60),
    }
}

/// An error signal found in activity input, output or failure message:
/// activity type, workflow id, pattern and a snippet.
pub struct IoMatch {
    pub activity_type: String,
    pub workflow_id: String,
    pub pattern: String,
    pub snippet: String,
}

/// The model of a match.
pub open spec fn io_model(m: IoMatch) -> (Seq<char>, Seq<char>, Seq<char>, Seq<char>) {
    (m.activity_type@, m.workflow_id@, m.pattern@, m.snippet@)
}

/// The matches of one activity: in its output, its input, its failure message.
pub open spec fn item_matches(cfg: InsightsConfig, item: (Seq<char>, ActivityExecution)) -> Seq<(Seq<char>, Seq<char>, Seq<char>, Seq<char>)> {
    let a = item.1;
    let ty = a.activity_type@;
    let out = match a.output {
        Some(o) => match scan(cfg, json_text_of(o)) {
            Some(p) => seq![(ty, item.0, p, "output: "@ + snippet(json_text_of(o), p))],
            None => Seq::empty(),
        },
        None => Seq::empty(),
    };
    let inp = match a.input {
        Some(o) => match scan(cfg, json_text_of(o)) {
            Some(p) => seq![(ty, item.0, p, "input: "@ + snippet(json_text_of(o), p))],
            None => Seq::empty(),
        },
        None => Seq::empty(),
    };
    let fail = match a.failure {
        Some(f) => match scan(cfg, f.message@) {
            Some(p) => seq![(ty, item.0, p, "failure: "@ + truncated(f.message@, 80))],
            None => Seq::empty(),
        },
        None => Seq::empty(),
    };
    out + inp + fail
}

/// The matches of all activities, in order.
pub open spec fn all_matches(cfg: InsightsConfig, items: Seq<(Seq<char>, ActivityExecution)>) -> Seq<(Seq<char>, Seq<char>, Seq<char>, Seq<char>)>
    decreases items.len(),
{
    if items.len() == 0 {
        Seq::empty()
    } else {
        all_matches(cfg, items.drop_last()) + item_matches(cfg, items.last())
    }
}

/// The first pattern of `ps` from position `k` on that `low` holds, as an index.
fn first_contained_exec(low: &Vec<char>, ps: &Vec<Vec<char>>) -> (r: Option<usize>)
    ensures
        match r {
            Some(k) => k < ps@.len() && first_contained(low@, ps@.map_values(|p: Vec<char>| p@)) == Some(ps@[k as int]@),
            None => first_contained(low@, ps@.map_values(|p: Vec<char>| p@)) is None,
        },
{
    let ghost all = ps@.map_values(|p: Vec<char>| p@);
    assert(all.subrange(0, all.len() as int) =~= all);
    let mut k: usize = 0;
    while k < ps.len()
        invariant
            all == ps@.map_values(|p: Vec<char>| p@),
            k <= ps@.len(),
            first_contained(low@, all) == first_contained(low@, all.subrange(k as int, all.len() as int)),
        decreases ps.len() - k,
    {
        let ghost rest = all.subrange(k as int, all.len() as int);
        assert(rest.drop_first() =~= all.subrange(k + 1, all.len() as int));
        assert(rest[0] == ps@[k as int]@);
        if crate::text::contains(low, &ps[k]) {
            return Some(k);
        }
        k = k + 1;
    }
    None
}

/// The error patterns, as character vectors.
fn pattern_chars() -> (r: Vec<Vec<char>>)
    ensures
        r@.map_values(|p: Vec<char>| p@) == error_patterns(),
{
    let list = error_pattern_list();
    let mut r: Vec<Vec<char>> = Vec::new();
    let mut i: usize = 0;
    while i < list.len()
        invariant
            list@.map_values(|s: &str| s@) == error_patterns(),
            i <= list@.len(),
            r@.map_values(|p: Vec<char>| p@) == error_patterns().take(i as int),
        decreases list.len() - i,
    {
        let ghost before = r@;
        let cs = chars_of(list[i]);
        r.push(cs);
        assert(list@.map_values(|s: &str| s@)[i as int] == list@[i as int]@);
        assert(error_patterns()[i as int] == cs@);
        assert(r@.map_values(|p: Vec<char>| p@) =~= before.map_values(|p: Vec<char>| p@).push(cs@));
        assert(error_patterns().take(i + 1) =~= error_patterns().take(i as int).push(cs@));
        i = i + 1;
    }
    r
}

/// The error pattern found in a text unless it is allow-listed.
fn scan_exec(cfg: &InsightsConfig, text: &Vec<char>, ps: &Vec<Vec<char>>) -> (r: Option<Vec<char>>)
    requires
        ps@.map_values(|p: Vec<char>| p@) == error_patterns(),
    ensures
        match r {
            Some(p) => scan(*cfg, text@) == Some(p@),
            None => scan(*cfg, text@) is None,
        },
{
    let low = lower_chars(text);
    if cfg.is_allowlisted(&low) {
        return None;
    }
    match first_contained_exec(&low, ps) {
        Some(k) => {
            let mut p: Vec<char> = Vec::new();
            push_chars(&mut p, &ps[k]);
            assert(p@ =~= ps@[k as int]@);
            Some(p)
        },
        None => None,
    }
}

/// A short piece of `text` around the first place where `p` occurs.
fn snippet_exec(text: &Vec<char>, p: &Vec<char>) -> (r: Vec<char>)
    ensures
        r@ == snippet(text@, p@),
{
    let low = ascii_case_all(text, false);
    match find(&low, p) {
        Some(pos) => {
            proof {
                assert(contains_seq(low@, p@)) by {
                    assert(occurs_at(low@, p@, pos as int));
                }
                let c = choose|i: int| occurs_at(low@, p@, i) && forall|j: int| 0 <= j < i ==> !occurs_at(low@, p@, j);
                assert(occurs_at(low@, p@, pos as int));
                if c < pos {
                    assert(!occurs_at(low@, p@, c));
                } else if c > pos {
                    assert(!occurs_at(low@, p@, pos as int));
                }
                assert(first_at(low@, p@) == Some(pos as int));
            }
            let start: usize = if pos >= 20 { pos - 20 } else { 0 };
            let end: usize = if pos as u128 + p.len() as u128 + 40 <= text.len() as u128 { pos + p.len() + 40 } else { text.len() };
            assert(occurs_at(low@, p@, pos as int));
            let mut piece: Vec<char> = Vec::new();
            let mut i: usize = start;
            while i < end
                invariant
                    start <= i <= end <= text@.len(),
                    piece@ == text@.subrange(start as int, i as int).map_values(|c: char| unbreak(c)),
                decreases end - i,
            {
                let c = text[i];
                piece.push(if c == '\n' { ' ' } else { c });
                assert(piece@ =~= text@.subrange(start as int, i + 1).map_values(|c: char| unbreak(c)));
                i = i + 1;
            }
            let trimmed = trim(string_of(&piece).as_str());
            let tc = chars_of(trimmed.as_str());
            if start > 0 || end < text.len() {
                let mut out: Vec<char> = Vec::new();
                push_str(&mut out, "...");
                push_chars(&mut out, &tc);
                push_str(&mut out, "...");
                out
            } else {
                tc
            }
        },
        None => truncate_chars(text, 60),
    }
}

/// The matches of one activity.
fn item_matches_exec(cfg: &InsightsConfig, wf: &String, a: &ActivityExecution, ps: &Vec<Vec<char>>, out: &mut Vec<IoMatch>)
    requires
        ps@.map_values(|p: Vec<char>| p@) == error_patterns(),
    ensures
        final(out)@.map_values(|m: IoMatch| io_model(m)) == old(out)@.map_values(|m: IoMatch| io_model(m)) + item_matches(*cfg, (wf@, *a)),
{
    let ghost start = out@.map_values(|m: IoMatch| io_model(m));
    let ghost ty = a.activity_type@;
    let ghost mut expect: Seq<(Seq<char>, Seq<char>, Seq<char>, Seq<char>)> = Seq::empty();
    match &a.output {
        Some(o) => {
            let text = chars_of(json_text(o).as_str());
            match scan_exec(cfg, &text, ps) {
                Some(p) => {
                    let mut sn: Vec<char> = Vec::new();
                    push_str(&mut sn, "output: ");
                    let piece = snippet_exec(&text, &p);
                    push_chars(&mut sn, &piece);
                    out.push(IoMatch {
                        activity_type: a.activity_type.clone(),
                        workflow_id: wf.clone(),
                        pattern: string_of(&p),
                        snippet: string_of(&sn),
                    });
                    proof {
                        expect = seq![(ty, wf@, p@, "output: "@ + snippet(json_text_of(*o), p@))];
                    }
                },
                None => {},
            }
        },
        None => {},
    }
    assert(out@.map_values(|m: IoMatch| io_model(m)) =~= start + expect);
    let ghost mid = expect;
    match &a.input {
        Some(o) => {
            let text = chars_of(json_text(o).as_str());
            match scan_exec(cfg, &text, ps) {
                Some(p) => {
                    let mut sn: Vec<char> = Vec::new();
                    push_str(&mut sn, "input: ");
                    let piece = snippet_exec(&text, &p);
                    push_chars(&mut sn, &piece);
                    out.push(IoMatch {
                        activity_type: a.activity_type.clone(),
                        workflow_id: wf.clone(),
                        pattern: string_of(&p),
                        snippet: string_of(&sn),
                    });
                    proof {
                        expect = expect + seq![(ty, wf@, p@, "input: "@ + snippet(json_text_of(*o), p@))];
                    }
                },
                None => {},
            }
        },
        None => {},
    }
    assert(out@.map_values(|m: IoMatch| io_model(m)) =~= start + expect);
    match &a.failure {
        Some(f) => {
            let text = chars_of(f.message.as_str());
            match scan_exec(cfg, &text, ps) {
                Some(p) => {
                    let mut sn: Vec<char> = Vec::new();
                    push_str(&mut sn, "failure: ");
                    let cut = truncate_chars(&text, 80);
                    push_chars(&mut sn, &cut);
                    out.push(IoMatch {
                        activity_type: a.activity_type.clone(),
                        workflow_id: wf.clone(),
                        pattern: string_of(&p),
                        snippet: string_of(&sn),
                    });
                    proof {
                        expect = expect + seq![(ty, wf@, p@, "failure: "@ + truncated(f.message@, 80))];
                    }
                },
                None => {},
            }
        },
        None => {},
    }
    assert(out@.map_values(|m: IoMatch| io_model(m)) =~= start + expect);
    assert(expect =~= item_matches(*cfg, (wf@, *a)));
}

/// The matches of all activities of the samples, in order.
fn all_matches_exec(cfg: &InsightsConfig, samples: &[(String, Vec<ActivityExecution>)], idx: &Vec<(usize, usize)>) -> (r: Vec<IoMatch>)
    requires
        index_ok(samples@, idx@),
    ensures
        r@.map_values(|m: IoMatch| io_model(m)) == all_matches(*cfg, flat(samples@)),
{
    let ghost items = flat(samples@);
    let ps = pattern_chars();
    let mut r: Vec<IoMatch> = Vec::new();
    let mut i: usize = 0;
    while i < idx.len()
        invariant
            items == flat(samples@),
            index_ok(samples@, idx@),
            ps@.map_values(|p: Vec<char>| p@) == error_patterns(),
            i <= idx@.len(),
            r@.map_values(|m: IoMatch| io_model(m)) == all_matches(*cfg, items.take(i as int)),
        decreases idx.len() - i,
    {
        let (a, b) = idx[i];
        assert(items[i as int] == (samples@[a as int].0@, samples@[a as int].1@[b as int]));
        assert(items.take(i + 1).drop_last() =~= items.take(i as int));
        item_matches_exec(cfg, &samples[a].0, &samples[a].1[b], &ps, &mut r);
        i = i + 1;
    }
    assert(items.take(idx.len() as int) =~= items);
    r
}

/// The error-in-I/O finding on the matches of activity type `t` at the
/// positions `m` of `ms`.
pub open spec fn io_finding(ms: Seq<(Seq<char>, Seq<char>, Seq<char>, Seq<char>)>, t: Seq<char>, m: Seq<usize>) -> FindingModel {
    let n = m.len();
    let top = match most_common(m.map_values(|i: usize| ms[i as int].2)) {
        Some(p) => p,
        None => "error"@,
    };
    let wfs = distinct(m.map_values(|i: usize| ms[i as int].1));
    let ex = if n >= 3 { m.take(3) } else { m };
    FindingModel {
        severity: if n >= 5 {
            InsightSeverity::Critical
        } else if n >= 2 {
            InsightSeverity::Warning
        } else {
            InsightSeverity::Info
        },
        category: InsightCategory::ErrorInOutput,
        title: t + ": \""@ + top + "\" found in "@ + dec(n) + " I/O ("@ + dec(wfs.len()) + " workflows)"@,
        detail: "Error patterns detected in activity I/O despite workflow success. Examples: "@
            + join_seq(ex.map_values(|i: usize| ms[i as int].3), "; "@),
        affected: wfs,
    }
}

/// The activity type keys of the matches.
pub open spec fn match_keys(ms: Seq<(Seq<char>, Seq<char>, Seq<char>, Seq<char>)>) -> Seq<Option<Seq<char>>> {
    Seq::new(ms.len(), |i: int| Some(ms[i].0))
}

/// The error-in-I/O finding on one activity type.
fn io_finding_exec(ms: &Vec<IoMatch>, t: &String, m: &Vec<usize>, now: i64) -> (r: InsightFinding)
    requires
        below(m@, ms@.len() as int),
    ensures
        model_of(r) == io_finding(ms@.map_values(|x: IoMatch| io_model(x)), t@, m@),
        r.computed_at == now,
{
    let ghost mv = ms@.map_values(|x: IoMatch| io_model(x));
    let n = m.len();
    let mut pats: Vec<String> = Vec::new();
    let mut wfs_all: Vec<String> = Vec::new();
    let mut ex: Vec<Vec<char>> = Vec::new();
    let mut j: usize = 0;
    while j < n
        invariant
            mv == ms@.map_values(|x: IoMatch| io_model(x)),
            below(m@, ms@.len() as int),
            n == m@.len(),
            j <= n,
            texts(pats@) == m@.take(j as int).map_values(|i: usize| mv[i as int].2),
            texts(wfs_all@) == m@.take(j as int).map_values(|i: usize| mv[i as int].1),
            ex@.len() == if j <= 3 { j as int } else { 3 },
            forall|k: int| 0 <= k < ex@.len() ==> (#[trigger] ex@[k])@ == mv[m@[k] as int].3,
        decreases n - j,
    {
        let x = &ms[m[j]];
        let ghost bp = pats@;
        let ghost bw = wfs_all@;
        pats.push(x.pattern.clone());
        wfs_all.push(x.workflow_id.clone());
        if j < 3 {
            ex.push(chars_of(x.snippet.as_str()));
        }
        assert(texts(pats@) =~= texts(bp).push(mv[m@[j as int] as int].2));
        assert(m@.take(j + 1).map_values(|i: usize| mv[i as int].2) =~= m@.take(j as int).map_values(|i: usize| mv[i as int].2).push(mv[m@[j as int] as int].2));
        assert(texts(wfs_all@) =~= texts(bw).push(mv[m@[j as int] as int].1));
        assert(m@.take(j + 1).map_values(|i: usize| mv[i as int].1) =~= m@.take(j as int).map_values(|i: usize| mv[i as int].1).push(mv[m@[j as int] as int].1));
        j = j + 1;
    }
    assert(m@.take(n as int) =~= m@);
    let top = match most_common_exec(&pats) {
        Some(p) => chars_of(p.as_str()),
        None => chars_of("error"),
    };
    let wfs = distinct_strings(&wfs_all);
    let examples = join(&ex, "; ");
    let ghost exm = if n >= 3 { m@.take(3) } else { m@ };
    assert(ex@.map_values(|p: Vec<char>| p@) =~= exm.map_values(|i: usize| mv[i as int].3));
    let tc = chars_of(t.as_str());
    let mut title: Vec<char> = Vec::new();
    push_chars(&mut title, &tc);
    push_str(&mut title, ": \"");
    push_chars(&mut title, &top);
    push_str(&mut title, "\" found in ");
    push_dec(&mut title, n as u64);
    push_str(&mut title, " I/O (");
    push_dec(&mut title, wfs.len() as u64);
    push_str(&mut title, " workflows)");
    let mut detail: Vec<char> = Vec::new();
    push_str(&mut detail, "Error patterns detected in activity I/O despite workflow success. Examples: ");
    push_chars(&mut detail, &examples);
    let r = InsightFinding {
        severity: if n >= 5 {
            InsightSeverity::Critical
        } else if n >= 2 {
            InsightSeverity::Warning
        } else {
            InsightSeverity::Info
        },
        category: InsightCategory::ErrorInOutput,
        title: string_of(&title),
        detail: string_of(&detail),
        affected_entities: wfs,
        computed_at: now,
    };
    assert(model_of(r).title =~= io_finding(mv, t@, m@).title);
    assert(model_of(r).detail =~= io_finding(mv, t@, m@).detail);
    r
}

/// Per activity type, in order of first appearance, the retry-storm finding, if any.
pub open spec fn retry_storm_section(items: Seq<(Seq<char>, ActivityExecution)>) -> Seq<FindingModel> {
    let ts = distinct(present(activity_type_keys(items)));
    collect(Seq::new(ts.len(), |g: int| retry_storm_finding(items, ts[g], positions_of(activity_type_keys(items), ts[g]))))
}

/// Per activity type, in order of first appearance, the failure-hotspot finding, if any.
pub open spec fn hotspot_section(items: Seq<(Seq<char>, ActivityExecution)>) -> Seq<FindingModel> {
    let ts = distinct(present(activity_type_keys(items)));
    collect(Seq::new(ts.len(), |g: int| failure_hotspot_finding(items, ts[g], positions_of(activity_type_keys(items), ts[g]))))
}

/// Per task queue, in order of first appearance, the queue-latency finding,
/// given each queue's median wait.
pub open spec fn queue_section(items: Seq<(Seq<char>, ActivityExecution)>, meds: Seq<int>) -> Seq<FindingModel> {
    let qs = distinct(present(queue_keys(items)));
    collect(Seq::new(qs.len(), |g: int| queue_latency_finding(qs[g], positions_of(queue_keys(items), qs[g]).len(), meds[g])))
}

/// The median queue wait of task queue `q`.
pub open spec fn queue_waits_of(items: Seq<(Seq<char>, ActivityExecution)>, q: Seq<char>) -> Seq<i128> {
    wait_keys(items, positions_of(queue_keys(items), q))
}

/// Per activity type with retried activities, in order of first
/// appearance, the activity-retry finding.
pub open spec fn retry_section(items: Seq<(Seq<char>, ActivityExecution)>) -> Seq<FindingModel> {
    let ts = distinct(present(retried_keys(items)));
    Seq::new(ts.len(), |g: int| activity_retry_finding(items, ts[g], positions_of(retried_keys(items), ts[g])))
}

/// Per activity type with error signals, in order of first appearance,
/// the error-in-I/O finding.
pub open spec fn io_section(cfg: InsightsConfig, items: Seq<(Seq<char>, ActivityExecution)>) -> Seq<FindingModel> {
    let ms = all_matches(cfg, items);
    let ts = distinct(present(match_keys(ms)));
    Seq::new(ts.len(), |g: int| io_finding(ms, ts[g], positions_of(match_keys(ms), ts[g])))
}

/// The findings on the sampled activities at time `now`, given the median
/// wait of each task queue: retry storms, queue latency, failure hotspots,
/// retried activities, error signals in I/O, then long-running activities.
pub open spec fn activity_findings(cfg: InsightsConfig, items: Seq<(Seq<char>, ActivityExecution)>, now: i64, meds: Seq<int>) -> Seq<FindingModel> {
    retry_storm_section(items) + queue_section(items, meds) + hotspot_section(items) + retry_section(items)
        + io_section(cfg, items) + match long_running_finding(items, now) {
            Some(f) => seq![f],
            None => Seq::empty(),
        }
}

/// Keys from the items, one per item.
fn type_keys_exec(samples: &[(String, Vec<ActivityExecution>)], idx: &Vec<(usize, usize)>, which: u8) -> (r: Vec<Option<String>>)
    requires
        index_ok(samples@, idx@),
    ensures
        which == 0 ==> opt_texts(r@) == activity_type_keys(flat(samples@)),
        which == 1 ==> opt_texts(r@) == retried_keys(flat(samples@)),
        which >= 2 ==> opt_texts(r@) == queue_keys(flat(samples@)),
{
    let ghost items = flat(samples@);
    let ghost ks = if which == 0 {
        activity_type_keys(items)
    } else if which == 1 {
        retried_keys(items)
    } else {
        queue_keys(items)
    };
    let mut r: Vec<Option<String>> = Vec::new();
    let mut i: usize = 0;
    while i < idx.len()
        invariant
            items == flat(samples@),
            index_ok(samples@, idx@),
            ks == if which == 0 { activity_type_keys(items) } else if which == 1 { retried_keys(items) } else { queue_keys(items) },
            i <= idx@.len(),
            opt_texts(r@) == ks.take(i as int),
        decreases idx.len() - i,
    {
        let (a, b) = idx[i];
        assert(items[i as int].1 == samples@[a as int].1@[b as int]);
        let act = &samples[a].1[b];
        let key: Option<String> = if which == 0 {
            Some(act.activity_type.clone())
        } else if which == 1 {
            if act.attempt >= 2 { Some(act.activity_type.clone()) } else { None }
        } else {
            match (&act.task_queue, &act.queue_wait) {
                (Some(q), Some(_)) => Some(q.clone()),
                _ => None,
            }
        };
        let ghost before = r@;
        r.push(key);
        assert(opt_texts(r@) =~= opt_texts(before).push(ks[i as int]));
        assert(ks.take(i + 1) =~= ks.take(i as int).push(ks[i as int]));
        i = i + 1;
    }
    assert(ks.take(idx.len() as int) =~= ks);
    r
}

/// Groups match the distinct present keys, with their positions.
pub open spec fn groups_ok(groups: Seq<Group>, keys: Seq<Option<Seq<char>>>) -> bool {
    &&& groups.len() == distinct(present(keys)).len()
    &&& forall|h: int| 0 <= h < groups.len() ==> {
        &&& (#[trigger] groups[h]).key@ == distinct(present(keys))[h]
        &&& groups[h].members@ == positions_of(keys, groups[h].key@)
    }
}

/// The retry-storm findings.
fn retry_storm_findings(samples: &[(String, Vec<ActivityExecution>)], idx: &Vec<(usize, usize)>, groups: &Vec<Group>, now: i64) -> (r: Vec<InsightFinding>)
    requires
        index_ok(samples@, idx@),
        groups_ok(groups@, activity_type_keys(flat(samples@))),
    ensures
        models(r@) == retry_storm_section(flat(samples@)),
        all_at(r@, now),
{
    let ghost items = flat(samples@);
    let ghost ks = activity_type_keys(items);
    let ghost ts = distinct(present(ks));
    let ghost opts = Seq::new(ts.len(), |g: int| retry_storm_finding(items, ts[g], positions_of(ks, ts[g])));
    let mut r: Vec<InsightFinding> = Vec::new();
    let mut g: usize = 0;
    while g < groups.len()
        invariant
            items == flat(samples@),
            ks == activity_type_keys(items),
            ts == distinct(present(ks)),
            opts == Seq::new(ts.len(), |g: int| retry_storm_finding(items, ts[g], positions_of(ks, ts[g]))),
            index_ok(samples@, idx@),
            groups_ok(groups@, ks),
            g <= groups@.len(),
            models(r@) == collect(opts.take(g as int)),
            all_at(r@, now),
        decreases groups.len() - g,
    {
        let grp = &groups[g];
        proof {
            assert(ks.len() == idx.len());
            lemma_positions_bounded(ks, grp.key@);
        }
        assert(opts.take(g + 1).drop_last() =~= opts.take(g as int));
        let ghost before = r@;
        match retry_storm_exec(samples, idx, &grp.key, &grp.members, now) {
            Some(f) => {
                r.push(f);
                assert(models(r@) =~= models(before).push(model_of(f)));
            },
            None => {},
        }
        g = g + 1;
    }
    assert(opts.take(groups.len() as int) =~= opts);
    r
}

/// The failure-hotspot findings.
fn hotspot_findings(samples: &[(String, Vec<ActivityExecution>)], idx: &Vec<(usize, usize)>, groups: &Vec<Group>, now: i64) -> (r: Vec<InsightFinding>)
    requires
        index_ok(samples@, idx@),
        groups_ok(groups@, activity_type_keys(flat(samples@))),
    ensures
        models(r@) == hotspot_section(flat(samples@)),
        all_at(r@, now),
{
    let ghost items = flat(samples@);
    let ghost ks = activity_type_keys(items);
    let ghost ts = distinct(present(ks));
    let ghost opts = Seq::new(ts.len(), |g: int| failure_hotspot_finding(items, ts[g], positions_of(ks, ts[g])));
    let mut r: Vec<InsightFinding> = Vec::new();
    let mut g: usize = 0;
    while g < groups.len()
        invariant
            items == flat(samples@),
            ks == activity_type_keys(items),
            ts == distinct(present(ks)),
            opts == Seq::new(ts.len(), |g: int| failure_hotspot_finding(items, ts[g], positions_of(ks, ts[g]))),
            index_ok(samples@, idx@),
            groups_ok(groups@, ks),
            g <= groups@.len(),
            models(r@) == collect(opts.take(g as int)),
            all_at(r@, now),
        decreases groups.len() - g,
    {
        let grp = &groups[g];
        proof {
            assert(ks.len() == idx.len());
            lemma_positions_bounded(ks, grp.key@);
        }
        assert(opts.take(g + 1).drop_last() =~= opts.take(g as int));
        let ghost before = r@;
        match failure_hotspot_exec(samples, idx, &grp.key, &grp.members, now) {
            Some(f) => {
                r.push(f);
                assert(models(r@) =~= models(before).push(model_of(f)));
            },
            None => {},
        }
        g = g + 1;
    }
    assert(opts.take(groups.len() as int) =~= opts);
    r
}

/// The activity-retry findings.
fn retry_findings(samples: &[(String, Vec<ActivityExecution>)], idx: &Vec<(usize, usize)>, now: i64) -> (r: Vec<InsightFinding>)
    requires
        index_ok(samples@, idx@),
    ensures
        models(r@) == retry_section(flat(samples@)),
        all_at(r@, now),
{
    let ghost items = flat(samples@);
    let ghost ks = retried_keys(items);
    let ghost ts = distinct(present(ks));
    let ghost all = Seq::new(ts.len(), |g: int| activity_retry_finding(items, ts[g], positions_of(ks, ts[g])));
    let keys = type_keys_exec(samples, idx, 1);
    let groups = group_positions(&keys);
    let mut r: Vec<InsightFinding> = Vec::new();
    let mut g: usize = 0;
    while g < groups.len()
        invariant
            items == flat(samples@),
            ks == retried_keys(items),
            ts == distinct(present(ks)),
            all == Seq::new(ts.len(), |g: int| activity_retry_finding(items, ts[g], positions_of(ks, ts[g]))),
            index_ok(samples@, idx@),
            opt_texts(keys@) == ks,
            groups_ok(groups@, ks),
            g <= groups@.len(),
            models(r@) == all.take(g as int),
            all_at(r@, now),
        decreases groups.len() - g,
    {
        let grp = &groups[g];
        proof {
            assert(ks.len() == idx.len());
            lemma_positions_bounded(ks, grp.key@);
        }
        let ghost before = r@;
        let f = activity_retry_exec(samples, idx, &grp.key, &grp.members, now);
        r.push(f);
        assert(models(r@) =~= models(before).push(model_of(f)));
        assert(all.take(g + 1) =~= all.take(g as int).push(all[g as int]));
        g = g + 1;
    }
    assert(all.take(groups.len() as int) =~= all);
    r
}

/// The error-in-I/O findings.
fn io_findings(cfg: &InsightsConfig, samples: &[(String, Vec<ActivityExecution>)], idx: &Vec<(usize, usize)>, now: i64) -> (r: Vec<InsightFinding>)
    requires
        index_ok(samples@, idx@),
    ensures
        models(r@) == io_section(*cfg, flat(samples@)),
        all_at(r@, now),
{
    let ms = all_matches_exec(cfg, samples, idx);
    let ghost mv = ms@.map_values(|x: IoMatch| io_model(x));
    let ghost ks = match_keys(mv);
    let ghost ts = distinct(present(ks));
    let ghost all = Seq::new(ts.len(), |g: int| io_finding(mv, ts[g], positions_of(ks, ts[g])));
    let mut keys: Vec<Option<String>> = Vec::new();
    let mut i: usize = 0;
    while i < ms.len()
        invariant
            mv == ms@.map_values(|x: IoMatch| io_model(x)),
            ks == match_keys(mv),
            i <= ms@.len(),
            opt_texts(keys@) == ks.take(i as int),
        decreases ms.len() - i,
    {
        let ghost before = keys@;
        keys.push(Some(ms[i].activity_type.clone()));
        assert(opt_texts(keys@) =~= opt_texts(before).push(ks[i as int]));
        assert(ks.take(i + 1) =~= ks.take(i as int).push(ks[i as int]));
        i = i + 1;
    }
    assert(ks.take(ms.len() as int) =~= ks);
    let groups = group_positions(&keys);
    let mut r: Vec<InsightFinding> = Vec::new();
    let mut g: usize = 0;
    while g < groups.len()
        invariant
            mv == ms@.map_values(|x: IoMatch| io_model(x)),
            mv == all_matches(*cfg, flat(samples@)),
            ks == match_keys(mv),
            ts == distinct(present(ks)),
            all == Seq::new(ts.len(), |g: int| io_finding(mv, ts[g], positions_of(ks, ts[g]))),
            opt_texts(keys@) == ks,
            groups_ok(groups@, ks),
            g <= groups@.len(),
            models(r@) == all.take(g as int),
            all_at(r@, now),
        decreases groups.len() - g,
    {
        let grp = &groups[g];
        proof {
            assert(ks.len() == ms.len());
            lemma_positions_bounded(ks, grp.key@);
        }
        let ghost before = r@;
        let f = io_finding_exec(&ms, &grp.key, &grp.members, now);
        r.push(f);
        assert(models(r@) =~= models(before).push(model_of(f)));
        assert(all.take(g + 1) =~= all.take(g as int).push(all[g as int]));
        g = g + 1;
    }
    assert(all.take(groups.len() as int) =~= all);
    r
}

/// The queue-latency findings, with the median wait of each queue.
fn queue_findings(samples: &[(String, Vec<ActivityExecution>)], idx: &Vec<(usize, usize)>, now: i64) -> (r: (Vec<InsightFinding>, Ghost<Seq<int>>))
    requires
        index_ok(samples@, idx@),
    ensures
        r.1@.len() == distinct(present(queue_keys(flat(samples@)))).len(),
        forall|g: int| 0 <= g < r.1@.len() ==> is_median(
            queue_waits_of(flat(samples@), distinct(present(queue_keys(flat(samples@))))[g]), #[trigger] r.1@[g]),
        models(r.0@) == queue_section(flat(samples@), r.1@),
        all_at(r.0@, now),
{
    let ghost items = flat(samples@);
    let ghost ks = queue_keys(items);
    let ghost qs = distinct(present(ks));
    let keys = type_keys_exec(samples, idx, 2);
    let groups = group_positions(&keys);
    let ghost mut meds: Seq<int> = Seq::empty();
    let mut r: Vec<InsightFinding> = Vec::new();
    let mut g: usize = 0;
    while g < groups.len()
        invariant
            items == flat(samples@),
            ks == queue_keys(items),
            qs == distinct(present(ks)),
            index_ok(samples@, idx@),
            opt_texts(keys@) == ks,
            groups_ok(groups@, ks),
            g <= groups@.len(),
            meds.len() == g,
            forall|h: int| 0 <= h < g ==> is_median(queue_waits_of(items, qs[h]), #[trigger] meds[h]),
            models(r@) == collect(Seq::new(g as nat, |h: int| queue_latency_finding(qs[h], positions_of(ks, qs[h]).len(), meds[h]))),
            all_at(r@, now),
        decreases groups.len() - g,
    {
        let grp = &groups[g];
        proof {
            assert(ks.len() == idx.len());
            lemma_positions_bounded(ks, grp.key@);
        }
        assert(forall|j: int| 0 <= j < grp.members@.len() ==> items[#[trigger] grp.members@[j] as int].1.queue_wait is Some);
        let med = median_wait(samples, idx, &grp.members);
        let ghost old_meds = meds;
        let ghost before = r@;
        proof {
            meds = meds.push(med as int);
        }
        let ghost prev = Seq::new(g as nat, |h: int| queue_latency_finding(qs[h], positions_of(ks, qs[h]).len(), old_meds[h]));
        let ghost next = Seq::new((g + 1) as nat, |h: int| queue_latency_finding(qs[h], positions_of(ks, qs[h]).len(), meds[h]));
        assert(next.drop_last() =~= prev);
        match queue_latency_exec(&grp.key, grp.members.len(), med, now) {
            Some(f) => {
                r.push(f);
                assert(models(r@) =~= models(before).push(model_of(f)));
            },
            None => {},
        }
        g = g + 1;
    }
    let ghost fin = Seq::new(groups.len() as nat, |h: int| queue_latency_finding(qs[h], positions_of(ks, qs[h]).len(), meds[h]));
    assert(fin =~= Seq::new(qs.len(), |g: int| queue_latency_finding(qs[g], positions_of(queue_keys(items), qs[g]).len(), meds[g])));
    (r, Ghost(meds))
}

/// The findings on the sampled activities at time `now`, before ranking.
/// The median wait of each task queue is the middle value of its waits in
/// ascending order.
pub fn compute_activity_findings_at(samples: &[(String, Vec<ActivityExecution>)], config: &InsightsConfig, now: i64) -> (r: Vec<InsightFinding>)
    requires
        time_ok(now),
        started_ok(flat(samples@)),
    ensures
        all_at(r@, now),
        exists|meds: Seq<int>| {
            &&& meds.len() == distinct(present(queue_keys(flat(samples@)))).len()
            &&& forall|g: int| 0 <= g < meds.len() ==> is_median(
                queue_waits_of(flat(samples@), distinct(present(queue_keys(flat(samples@))))[g]), #[trigger] meds[g])
            &&& models(r@) == #[trigger] activity_findings(*config, flat(samples@), now, meds)
        },
{
    let idx = flatten_index(samples);
    let tkeys = type_keys_exec(samples, &idx, 0);
    let groups = group_positions(&tkeys);
    let mut r = retry_storm_findings(samples, &idx, &groups, now);
    let (mut q, Ghost(meds)) = queue_findings(samples, &idx, now);
    let mut h = hotspot_findings(samples, &idx, &groups, now);
    let mut t = retry_findings(samples, &idx, now);
    let mut io = io_findings(config, samples, &idx, now);
    let long = long_running_exec(samples, &idx, now);
    let ghost a = r@;
    r.append(&mut q);
    let ghost b = r@;
    r.append(&mut h);
    let ghost c = r@;
    r.append(&mut t);
    let ghost d = r@;
    r.append(&mut io);
    let ghost e = r@;
    match long {
        Some(f) => r.push(f),
        None => {},
    }
    let ghost items = flat(samples@);
    assert(models(r@) =~= retry_storm_section(items) + queue_section(items, meds) + hotspot_section(items)
        + retry_section(items) + io_section(*config, items) + match long_running_finding(items, now) {
            Some(f) => seq![f],
            None => Seq::empty(),
        });
    assert(models(r@) == activity_findings(*config, flat(samples@), now, meds));
    r
}

/// The findings on the sampled activities now, before ranking.
pub fn compute_activity_findings(samples: &[(String, Vec<ActivityExecution>)], config: &InsightsConfig) -> (r: Vec<InsightFinding>)
    requires
        started_ok(flat(samples@)),
    ensures
        exists|now: i64| time_ok(now) && #[trigger] all_at(r@, now),
        exists|now: i64, meds: Seq<int>| {
            &&& time_ok(now)
            &&& meds.len() == distinct(present(queue_keys(flat(samples@)))).len()
            &&& forall|g: int| 0 <= g < meds.len() ==> is_median(
                queue_waits_of(flat(samples@), distinct(present(queue_keys(flat(samples@))))[g]), #[trigger] meds[g])
            &&& models(r@) == #[trigger] activity_findings(*config, flat(samples@), now, meds)
        },
{
    let now = crate::clock::now_ms();
    let r = compute_activity_findings_at(samples, config, now);
    assert(time_ok(now) && all_at(r@, now));
    r
}

} // verus!
