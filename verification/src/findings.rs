//! Insight detection over workflow lists and sampled histories.
//!
//! Groups are visited in order of first appearance, and the entities a
//! finding lists are in order of first appearance too.

use vstd::prelude::*;
use crate::clock::now_ms;
use crate::grouping::{collect, distinct, group_positions, opt_texts, positions_of, present, texts, Group};
use crate::insights::{ids_at as selected_ids, phase_positions, pick, running_keys, InsightFinding};
use crate::order::{stable_order, stable_order_asc};
use crate::grouping::contains_text;
use crate::model::{time_ok, WorkflowSummary};
use crate::status::{is_failed_status, InsightCategory, InsightSeverity, WorkflowStatus};
use crate::text::{dec, idec, push_chars, push_dec, push_idec, push_str, string_of, chars_of};

verus! {

/// What a finding says, apart from when it was computed.
pub struct FindingModel {
    pub severity: InsightSeverity,
    pub category: InsightCategory,
    pub title: Seq<char>,
    pub detail: Seq<char>,
    pub affected: Seq<Seq<char>>,
}

/// The model of a finding.
pub open spec fn model_of(f: InsightFinding) -> FindingModel {
    FindingModel {
        severity: f.severity,
        category: f.category,
        title: f.title@,
        detail: f.detail@,
        affected: texts(f.affected_entities@),
    }
}

/// The models of a sequence of findings.
pub open spec fn models(fs: Seq<InsightFinding>) -> Seq<FindingModel> {
    fs.map_values(|f: InsightFinding| model_of(f))
}

/// Every finding was computed at `now`.
pub open spec fn all_at(fs: Seq<InsightFinding>, now: i64) -> bool {
    forall|i: int| 0 <= i < fs.len() ==> (#[trigger] fs[i]).computed_at == now
}

/// `n / d` rounded to the nearest integer, ties to even.
pub open spec fn round_div(n: int, d: int) -> int {
    let q = n / d;
    let r = n % d;
    if 2 * r > d || (2 * r == d && q % 2 == 1) { q + 1 } else { q }
}

/// `n / d` rounded to the nearest integer, ties to even.
pub fn round_div_exec(n: u128, d: u128) -> (r: u128)
    requires
        d > 0,
        n < 0x1_0000_0000_0000_0000_0000_0000_0000,
        d < 0x1_0000_0000_0000_0000_0000_0000_0000,
    ensures
        r == round_div(n as int, d as int),
{
    let q = n / d;
    let m = n % d;
    if 2 * m > d || (2 * m == d && q % 2 == 1) { q + 1 } else { q }
}

/// Doubles `m` until it is at least `2^52 * q`; the result and how many
/// doublings it took.
pub open spec fn scale_up(m: int, q: int) -> (int, nat)
    decreases (if 0 < m < 4_503_599_627_370_496 * q { 4_503_599_627_370_496 * q - m } else { 0 }),
{
    if 0 < m < 4_503_599_627_370_496 * q {
        let (a, k) = scale_up(2 * m, q);
        (a, k + 1)
    } else {
        (m, 0)
    }
}

/// Two to the power `k`.
pub open spec fn two_to(k: nat) -> int
    decreases k,
{
    if k == 0 { 1 } else { 2 * two_to((k - 1) as nat) }
}

/// The whole percent that `format!("{:.0}", n as f64 / d as f64 * 100.0)`
/// writes for `0 <= n <= d < 2^53`: the quotient rounded to a double
/// (`mant * 2^-s` with a 53-bit `mant`), the product with 100 rounded to a
/// double (`r * 2^(t-s)`), and that value rounded to a whole number, every
/// rounding to nearest with ties to even.
pub open spec fn float_percent(n: int, d: int) -> int {
    if n <= 0 {
        0
    } else {
        let (m, s) = scale_up(n, d);
        let mant = round_div(m, d);
        let t: nat = if 100 * mant < 576_460_752_303_423_488 { 6 } else { 7 };
        let r = round_div(100 * mant, two_to(t));
        if s >= t { round_div(r, two_to((s - t) as nat)) } else { r * two_to((t - s) as nat) }
    }
}

/// The percent of `n` out of `d` as the finding texts write it: as the
/// double computation does for `d` below 2^53, else the ratio rounded to
/// nearest with ties to even.
pub open spec fn percent_value(n: int, d: int) -> int {
    if d < 9_007_199_254_740_992 { float_percent(n, d) } else { round_div(100 * n, d) }
}

/// Powers of two grow with the exponent.
proof fn lemma_two_to_mono(a: nat, b: nat)
    requires
        a <= b,
    ensures
        1 <= two_to(a) <= two_to(b),
    decreases b,
{
    if b > a {
        lemma_two_to_mono(a, (b - 1) as nat);
    } else if a > 0 {
        lemma_two_to_mono((a - 1) as nat, (b - 1) as nat);
    }
}

/// A few powers of two.
proof fn lemma_two_to_values()
    ensures
        two_to(6) == 64,
        two_to(7) == 128,
        two_to(51) == 2_251_799_813_685_248,
{
    reveal_with_fuel(two_to, 52);
}

/// `2^k`, for `2^k` at most `bound`.
fn two_to_exec(k: u128, bound: u128) -> (r: u128)
    requires
        two_to(k as nat) <= bound,
    ensures
        r == two_to(k as nat),
{
    let mut r: u128 = 1;
    let mut i: u128 = 0;
    while i < k
        invariant
            i <= k,
            two_to(k as nat) <= bound,
            r == two_to(i as nat),
        decreases k - i,
    {
        proof {
            lemma_two_to_mono((i + 1) as nat, k as nat);
        }
        r = 2 * r;
        i = i + 1;
    }
    r
}

/// A rounded quotient is at most one above the quotient.
proof fn lemma_round_div_le(a: int, b: int)
    requires
        a >= 0,
        b >= 1,
    ensures
        0 <= round_div(a, b) <= a / b + 1,
        a / b <= a,
{
    assert(a / b <= a) by (nonlinear_arith)
        requires a >= 0, b >= 1;
    assert(a / b >= 0) by (nonlinear_arith)
        requires a >= 0, b >= 1;
}

/// The percent of `n` out of `d` as the finding texts write it.
pub fn percent_exec(n: u128, d: u128) -> (r: u128)
    requires
        n <= d,
        0 < d < 0x1_0000_0000_0000_0000,
    ensures
        r == percent_value(n as int, d as int),
        r < 0x1_0000_0000_0000_0000,
{
    if d >= 9_007_199_254_740_992 {
        let p = round_div_exec(100 * n, d);
        assert(p <= 100) by (nonlinear_arith)
            requires p == round_div(100 * n as int, d as int), n <= d, d > 0;
        return p;
    }
    if n == 0 {
        return 0;
    }
    let mut m: u128 = n;
    let mut s: u128 = 0;
    while m < 4_503_599_627_370_496 * d
        invariant
            0 < n <= d < 9_007_199_254_740_992,
            0 < m < 9_007_199_254_740_992 * d,
            m == n * two_to(s as nat),
            scale_up(n as int, d as int).0 == scale_up(m as int, d as int).0,
            scale_up(n as int, d as int).1 == scale_up(m as int, d as int).1 + s,
        decreases 9_007_199_254_740_992 * d - m,
    {
        assert(2 * m == n * two_to((s + 1) as nat)) by (nonlinear_arith)
            requires m == n * two_to(s as nat), two_to((s + 1) as nat) == 2 * two_to(s as nat);
        proof {
            lemma_two_to_mono(0, s as nat);
        }
        assert(s < m) by {
            assert(two_to(s as nat) <= m) by (nonlinear_arith)
                requires m == n * two_to(s as nat), n >= 1, two_to(s as nat) >= 1;
            lemma_two_to_above(s as nat);
        }
        m = 2 * m;
        s = s + 1;
    }
    proof {
        lemma_two_to_values();
        assert(two_to(s as nat) >= 4_503_599_627_370_496) by (nonlinear_arith)
            requires m == n * two_to(s as nat), m >= 4_503_599_627_370_496 * d, 0 < n <= d;
        if s < 52 {
            lemma_two_to_mono(s as nat, 51);
        }
        assert(two_to(s as nat) <= m) by (nonlinear_arith)
            requires m == n * two_to(s as nat), n >= 1, two_to(s as nat) >= 1;
    }
    let mant = round_div_exec(m, d);
    proof {
        lemma_round_div_le(m as int, d as int);
        assert(m / d <= 9_007_199_254_740_992) by (nonlinear_arith)
            requires m < 9_007_199_254_740_992 * d, d >= 1;
    }
    let prod = 100 * mant;
    let t: u128 = if prod < 576_460_752_303_423_488 { 6 } else { 7 };
    let r = round_div_exec(prod, if t == 6 { 64 } else { 128 });
    proof {
        lemma_round_div_le(prod as int, two_to(t as nat));
        lemma_two_to_mono((s - t) as nat, s as nat);
    }
    let v = round_div_exec(r, two_to_exec(s - t, m));
    proof {
        lemma_round_div_le(r as int, two_to((s - t) as nat));
    }
    v
}

/// Below `2^k` lies `k`.
proof fn lemma_two_to_above(k: nat)
    ensures
        k < two_to(k),
    decreases k,
{
    if k > 0 {
        lemma_two_to_above((k - 1) as nat);
    }
}

/// The workflow ids at positions `m` of `ws`.
pub open spec fn ids_of(ws: Seq<WorkflowSummary>, m: Seq<usize>) -> Seq<Seq<char>> {
    m.map_values(|i: usize| ws[i as int].workflow_id@)
}

/// The positions among `m` whose workflow has a failed status, in order.
pub open spec fn failed_among(ws: Seq<WorkflowSummary>, m: Seq<usize>) -> Seq<usize>
    decreases m.len(),
{
    if m.len() == 0 {
        Seq::empty()
    } else {
        let prev = failed_among(ws, m.drop_last());
        if is_failed_status(ws[m.last() as int].status) { prev.push(m.last()) } else { prev }
    }
}

/// Filtering keeps no more positions than it is given.
pub proof fn lemma_failed_len(ws: Seq<WorkflowSummary>, m: Seq<usize>)
    ensures
        failed_among(ws, m).len() <= m.len(),
    decreases m.len(),
{
    if m.len() > 0 {
        lemma_failed_len(ws, m.drop_last());
    }
}

/// Every position of `positions_of(keys, t)` is below `keys.len()`, and they increase.
pub proof fn lemma_positions_bounded(keys: Seq<Option<Seq<char>>>, t: Seq<char>)
    requires
        keys.len() <= usize::MAX,
    ensures
        forall|j: int| 0 <= j < positions_of(keys, t).len() ==> (#[trigger] positions_of(keys, t)[j]) < keys.len()
            && keys[positions_of(keys, t)[j] as int] == Some(t),
        forall|a: int, b: int| 0 <= a < b < positions_of(keys, t).len() ==> positions_of(keys, t)[a] < positions_of(keys, t)[b],
    decreases keys.len(),
{
    if keys.len() > 0 {
        lemma_positions_bounded(keys.drop_last(), t);
        let prev = positions_of(keys.drop_last(), t);
        let cur = positions_of(keys, t);
        assert forall|j: int| 0 <= j < prev.len() implies keys[prev[j] as int] == Some(t) by {
            assert(keys.drop_last()[prev[j] as int] == Some(t));
        }
        if keys.last() == Some(t) {
            assert(cur == prev.push((keys.len() - 1) as usize));
            assert forall|j: int| 0 <= j < cur.len() implies (#[trigger] cur[j]) < keys.len()
                && keys[cur[j] as int] == Some(t) by {
                if j < prev.len() {
                    assert(cur[j] == prev[j]);
                }
            }
            assert forall|a: int, b: int| 0 <= a < b < cur.len() implies cur[a] < cur[b] by {
                if b < prev.len() {
                    assert(cur[a] == prev[a] && cur[b] == prev[b]);
                } else {
                    assert(cur[a] == prev[a]);
                    assert(prev[a] < keys.drop_last().len());
                }
            }
        } else {
            assert(cur == prev);
        }
    }
}

/// The type keys of a workflow list.
pub open spec fn type_keys(ws: Seq<WorkflowSummary>) -> Seq<Option<Seq<char>>> {
    Seq::new(ws.len(), |i: int| Some(ws[i].workflow_type@))
}

/// The severity of a failure rate of `failed` out of `total`.
pub open spec fn rate_severity(failed: int, total: int) -> Option<InsightSeverity> {
    if 100 * failed >= 50 * total {
        Some(InsightSeverity::Critical)
    } else if 100 * failed >= 25 * total {
        Some(InsightSeverity::Warning)
    } else if 100 * failed >= 10 * total {
        Some(InsightSeverity::Info)
    } else {
        None
    }
}

/// The finding on the workflows of type `t` from the list alone: every
/// execution failed, or a high share of them did.
pub open spec fn type_finding(ws: Seq<WorkflowSummary>, t: Seq<char>) -> Option<FindingModel> {
    let m = positions_of(type_keys(ws), t);
    let total = m.len() as int;
    let f = failed_among(ws, m);
    let nf = f.len() as int;
    if total >= 2 && nf == total {
        Some(FindingModel {
            severity: InsightSeverity::Critical,
            category: InsightCategory::TypeAnomaly,
            title: t + ": all "@ + dec(total as nat) + " executions failed/terminated/timed out"@,
            detail: "Every execution of "@ + t
                + " has ended in failure. This type appears to be completely broken."@,
            affected: ids_of(ws, m),
        })
    } else if total >= 3 && nf > 0 && rate_severity(nf, total) is Some {
        let pct = percent_value(nf, total as int);
        Some(FindingModel {
            severity: rate_severity(nf, total)->0,
            category: InsightCategory::FailureRate,
            title: t + ": "@ + dec(nf as nat) + "/"@ + dec(total as nat) + " failed ("@ + dec(pct as nat) + "%)"@,
            detail: "Workflow type "@ + t + " has a "@ + dec(pct as nat) + "% failure rate across "@
                + dec(total as nat) + " executions."@,
            affected: ids_of(ws, f),
        })
    } else {
        None
    }
}

/// Whole hours from `start` to `now`, truncated toward zero.
pub open spec fn hours_between(now: i64, start: i64) -> int {
    if now >= start { (now - start) / 3_600_000 } else { -((start - now) / 3_600_000) }
}

/// The type keys of the running workflows that have run for two hours or more.
pub open spec fn stuck_keys(ws: Seq<WorkflowSummary>, now: i64) -> Seq<Option<Seq<char>>> {
    Seq::new(ws.len(), |i: int|
        if ws[i].status == WorkflowStatus::Running && hours_between(now, ws[i].start_time) >= 2 {
            Some(ws[i].workflow_type@)
        } else {
            None
        })
}

/// The largest running time, in hours, among the positions `m`.
pub open spec fn max_hours(ws: Seq<WorkflowSummary>, now: i64, m: Seq<usize>) -> int
    decreases m.len(),
{
    if m.len() == 0 {
        0
    } else {
        let prev = max_hours(ws, now, m.drop_last());
        let h = hours_between(now, ws[m.last() as int].start_time);
        if m.len() == 1 || h > prev { h } else { prev }
    }
}

/// The finding on the stuck running workflows of type `t`.
pub open spec fn stuck_finding(ws: Seq<WorkflowSummary>, now: i64, t: Seq<char>) -> FindingModel {
    let m = positions_of(stuck_keys(ws, now), t);
    let mh = max_hours(ws, now, m);
    FindingModel {
        severity: if mh >= 6 { InsightSeverity::Critical } else { InsightSeverity::Warning },
        category: InsightCategory::StuckWorkflow,
        title: dec(m.len()) + " "@ + t + " workflow"@ + (if m.len() == 1 { Seq::empty() } else { "s"@ })
            + " running > 2h"@,
        detail: "Longest running: "@ + idec(mh) + "h. These workflows may be stuck or require investigation."@,
        affected: ids_of(ws, m),
    }
}

/// The findings a workflow list shows at time `now`: per type, in order of
/// first appearance, an all-failed or failure-rate finding; then, per type,
/// a finding on the workflows running for two hours or more.
pub open spec fn list_findings(ws: Seq<WorkflowSummary>, now: i64) -> Seq<FindingModel> {
    let types = distinct(present(type_keys(ws)));
    let stuck = distinct(present(stuck_keys(ws, now)));
    collect(Seq::new(types.len(), |g: int| type_finding(ws, types[g])))
        + Seq::new(stuck.len(), |g: int| stuck_finding(ws, now, stuck[g]))
}

/// All start times of the list are within the supported range.
pub open spec fn starts_ok(ws: Seq<WorkflowSummary>) -> bool {
    forall|i: int| 0 <= i < ws.len() ==> time_ok(#[trigger] ws[i].start_time)
}

/// The workflow ids at the given positions.
fn ids_at(ws: &[WorkflowSummary], m: &Vec<usize>) -> (r: Vec<String>)
    requires
        forall|j: int| 0 <= j < m@.len() ==> (#[trigger] m@[j]) < ws@.len(),
    ensures
        texts(r@) == ids_of(ws@, m@),
{
    let mut r: Vec<String> = Vec::new();
    let mut j: usize = 0;
    while j < m.len()
        invariant
            j <= m@.len(),
            forall|k: int| 0 <= k < m@.len() ==> (#[trigger] m@[k]) < ws@.len(),
            texts(r@) == ids_of(ws@, m@.take(j as int)),
        decreases m.len() - j,
    {
        let ghost before = r@;
        r.push(ws[m[j]].workflow_id.clone());
        assert(texts(r@) =~= texts(before).push(ws@[m@[j as int] as int].workflow_id@));
        assert(ids_of(ws@, m@.take(j + 1)) =~= ids_of(ws@, m@.take(j as int)).push(ws@[m@[j as int] as int].workflow_id@));
        j = j + 1;
    }
    assert(m@.take(m.len() as int) =~= m@);
    r
}

/// The positions among `m` whose workflow failed.
fn failed_positions(ws: &[WorkflowSummary], m: &Vec<usize>) -> (r: Vec<usize>)
    requires
        forall|j: int| 0 <= j < m@.len() ==> (#[trigger] m@[j]) < ws@.len(),
    ensures
        r@ == failed_among(ws@, m@),
        forall|j: int| 0 <= j < r@.len() ==> (#[trigger] r@[j]) < ws@.len(),
{
    let mut r: Vec<usize> = Vec::new();
    let mut j: usize = 0;
    while j < m.len()
        invariant
            j <= m@.len(),
            forall|k: int| 0 <= k < m@.len() ==> (#[trigger] m@[k]) < ws@.len(),
            r@ == failed_among(ws@, m@.take(j as int)),
            forall|k: int| 0 <= k < r@.len() ==> (#[trigger] r@[k]) < ws@.len(),
        decreases m.len() - j,
    {
        assert(m@.take(j + 1).drop_last() =~= m@.take(j as int));
        if ws[m[j]].status.is_failure() {
            r.push(m[j]);
        }
        j = j + 1;
    }
    assert(m@.take(m.len() as int) =~= m@);
    r
}

/// The finding of one type from the list alone, if any.
fn type_finding_exec(ws: &[WorkflowSummary], t: &String, m: &Vec<usize>, now: i64) -> (r: Option<InsightFinding>)
    requires
        m@ == positions_of(type_keys(ws@), t@),
        forall|j: int| 0 <= j < m@.len() ==> (#[trigger] m@[j]) < ws@.len(),
    ensures
        match r {
            Some(f) => type_finding(ws@, t@) == Some(model_of(f)) && f.computed_at == now,
            None => type_finding(ws@, t@) is None,
        },
{
    let total = m.len();
    let f = failed_positions(ws, m);
    let nf = f.len();
    proof {
        lemma_failed_len(ws@, m@);
    }
    let tc = chars_of(t.as_str());
    if total >= 2 && nf == total {
        let mut title: Vec<char> = Vec::new();
        push_chars(&mut title, &tc);
        push_str(&mut title, ": all ");
        push_dec(&mut title, total as u64);
        push_str(&mut title, " executions failed/terminated/timed out");
        let mut detail: Vec<char> = Vec::new();
        push_str(&mut detail, "Every execution of ");
        push_chars(&mut detail, &tc);
        push_str(&mut detail, " has ended in failure. This type appears to be completely broken.");
        let affected = ids_at(ws, m);
        return Some(InsightFinding {
            severity: InsightSeverity::Critical,
            category: InsightCategory::TypeAnomaly,
            title: string_of(&title),
            detail: string_of(&detail),
            affected_entities: affected,
            computed_at: now,
        });
    }
    if total < 3 || nf == 0 {
        return None;
    }
    let nf128 = nf as u128;
    let total128 = total as u128;
    let severity = if 100 * nf128 >= 50 * total128 {
        InsightSeverity::Critical
    } else if 100 * nf128 >= 25 * total128 {
        InsightSeverity::Warning
    } else if 100 * nf128 >= 10 * total128 {
        InsightSeverity::Info
    } else {
        return None;
    };
    let pct = percent_exec(nf128, total128);
    let mut title: Vec<char> = Vec::new();
    push_chars(&mut title, &tc);
    push_str(&mut title, ": ");
    push_dec(&mut title, nf as u64);
    push_str(&mut title, "/");
    push_dec(&mut title, total as u64);
    push_str(&mut title, " failed (");
    push_dec(&mut title, pct as u64);
    push_str(&mut title, "%)");
    let mut detail: Vec<char> = Vec::new();
    push_str(&mut detail, "Workflow type ");
    push_chars(&mut detail, &tc);
    push_str(&mut detail, " has a ");
    push_dec(&mut detail, pct as u64);
    push_str(&mut detail, "% failure rate across ");
    push_dec(&mut detail, total as u64);
    push_str(&mut detail, " executions.");
    let affected = ids_at(ws, &f);
    Some(InsightFinding {
        severity,
        category: InsightCategory::FailureRate,
        title: string_of(&title),
        detail: string_of(&detail),
        affected_entities: affected,
        computed_at: now,
    })
}

/// Whole hours from `start` to `now`, truncated toward zero.
fn hours_between_exec(now: i64, start: i64) -> (r: i64)
    requires
        time_ok(now),
        time_ok(start),
    ensures
        r == hours_between(now, start),
{
    if now >= start { (now - start) / 3_600_000 } else { -((start - now) / 3_600_000) }
}

/// The finding on one group of stuck workflows.
fn stuck_finding_exec(ws: &[WorkflowSummary], now: i64, t: &String, m: &Vec<usize>) -> (r: InsightFinding)
    requires
        time_ok(now),
        starts_ok(ws@),
        m@ == positions_of(stuck_keys(ws@, now), t@),
        forall|j: int| 0 <= j < m@.len() ==> (#[trigger] m@[j]) < ws@.len(),
    ensures
        model_of(r) == stuck_finding(ws@, now, t@),
        r.computed_at == now,
{
    let mut mh: i64 = 0;
    let mut j: usize = 0;
    while j < m.len()
        invariant
            time_ok(now),
            starts_ok(ws@),
            j <= m@.len(),
            forall|k: int| 0 <= k < m@.len() ==> (#[trigger] m@[k]) < ws@.len(),
            mh == max_hours(ws@, now, m@.take(j as int)),
        decreases m.len() - j,
    {
        assert(m@.take(j + 1).drop_last() =~= m@.take(j as int));
        let h = hours_between_exec(now, ws[m[j]].start_time);
        if j == 0 || h > mh {
            mh = h;
        }
        j = j + 1;
    }
    assert(m@.take(m.len() as int) =~= m@);
    let count = m.len();
    let tc = chars_of(t.as_str());
    let mut title: Vec<char> = Vec::new();
    push_dec(&mut title, count as u64);
    push_str(&mut title, " ");
    push_chars(&mut title, &tc);
    push_str(&mut title, " workflow");
    if count != 1 {
        push_str(&mut title, "s");
    }
    push_str(&mut title, " running > 2h");
    let mut detail: Vec<char> = Vec::new();
    push_str(&mut detail, "Longest running: ");
    push_idec(&mut detail, mh);
    push_str(&mut detail, "h. These workflows may be stuck or require investigation.");
    let affected = ids_at(ws, m);
    let r = InsightFinding {
        severity: if mh >= 6 { InsightSeverity::Critical } else { InsightSeverity::Warning },
        category: InsightCategory::StuckWorkflow,
        title: string_of(&title),
        detail: string_of(&detail),
        affected_entities: affected,
        computed_at: now,
    };
    assert(model_of(r).title =~= stuck_finding(ws@, now, t@).title);
    assert(model_of(r).detail =~= stuck_finding(ws@, now, t@).detail);
    r
}

/// The findings a workflow list shows at time `now`, before ranking.
pub fn compute_list_findings_at(workflows: &[WorkflowSummary], now: i64) -> (r: Vec<InsightFinding>)
    requires
        time_ok(now),
        starts_ok(workflows@),
    ensures
        models(r@) == list_findings(workflows@, now),
        all_at(r@, now),
{
    let ghost ws = workflows@;
    let mut keys: Vec<Option<String>> = Vec::new();
    let mut i: usize = 0;
    while i < workflows.len()
        invariant
            ws == workflows@,
            i <= ws.len(),
            opt_texts(keys@) == type_keys(ws).take(i as int),
        decreases workflows.len() - i,
    {
        let ghost before = keys@;
        keys.push(Some(workflows[i].workflow_type.clone()));
        assert(opt_texts(keys@) =~= opt_texts(before).push(Some(ws[i as int].workflow_type@)));
        assert(type_keys(ws).take(i + 1) =~= type_keys(ws).take(i as int).push(Some(ws[i as int].workflow_type@)));
        i = i + 1;
    }
    assert(type_keys(ws).take(ws.len() as int) =~= type_keys(ws));
    let groups = group_positions(&keys);
    let ghost types = distinct(present(type_keys(ws)));
    let ghost opts = Seq::new(types.len(), |g: int| type_finding(ws, types[g]));
    let mut r: Vec<InsightFinding> = Vec::new();
    let mut g: usize = 0;
    while g < groups.len()
        invariant
            ws == workflows@,
            opt_texts(keys@) == type_keys(ws),
            types == distinct(present(type_keys(ws))),
            opts == Seq::new(types.len(), |g: int| type_finding(ws, types[g])),
            groups@.len() == types.len(),
            forall|h: int| 0 <= h < groups@.len() ==> {
                &&& (#[trigger] groups@[h]).key@ == types[h]
                &&& groups@[h].members@ == positions_of(type_keys(ws), groups@[h].key@)
            },
            g <= groups@.len(),
            models(r@) == collect(opts.take(g as int)),
            all_at(r@, now),
        decreases groups.len() - g,
    {
        let grp = &groups[g];
        proof {
            lemma_positions_bounded(type_keys(ws), grp.key@);
        }
        assert(opts.take(g + 1).drop_last() =~= opts.take(g as int));
        let ghost before = r@;
        match type_finding_exec(workflows, &grp.key, &grp.members, now) {
            Some(f) => {
                r.push(f);
                assert(models(r@) =~= models(before).push(model_of(f)));
            },
            None => {},
        }
        g = g + 1;
    }
    assert(opts.take(groups.len() as int) =~= opts);
    let ghost first = r@;
    let mut skeys: Vec<Option<String>> = Vec::new();
    let mut i: usize = 0;
    while i < workflows.len()
        invariant
            ws == workflows@,
            time_ok(now),
            starts_ok(ws),
            i <= ws.len(),
            opt_texts(skeys@) == stuck_keys(ws, now).take(i as int),
        decreases workflows.len() - i,
    {
        let ghost before = skeys@;
        let w = &workflows[i];
        let key = if w.status == WorkflowStatus::Running && hours_between_exec(now, w.start_time) >= 2 {
            Some(w.workflow_type.clone())
        } else {
            None
        };
        skeys.push(key);
        assert(opt_texts(skeys@) =~= opt_texts(before).push(stuck_keys(ws, now)[i as int]));
        assert(stuck_keys(ws, now).take(i + 1) =~= stuck_keys(ws, now).take(i as int).push(stuck_keys(ws, now)[i as int]));
        i = i + 1;
    }
    assert(stuck_keys(ws, now).take(ws.len() as int) =~= stuck_keys(ws, now));
    let sgroups = group_positions(&skeys);
    let ghost stuck = distinct(present(stuck_keys(ws, now)));
    let ghost second = Seq::new(stuck.len(), |g: int| stuck_finding(ws, now, stuck[g]));
    let mut g: usize = 0;
    while g < sgroups.len()
        invariant
            ws == workflows@,
            time_ok(now),
            starts_ok(ws),
            opt_texts(skeys@) == stuck_keys(ws, now),
            stuck == distinct(present(stuck_keys(ws, now))),
            second == Seq::new(stuck.len(), |g: int| stuck_finding(ws, now, stuck[g])),
            sgroups@.len() == stuck.len(),
            forall|h: int| 0 <= h < sgroups@.len() ==> {
                &&& (#[trigger] sgroups@[h]).key@ == stuck[h]
                &&& sgroups@[h].members@ == positions_of(stuck_keys(ws, now), sgroups@[h].key@)
            },
            g <= sgroups@.len(),
            models(r@) == models(first) + second.take(g as int),
            all_at(r@, now),
        decreases sgroups.len() - g,
    {
        let grp = &sgroups[g];
        proof {
            assert(stuck_keys(ws, now).len() == workflows.len());
            lemma_positions_bounded(stuck_keys(ws, now), grp.key@);
        }
        let ghost before = r@;
        let f = stuck_finding_exec(workflows, now, &grp.key, &grp.members);
        r.push(f);
        assert(models(r@) =~= models(before).push(model_of(f)));
        assert(second.take(g + 1) =~= second.take(g as int).push(second[g as int]));
        g = g + 1;
    }
    assert(second.take(sgroups.len() as int) =~= second);
    r
}

/// The findings a workflow list shows now, before ranking.
pub fn compute_list_findings(workflows: &[WorkflowSummary]) -> (r: Vec<InsightFinding>)
    requires
        starts_ok(workflows@),
    ensures
        exists|now: i64| time_ok(now) && all_at(r@, now) && #[trigger] list_findings(workflows@, now) == models(r@),
{
    let now = now_ms();
    let r = compute_list_findings_at(workflows, now);
    assert(list_findings(workflows@, now) == models(r@));
    r
}

/// The selection for history sampling: up to `max` workflows with distinct
/// ids, first the failed ones in list order, then the running ones from
/// the oldest start on (ties in list order), then the completed ones in
/// list order.
pub open spec fn sampling(ws: Seq<WorkflowSummary>, max: nat, order: Seq<usize>) -> Seq<int> {
    let run = phase_positions(ws, 1, ws.len() as int);
    let a1 = pick(ws, phase_positions(ws, 0, ws.len() as int), Seq::empty(), max);
    let a2 = pick(ws, order.map_values(|k: usize| run[k as int]), a1, max);
    pick(ws, phase_positions(ws, 2, ws.len() as int), a2, max)
}

/// Adds the candidates `cand` to the selection, as `pick` does.
fn pick_exec(ws: &[WorkflowSummary], cand: &Vec<usize>, sel: &mut Vec<usize>, ids: &mut Vec<String>, max: usize)
    requires
        forall|j: int| 0 <= j < cand@.len() ==> (#[trigger] cand@[j]) < ws@.len(),
        forall|j: int| 0 <= j < old(sel)@.len() ==> (#[trigger] old(sel)@[j]) < ws@.len(),
        texts(old(ids)@) == selected_ids(ws@, old(sel)@.map_values(|u: usize| u as int)),
    ensures
        final(sel)@.map_values(|u: usize| u as int) == pick(ws@, cand@.map_values(|u: usize| u as int), old(sel)@.map_values(|u: usize| u as int), max as nat),
        forall|j: int| 0 <= j < final(sel)@.len() ==> (#[trigger] final(sel)@[j]) < ws@.len(),
        texts(final(ids)@) == selected_ids(ws@, final(sel)@.map_values(|u: usize| u as int)),
{
    let ghost acc = old(sel)@.map_values(|u: usize| u as int);
    let ghost cs = cand@.map_values(|u: usize| u as int);
    let mut i: usize = 0;
    while i < cand.len()
        invariant
            acc == old(sel)@.map_values(|u: usize| u as int),
            cs == cand@.map_values(|u: usize| u as int),
            forall|j: int| 0 <= j < cand@.len() ==> (#[trigger] cand@[j]) < ws@.len(),
            i <= cand@.len(),
            sel@.map_values(|u: usize| u as int) == pick(ws@, cs.take(i as int), acc, max as nat),
            forall|j: int| 0 <= j < sel@.len() ==> (#[trigger] sel@[j]) < ws@.len(),
            texts(ids@) == selected_ids(ws@, sel@.map_values(|u: usize| u as int)),
        decreases cand.len() - i,
    {
        assert(cs.take(i + 1).drop_last() =~= cs.take(i as int));
        let c = cand[i];
        let ghost prev = sel@.map_values(|u: usize| u as int);
        if sel.len() < max && !contains_text(ids, &ws[c].workflow_id) {
            let ghost bi = ids@;
            sel.push(c);
            ids.push(ws[c].workflow_id.clone());
            assert(sel@.map_values(|u: usize| u as int) =~= prev.push(c as int));
            assert(texts(ids@) =~= texts(bi).push(ws@[c as int].workflow_id@));
            assert(selected_ids(ws@, prev.push(c as int)) =~= selected_ids(ws@, prev).push(ws@[c as int].workflow_id@));
        }
        i = i + 1;
    }
    assert(cs.take(cand.len() as int) =~= cs);
}

/// The positions of the workflows of a sampling phase, in list order.
fn phase_exec(ws: &[WorkflowSummary], phase: u8) -> (r: Vec<usize>)
    requires
        phase <= 2,
    ensures
        r@.map_values(|u: usize| u as int) == phase_positions(ws@, phase as int, ws@.len() as int),
        forall|j: int| 0 <= j < r@.len() ==> (#[trigger] r@[j]) < ws@.len(),
{
    let mut r: Vec<usize> = Vec::new();
    let mut i: usize = 0;
    while i < ws.len()
        invariant
            phase <= 2,
            i <= ws@.len(),
            r@.map_values(|u: usize| u as int) == phase_positions(ws@, phase as int, i as int),
            forall|j: int| 0 <= j < r@.len() ==> (#[trigger] r@[j]) < i,
        decreases ws.len() - i,
    {
        let st = ws[i].status;
        let take = if phase == 0 {
            st.is_failure()
        } else if phase == 1 {
            st == WorkflowStatus::Running
        } else {
            st == WorkflowStatus::Completed
        };
        let ghost prev = r@;
        if take {
            r.push(i);
            assert(r@.map_values(|u: usize| u as int) =~= prev.map_values(|u: usize| u as int).push(i as int));
        }
        i = i + 1;
    }
    r
}

/// Selects up to `max` workflows for history sampling: failed ones first,
/// then running ones from the oldest start on, then completed ones, each
/// workflow id at most once.
pub fn select_workflows_for_sampling(workflows: &[WorkflowSummary], max: usize) -> (r: Vec<&WorkflowSummary>)
    ensures
        exists|order: Seq<usize>| {
            &&& stable_order(running_keys(workflows@, phase_positions(workflows@, 1, workflows@.len() as int)), order)
            &&& r@.len() == #[trigger] sampling(workflows@, max as nat, order).len()
            &&& forall|k: int| 0 <= k < r@.len() ==> *r@[k] == workflows@[sampling(workflows@, max as nat, order)[k]]
        },
{
    let ghost ws = workflows@;
    let mut sel: Vec<usize> = Vec::new();
    let mut ids: Vec<String> = Vec::new();
    assert(texts(ids@) =~= selected_ids(ws, sel@.map_values(|u: usize| u as int)));
    let failed = phase_exec(workflows, 0);
    pick_exec(workflows, &failed, &mut sel, &mut ids, max);
    let ghost a1 = sel@.map_values(|u: usize| u as int);
    assert(a1 == pick(ws, phase_positions(ws, 0, ws.len() as int), Seq::empty(), max as nat)) by {
        assert(Seq::<usize>::empty().map_values(|u: usize| u as int) =~= Seq::<int>::empty());
    }
    let run = phase_exec(workflows, 1);
    let mut keys: Vec<i128> = Vec::new();
    let mut i: usize = 0;
    while i < run.len()
        invariant
            ws == workflows@,
            i <= run@.len(),
            forall|j: int| 0 <= j < run@.len() ==> (#[trigger] run@[j]) < ws.len(),
            keys@ == running_keys(ws, run@.map_values(|u: usize| u as int)).take(i as int),
        decreases run.len() - i,
    {
        keys.push(workflows[run[i]].start_time as i128);
        assert(keys@ =~= running_keys(ws, run@.map_values(|u: usize| u as int)).take(i + 1));
        i = i + 1;
    }
    assert(keys@ =~= running_keys(ws, run@.map_values(|u: usize| u as int)));
    let p = stable_order_asc(&keys);
    let mut sorted: Vec<usize> = Vec::new();
    let mut j: usize = 0;
    while j < p.len()
        invariant
            ws == workflows@,
            stable_order(keys@, p@),
            keys@.len() == run@.len(),
            forall|k: int| 0 <= k < run@.len() ==> (#[trigger] run@[k]) < ws.len(),
            j <= p@.len(),
            sorted@.len() == j,
            forall|k: int| 0 <= k < j ==> sorted@[k] == run@[#[trigger] p@[k] as int],
            forall|k: int| 0 <= k < sorted@.len() ==> (#[trigger] sorted@[k]) < ws.len(),
        decreases p.len() - j,
    {
        sorted.push(run[p[j]]);
        j = j + 1;
    }
    let ghost runi = phase_positions(ws, 1, ws.len() as int);
    assert(runi == run@.map_values(|u: usize| u as int));
    assert(sorted@.map_values(|u: usize| u as int) =~= p@.map_values(|k: usize| runi[k as int]));
    pick_exec(workflows, &sorted, &mut sel, &mut ids, max);
    let ghost a2 = sel@.map_values(|u: usize| u as int);
    assert(a2 == pick(ws, p@.map_values(|k: usize| runi[k as int]), a1, max as nat));
    let completed = phase_exec(workflows, 2);
    pick_exec(workflows, &completed, &mut sel, &mut ids, max);
    let ghost final_sel = sel@.map_values(|u: usize| u as int);
    assert(final_sel == sampling(ws, max as nat, p@));
    let mut r: Vec<&WorkflowSummary> = Vec::new();
    let mut k: usize = 0;
    while k < sel.len()
        invariant
            ws == workflows@,
            final_sel == sel@.map_values(|u: usize| u as int),
            forall|j: int| 0 <= j < sel@.len() ==> (#[trigger] sel@[j]) < ws.len(),
            k <= sel@.len(),
            r@.len() == k,
            forall|j: int| 0 <= j < k ==> *r@[j] == ws[final_sel[j]],
        decreases sel.len() - k,
    {
        r.push(&workflows[sel[k]]);
        k = k + 1;
    }
    assert(stable_order(running_keys(ws, phase_positions(ws, 1, ws.len() as int)), p@));
    r
}

} // verus!
