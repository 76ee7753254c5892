//! Insight detection over the executions correlated from sampled workflow
//! histories: child workflows here, activities in `activity_findings`.

use vstd::prelude::*;
use crate::child::ChildWorkflowExecution;
use crate::findings::{model_of, models, all_at, round_div, round_div_exec, FindingModel, lemma_positions_bounded};
use crate::grouping::{collect, distinct, distinct_strings, group_positions, opt_texts, positions_of, present, texts};
use crate::insights::InsightFinding;
use crate::order::{stable_order, stable_order_asc};
use crate::status::{is_failed_child_status, InsightCategory, InsightSeverity};
use crate::text::{chars_of, dec, push_chars, push_dec, push_str, string_of};
use crate::clock::now_ms;

verus! {

/// The (workflow id, item) pairs of the samples, sample by sample, in order.
pub open spec fn flat<T>(samples: Seq<(String, Vec<T>)>) -> Seq<(Seq<char>, T)>
    decreases samples.len(),
{
    if samples.len() == 0 {
        Seq::empty()
    } else {
        let last = samples.last();
        flat(samples.drop_last()) + last.1@.map_values(|x: T| (last.0@, x))
    }
}

/// The pair that an index pair names.
pub open spec fn at_index<T>(samples: Seq<(String, Vec<T>)>, ix: (usize, usize)) -> (Seq<char>, T) {
    (samples[ix.0 as int].0@, samples[ix.0 as int].1@[ix.1 as int])
}

/// Index pairs, sample and item, of every item of the samples, in order.
pub fn flatten_index<T>(samples: &[(String, Vec<T>)]) -> (r: Vec<(usize, usize)>)
    ensures
        r@.len() == flat(samples@).len(),
        forall|k: int| 0 <= k < r@.len() ==> {
            &&& (#[trigger] r@[k]).0 < samples@.len()
            &&& r@[k].1 < samples@[r@[k].0 as int].1@.len()
            &&& at_index(samples@, r@[k]) == flat(samples@)[k]
        },
{
    let mut r: Vec<(usize, usize)> = Vec::new();
    let mut i: usize = 0;
    while i < samples.len()
        invariant
            i <= samples@.len(),
            r@.len() == flat(samples@.take(i as int)).len(),
            forall|k: int| 0 <= k < r@.len() ==> {
                &&& (#[trigger] r@[k]).0 < samples@.len()
                &&& r@[k].1 < samples@[r@[k].0 as int].1@.len()
                &&& at_index(samples@, r@[k]) == flat(samples@.take(i as int))[k]
            },
        decreases samples.len() - i,
    {
        let ghost pre = flat(samples@.take(i as int));
        let ghost last = samples@[i as int];
        assert(samples@.take(i + 1).drop_last() =~= samples@.take(i as int));
        assert(flat(samples@.take(i + 1)) == pre + last.1@.map_values(|x: T| (last.0@, x)));
        let n = samples[i].1.len();
        let mut j: usize = 0;
        while j < n
            invariant
                i < samples@.len(),
                last == samples@[i as int],
                n == last.1@.len(),
                j <= n,
                r@.len() == pre.len() + j,
                forall|k: int| 0 <= k < r@.len() ==> {
                    &&& (#[trigger] r@[k]).0 < samples@.len()
                    &&& r@[k].1 < samples@[r@[k].0 as int].1@.len()
                    &&& at_index(samples@, r@[k]) == (pre + last.1@.map_values(|x: T| (last.0@, x)))[k]
                },
            decreases n - j,
        {
            r.push((i, j));
            j = j + 1;
        }
        i = i + 1;
    }
    assert(samples@.take(samples@.len() as int) =~= samples@);
    r
}

/// 2 to the 52nd: the smallest 53-bit mantissa of a double.
pub open spec fn two52() -> int {
    4_503_599_627_370_496
}

/// Doubles `m` until it is at least `2^52 * q`.
pub open spec fn grow(m: int, q: int) -> int
    decreases (if 0 < m < 4_503_599_627_370_496 * q { 4_503_599_627_370_496 * q - m } else { 0 }),
{
    if 0 < m < 4_503_599_627_370_496 * q { grow(2 * m, q) } else { m }
}

/// Doubles `q` until `m` is below `2^53 * q`.
pub open spec fn shrink(m: int, q: int) -> int
    decreases (if 0 < q && m >= 9_007_199_254_740_992 * q { m - 9_007_199_254_740_992 * q + 1 } else { 0 }),
{
    if 0 < q && m >= 9_007_199_254_740_992 * q { shrink(m, 2 * q) } else { q }
}

/// Whether the double nearest to `n / d` (both above zero) lies above it
/// (1), on it (0) or below it (-1): `n / d` scaled by a power of two into
/// the range of 53-bit mantissas, `M / Q`, is rounded to the nearest
/// integer, ties to even, as IEEE division rounds.
pub open spec fn f64_dir(n: int, d: int) -> int {
    let m = if n < 4_503_599_627_370_496 * d { grow(n, d) } else { n };
    let q = if n < 4_503_599_627_370_496 * d { d } else { shrink(n, d) };
    let r = m % q;
    if r == 0 {
        0
    } else if 2 * r < q {
        -1
    } else if 2 * r > q {
        1
    } else if (m / q) % 2 == 1 {
        1
    } else {
        -1
    }
}

/// The tenths of `a / 10` over `d` as Rust writes the double of `n / d`
/// (`a == 10 * n`) with one decimal: to nearest, and where the quotient
/// lies exactly halfway, on the side where its double lies (ties to even
/// when the double is exact).
pub open spec fn tenths(a: int, d: int, n: int) -> int {
    if 2 * (a % d) == d {
        let dr = f64_dir(n, d);
        if dr > 0 { a / d + 1 } else if dr < 0 { a / d } else { round_div(a, d) }
    } else {
        round_div(a, d)
    }
}

/// `v / d` with one decimal, as `format!("{:.1}", v as f64 / d as f64)`
/// writes it for `|v|` below 2^53: rounded to nearest, an exact half
/// decided by the double of the quotient; a leading `-` when `v` is
/// negative.
pub open spec fn one_decimal(v: int, d: int) -> Seq<char> {
    let n = if v < 0 { -v } else { v };
    let q = tenths(n * 10, d, n);
    (if v < 0 { "-"@ } else { Seq::empty() }) + dec((q / 10) as nat) + "."@ + dec((q % 10) as nat)
}

/// Which side of `n / d` its double lies on.
fn f64_dir_exec(n: u128, d: u128) -> (r: i8)
    requires
        0 < n < 0x1_0000_0000_0000_0000_0000_0000,
        0 < d < 0x1_0000_0000_0000_0000,
    ensures
        r == f64_dir(n as int, d as int),
{
    let mut m: u128 = n;
    let mut q: u128 = d;
    if n < 4_503_599_627_370_496 * d {
        while m < 4_503_599_627_370_496 * q
            invariant
                q == d,
                0 < d < 0x1_0000_0000_0000_0000,
                0 < m < 9_007_199_254_740_992 * d,
                grow(m as int, q as int) == grow(n as int, d as int),
            decreases 9_007_199_254_740_992 * d - m,
        {
            m = 2 * m;
        }
    } else {
        while m / 9_007_199_254_740_992 >= q
            invariant
                m == n,
                0 < n < 0x1_0000_0000_0000_0000_0000_0000,
                0 < q <= n,
                shrink(m as int, q as int) == shrink(n as int, d as int),
            decreases m - q,
        {
            assert(m >= 9_007_199_254_740_992 * q) by (nonlinear_arith)
                requires m / 9_007_199_254_740_992 >= q;
            q = 2 * q;
        }
        assert(m < 9_007_199_254_740_992 * q) by (nonlinear_arith)
            requires m / 9_007_199_254_740_992 < q;
    }
    let r = m % q;
    if r == 0 {
        0
    } else if 2 * r < q {
        -1
    } else if 2 * r > q {
        1
    } else if (m / q) % 2 == 1 {
        1
    } else {
        -1
    }
}

/// Appends `v / d` with one decimal.
pub fn push_one_decimal(out: &mut Vec<char>, v: i128, d: i128)
    requires
        0 < d < 0x1_0000_0000_0000_0000,
        -0x4000_0000_0000_0000 * d <= v <= 0x4000_0000_0000_0000 * d,
        -0x1_0000_0000_0000_0000_0000_0000 < v < 0x1_0000_0000_0000_0000_0000_0000,
    ensures
        final(out)@ == old(out)@ + one_decimal(v as int, d as int),
{
    let n: u128 = if v < 0 { (-v) as u128 } else { v as u128 };
    let a: u128 = n * 10;
    let du = d as u128;
    let q = if 2 * (a % du) == du {
        assert(n > 0) by {
            if n == 0 {
                assert(a == 0);
                assert(a % du == 0) by (nonlinear_arith)
                    requires a == 0, du > 0;
            }
        }
        let dr = f64_dir_exec(n, du);
        if dr > 0 { a / du + 1 } else if dr < 0 { a / du } else { round_div_exec(a, du) }
    } else {
        round_div_exec(a, du)
    };
    assert(q == tenths(a as int, d as int, n as int));
    assert(a <= 10 * 0x4000_0000_0000_0000 * d) by (nonlinear_arith)
        requires
            a as int == 10 * n,
            n as int == (if v < 0 { -v } else { v as int }),
            -0x4000_0000_0000_0000 * d <= v <= 0x4000_0000_0000_0000 * d;
    assert(q <= a / du + 1);
    assert(a / du <= 10 * 0x4000_0000_0000_0000) by (nonlinear_arith)
        requires
            a <= 10 * 0x4000_0000_0000_0000 * du,
            du >= 1;
    if v < 0 {
        push_str(out, "-");
    }
    push_dec(out, (q / 10) as u64);
    push_str(out, ".");
    push_dec(out, (q % 10) as u64);
    assert(out@ =~= old(out)@ + one_decimal(v as int, d as int));
}

/// The type keys of the child workflows of the samples.
pub open spec fn child_type_keys(items: Seq<(Seq<char>, ChildWorkflowExecution)>) -> Seq<Option<Seq<char>>> {
    Seq::new(items.len(), |i: int| Some(items[i].1.workflow_type@))
}

/// The positions among `m` whose child workflow failed, in order.
pub open spec fn failed_children(items: Seq<(Seq<char>, ChildWorkflowExecution)>, m: Seq<usize>) -> Seq<usize>
    decreases m.len(),
{
    if m.len() == 0 {
        Seq::empty()
    } else {
        let prev = failed_children(items, m.drop_last());
        if is_failed_child_status(items[m.last() as int].1.status) { prev.push(m.last()) } else { prev }
    }
}

/// The positions among `m` whose child workflow has a start latency, in order.
pub open spec fn with_latency(items: Seq<(Seq<char>, ChildWorkflowExecution)>, m: Seq<usize>) -> Seq<usize>
    decreases m.len(),
{
    if m.len() == 0 {
        Seq::empty()
    } else {
        let prev = with_latency(items, m.drop_last());
        if items[m.last() as int].1.start_latency is Some { prev.push(m.last()) } else { prev }
    }
}

/// The positions among `m` whose start latency is two seconds or more, in order.
pub open spec fn slow_starts(items: Seq<(Seq<char>, ChildWorkflowExecution)>, m: Seq<usize>) -> Seq<usize>
    decreases m.len(),
{
    if m.len() == 0 {
        Seq::empty()
    } else {
        let prev = slow_starts(items, m.drop_last());
        if items[m.last() as int].1.start_latency->0 >= 2000 { prev.push(m.last()) } else { prev }
    }
}

/// The workflow ids of the positions `m`.
pub open spec fn parent_ids<T>(items: Seq<(Seq<char>, T)>, m: Seq<usize>) -> Seq<Seq<char>> {
    m.map_values(|i: usize| items[i as int].0)
}

/// The start latencies of the positions `m`, as sort keys.
pub open spec fn latency_keys(items: Seq<(Seq<char>, ChildWorkflowExecution)>, m: Seq<usize>) -> Seq<i128> {
    m.map_values(|i: usize| items[i as int].1.start_latency->0 as i128)
}

/// `med` is the middle value, at position `len / 2`, of `keys` in ascending
/// order (zero when there is none).
pub open spec fn is_median(keys: Seq<i128>, med: int) -> bool {
    &&& keys.len() == 0 ==> med == 0
    &&& keys.len() > 0 ==> exists|p: Seq<usize>| stable_order(keys, p) && med == keys[#[trigger] p[(keys.len() / 2) as int] as int]
}


/// The positions of `keys` holding values below `m`.
pub open spec fn positions_below(keys: Seq<i128>, m: int) -> Set<int> {
    Set::new(|i: int| 0 <= i < keys.len() && keys[i] < m)
}

/// The positions of `keys` holding values above `m`.
pub open spec fn positions_above(keys: Seq<i128>, m: int) -> Set<int> {
    Set::new(|i: int| 0 <= i < keys.len() && keys[i] > m)
}

/// The positions in `p` before `h`, as positions of `keys`.
proof fn lemma_within_image(s: Set<int>, q: Seq<int>)
    requires
        forall|i: int| s.contains(i) ==> q.contains(i),
    ensures
        s.finite(),
        s.len() <= q.len(),
{
    vstd::seq_lib::seq_to_set_is_finite(q);
    assert(s.subset_of(q.to_set()));
    vstd::set_lib::lemma_len_subset(s, q.to_set());
    q.lemma_cardinality_of_set();
}

/// A median splits its values evenly: it is one of them, at most half of
/// them lie strictly below it, and at most half of the others strictly
/// above it (for an odd count, at most `(n - 1) / 2` on each side). So
/// the median of 100, 200 and 5000 is 200.
pub proof fn law_median_splits(keys: Seq<i128>, med: int)
    requires
        is_median(keys, med),
        keys.len() > 0,
    ensures
        exists|i: int| 0 <= i < keys.len() && keys[i] == med,
        positions_below(keys, med).finite(),
        positions_above(keys, med).finite(),
        positions_below(keys, med).len() <= keys.len() / 2,
        positions_above(keys, med).len() <= (keys.len() - 1) / 2,
{
    let n = keys.len() as int;
    let h = n / 2;
    let p = choose|p: Seq<usize>| stable_order(keys, p) && med == keys[#[trigger] p[h] as int];
    assert(stable_order(keys, p) && med == keys[p[h] as int]);
    assert(0 <= p[h] < n);
    let lo = Seq::new(h as nat, |j: int| p[j] as int);
    let hi = Seq::new((n - 1 - h) as nat, |j: int| p[h + 1 + j] as int);
    assert forall|i: int| positions_below(keys, med).contains(i) implies lo.contains(i) by {
        crate::order::lemma_stable_order_onto(keys, p, i);
        let j = choose|j: int| 0 <= j < p.len() && p[j] as int == i;
        if j >= h {
            if j > h {
                assert(crate::order::key_before(keys[p[h] as int] as int, p[h] as int, keys[p[j] as int] as int, p[j] as int));
            }
        }
        assert(lo[j] == i);
    }
    assert forall|i: int| positions_above(keys, med).contains(i) implies hi.contains(i) by {
        crate::order::lemma_stable_order_onto(keys, p, i);
        let j = choose|j: int| 0 <= j < p.len() && p[j] as int == i;
        if j <= h {
            if j < h {
                assert(crate::order::key_before(keys[p[j] as int] as int, p[j] as int, keys[p[h] as int] as int, p[h] as int));
            }
        }
        assert(hi[j - h - 1] == i);
    }
    lemma_within_image(positions_below(keys, med), lo);
    lemma_within_image(positions_above(keys, med), hi);
}

/// The failure-hotspot finding on the child workflows of type `t` at the positions `m`.
pub open spec fn child_failure_finding(items: Seq<(Seq<char>, ChildWorkflowExecution)>, t: Seq<char>, m: Seq<usize>) -> Option<FindingModel> {
    let f = failed_children(items, m);
    let wfs = distinct(parent_ids(items, f));
    if f.len() >= 2 {
        Some(FindingModel {
            severity: if f.len() >= 5 { InsightSeverity::Critical } else { InsightSeverity::Warning },
            category: InsightCategory::ChildWorkflowFailure,
            title: t + ": "@ + dec(f.len()) + " failures across "@ + dec(wfs.len()) + " parent workflows"@,
            detail: dec(f.len()) + " child workflow failures detected for type "@ + t + "."@,
            affected: wfs,
        })
    } else {
        None
    }
}

/// The start-latency finding on the child workflows of type `t` whose
/// latency has the median `med`.
pub open spec fn child_latency_finding(items: Seq<(Seq<char>, ChildWorkflowExecution)>, t: Seq<char>, m: Seq<usize>, med: int) -> Option<FindingModel> {
    let l = with_latency(items, m);
    if l.len() > 0 && med >= 2000 {
        Some(FindingModel {
            severity: if med >= 10000 { InsightSeverity::Critical } else { InsightSeverity::Warning },
            category: InsightCategory::ChildWorkflowLatency,
            title: t + ": "@ + one_decimal(med, 1000) + "s median start latency"@,
            detail: "Measured across "@ + dec(l.len())
                + " child workflow executions. High start latency may indicate task queue congestion."@,
            affected: distinct(parent_ids(items, slow_starts(items, l))),
        })
    } else {
        None
    }
}

/// The child workflow executions of the samples, as (workflow id, child) pairs.
pub open spec fn child_items(samples: Seq<(String, Vec<ChildWorkflowExecution>)>) -> Seq<(Seq<char>, ChildWorkflowExecution)> {
    flat(samples)
}

/// The positions of the children of type `t`.
pub open spec fn child_members(items: Seq<(Seq<char>, ChildWorkflowExecution)>, t: Seq<char>) -> Seq<usize> {
    positions_of(child_type_keys(items), t)
}

/// The findings on child workflows, given the median start latency of
/// each child type (in order of first appearance): per type, a failure
/// hotspot and then a start-latency finding, where they apply.
pub open spec fn child_findings(items: Seq<(Seq<char>, ChildWorkflowExecution)>, meds: Seq<int>) -> Seq<FindingModel> {
    collect(child_opts(items, meds))
}

/// Per child type, the failure-hotspot and the start-latency finding, if any.
pub open spec fn child_opts(items: Seq<(Seq<char>, ChildWorkflowExecution)>, meds: Seq<int>) -> Seq<Option<FindingModel>> {
    let types = distinct(present(child_type_keys(items)));
    Seq::new(2 * types.len(), |k: int|
        if k % 2 == 0 {
            child_failure_finding(items, types[k / 2], child_members(items, types[k / 2]))
        } else {
            child_latency_finding(items, types[k / 2], child_members(items, types[k / 2]), meds[k / 2])
        })
}

/// Extending the medians past `g` leaves the first `2 g` entries alone, and
/// entries `2 g` and `2 g + 1` are those of type `g`.
proof fn lemma_child_opts(items: Seq<(Seq<char>, ChildWorkflowExecution)>, meds: Seq<int>, med: int, g: int)
    requires
        meds.len() == g,
        0 <= g < distinct(present(child_type_keys(items))).len(),
    ensures
        child_opts(items, meds.push(med)).take(2 * g) == child_opts(items, meds).take(2 * g),
        child_opts(items, meds.push(med)).take(2 * g + 1).drop_last() == child_opts(items, meds.push(med)).take(2 * g),
        child_opts(items, meds.push(med)).take(2 * g + 2).drop_last() == child_opts(items, meds.push(med)).take(2 * g + 1),
        child_opts(items, meds.push(med))[2 * g] == child_failure_finding(items,
            distinct(present(child_type_keys(items)))[g], child_members(items, distinct(present(child_type_keys(items)))[g])),
        child_opts(items, meds.push(med))[2 * g + 1] == child_latency_finding(items,
            distinct(present(child_type_keys(items)))[g], child_members(items, distinct(present(child_type_keys(items)))[g]), med),
{
    let a = child_opts(items, meds.push(med));
    let b = child_opts(items, meds);
    assert forall|k: int| 0 <= k < 2 * g implies a[k] == b[k] by {
        assert(meds.push(med)[k / 2] == meds[k / 2]);
    }
    assert(a.take(2 * g) =~= b.take(2 * g));
    assert(a.take(2 * g + 1).drop_last() =~= a.take(2 * g));
    assert(a.take(2 * g + 2).drop_last() =~= a.take(2 * g + 1));
    assert((2 * g) / 2 == g);
    assert((2 * g + 1) / 2 == g);
    assert((2 * g + 1) % 2 == 1);
}

/// The start-latency keys of the children of type `t`.
pub open spec fn child_latency_keys(items: Seq<(Seq<char>, ChildWorkflowExecution)>, t: Seq<char>) -> Seq<i128> {
    latency_keys(items, with_latency(items, child_members(items, t)))
}

/// Index pairs name the items of the samples.
pub open spec fn index_ok<T>(samples: Seq<(String, Vec<T>)>, idx: Seq<(usize, usize)>) -> bool {
    &&& idx.len() == flat(samples).len()
    &&& forall|k: int| 0 <= k < idx.len() ==> {
        &&& (#[trigger] idx[k]).0 < samples.len()
        &&& idx[k].1 < samples[idx[k].0 as int].1@.len()
        &&& at_index(samples, idx[k]) == flat(samples)[k]
    }
}

/// Positions below `n`.
pub open spec fn below(m: Seq<usize>, n: int) -> bool {
    forall|j: int| 0 <= j < m.len() ==> (#[trigger] m[j]) < n
}

/// The failed children among the positions `m`.
fn failed_children_exec(samples: &[(String, Vec<ChildWorkflowExecution>)], idx: &Vec<(usize, usize)>, m: &Vec<usize>) -> (r: Vec<usize>)
    requires
        index_ok(samples@, idx@),
        below(m@, idx@.len() as int),
    ensures
        r@ == failed_children(flat(samples@), m@),
        below(r@, idx@.len() as int),
{
    let ghost items = flat(samples@);
    let mut r: Vec<usize> = Vec::new();
    let mut j: usize = 0;
    while j < m.len()
        invariant
            items == flat(samples@),
            index_ok(samples@, idx@),
            below(m@, idx@.len() as int),
            j <= m@.len(),
            r@ == failed_children(items, m@.take(j as int)),
            below(r@, idx@.len() as int),
        decreases m.len() - j,
    {
        assert(m@.take(j + 1).drop_last() =~= m@.take(j as int));
        let k = m[j];
        let (a, b) = idx[k];
        assert(items[k as int].1 == samples@[a as int].1@[b as int]);
        if samples[a].1[b].status.is_failure() {
            r.push(k);
        }
        j = j + 1;
    }
    assert(m@.take(m.len() as int) =~= m@);
    r
}

/// The children with a start latency among the positions `m`.
fn with_latency_exec(samples: &[(String, Vec<ChildWorkflowExecution>)], idx: &Vec<(usize, usize)>, m: &Vec<usize>) -> (r: Vec<usize>)
    requires
        index_ok(samples@, idx@),
        below(m@, idx@.len() as int),
    ensures
        r@ == with_latency(flat(samples@), m@),
        below(r@, idx@.len() as int),
{
    let ghost items = flat(samples@);
    let mut r: Vec<usize> = Vec::new();
    let mut j: usize = 0;
    while j < m.len()
        invariant
            items == flat(samples@),
            index_ok(samples@, idx@),
            below(m@, idx@.len() as int),
            j <= m@.len(),
            r@ == with_latency(items, m@.take(j as int)),
            below(r@, idx@.len() as int),
        decreases m.len() - j,
    {
        assert(m@.take(j + 1).drop_last() =~= m@.take(j as int));
        let k = m[j];
        let (a, b) = idx[k];
        assert(items[k as int].1 == samples@[a as int].1@[b as int]);
        if samples[a].1[b].start_latency.is_some() {
            r.push(k);
        }
        j = j + 1;
    }
    assert(m@.take(m.len() as int) =~= m@);
    r
}

/// The children with a start latency of two seconds or more among the
/// positions `m`, which all have a latency.
fn slow_starts_exec(samples: &[(String, Vec<ChildWorkflowExecution>)], idx: &Vec<(usize, usize)>, m: &Vec<usize>) -> (r: Vec<usize>)
    requires
        index_ok(samples@, idx@),
        below(m@, idx@.len() as int),
        forall|j: int| 0 <= j < m@.len() ==> flat(samples@)[#[trigger] m@[j] as int].1.start_latency is Some,
    ensures
        r@ == slow_starts(flat(samples@), m@),
{
    let ghost items = flat(samples@);
    let mut r: Vec<usize> = Vec::new();
    let mut j: usize = 0;
    while j < m.len()
        invariant
            items == flat(samples@),
            index_ok(samples@, idx@),
            below(m@, idx@.len() as int),
            forall|j: int| 0 <= j < m@.len() ==> items[#[trigger] m@[j] as int].1.start_latency is Some,
            j <= m@.len(),
            r@ == slow_starts(items, m@.take(j as int)),
        decreases m.len() - j,
    {
        assert(m@.take(j + 1).drop_last() =~= m@.take(j as int));
        let k = m[j];
        let (a, b) = idx[k];
        assert(items[k as int].1 == samples@[a as int].1@[b as int]);
        match samples[a].1[b].start_latency {
            Some(ms) => {
                if ms >= 2000 {
                    r.push(k);
                }
            },
            None => {},
        }
        j = j + 1;
    }
    assert(m@.take(m.len() as int) =~= m@);
    r
}

/// The workflow ids of the positions `m`, without repetitions.
fn parent_ids_exec<T>(samples: &[(String, Vec<T>)], idx: &Vec<(usize, usize)>, m: &Vec<usize>) -> (r: Vec<String>)
    requires
        index_ok(samples@, idx@),
        below(m@, idx@.len() as int),
    ensures
        texts(r@) == distinct(parent_ids(flat(samples@), m@)),
{
    let ghost items = flat(samples@);
    let mut ids: Vec<String> = Vec::new();
    let mut j: usize = 0;
    while j < m.len()
        invariant
            items == flat(samples@),
            index_ok(samples@, idx@),
            below(m@, idx@.len() as int),
            j <= m@.len(),
            texts(ids@) == parent_ids(items, m@.take(j as int)),
        decreases m.len() - j,
    {
        let k = m[j];
        let (a, b) = idx[k];
        assert(items[k as int].0 == samples@[a as int].0@);
        let ghost before = ids@;
        ids.push(samples[a].0.clone());
        assert(texts(ids@) =~= texts(before).push(items[k as int].0));
        assert(parent_ids(items, m@.take(j + 1)) =~= parent_ids(items, m@.take(j as int)).push(items[k as int].0));
        j = j + 1;
    }
    assert(m@.take(m.len() as int) =~= m@);
    distinct_strings(&ids)
}

/// The median start latency of the positions `m`, which all have a latency.
fn median_latency(samples: &[(String, Vec<ChildWorkflowExecution>)], idx: &Vec<(usize, usize)>, m: &Vec<usize>) -> (r: i64)
    requires
        index_ok(samples@, idx@),
        below(m@, idx@.len() as int),
        forall|j: int| 0 <= j < m@.len() ==> flat(samples@)[#[trigger] m@[j] as int].1.start_latency is Some,
    ensures
        is_median(latency_keys(flat(samples@), m@), r as int),
{
    let ghost items = flat(samples@);
    let mut keys: Vec<i128> = Vec::new();
    let mut vals: Vec<i64> = Vec::new();
    let mut j: usize = 0;
    while j < m.len()
        invariant
            items == flat(samples@),
            index_ok(samples@, idx@),
            below(m@, idx@.len() as int),
            forall|j: int| 0 <= j < m@.len() ==> items[#[trigger] m@[j] as int].1.start_latency is Some,
            j <= m@.len(),
            keys@ == latency_keys(items, m@.take(j as int)),
            vals@.len() == keys@.len(),
            forall|k: int| 0 <= k < vals@.len() ==> (#[trigger] vals@[k]) as i128 == keys@[k],
        decreases m.len() - j,
    {
        let k = m[j];
        let (a, b) = idx[k];
        assert(items[k as int].1 == samples@[a as int].1@[b as int]);
        let ms: i64 = match samples[a].1[b].start_latency {
            Some(ms) => ms,
            None => 0,
        };
        keys.push(ms as i128);
        vals.push(ms);
        assert(keys@ =~= latency_keys(items, m@.take(j + 1)));
        j = j + 1;
    }
    assert(m@.take(m.len() as int) =~= m@);
    if keys.len() == 0 {
        return 0;
    }
    let p = stable_order_asc(&keys);
    let mid = keys.len() / 2;
    let med = vals[p[mid]];
    assert(stable_order(keys@, p@) && med as int == keys@[p@[(keys@.len() / 2) as int] as int]);
    med
}

/// The failure-hotspot finding on one child type, if it applies.
fn child_failure_exec(samples: &[(String, Vec<ChildWorkflowExecution>)], idx: &Vec<(usize, usize)>, t: &String, m: &Vec<usize>, now: i64) -> (r: Option<InsightFinding>)
    requires
        index_ok(samples@, idx@),
        below(m@, idx@.len() as int),
    ensures
        match r {
            Some(f) => child_failure_finding(flat(samples@), t@, m@) == Some(model_of(f)) && f.computed_at == now,
            None => child_failure_finding(flat(samples@), t@, m@) is None,
        },
{
    let f = failed_children_exec(samples, idx, m);
    if f.len() < 2 {
        return None;
    }
    let wfs = parent_ids_exec(samples, idx, &f);
    let tc = chars_of(t.as_str());
    let mut title: Vec<char> = Vec::new();
    push_chars(&mut title, &tc);
    push_str(&mut title, ": ");
    push_dec(&mut title, f.len() as u64);
    push_str(&mut title, " failures across ");
    push_dec(&mut title, wfs.len() as u64);
    push_str(&mut title, " parent workflows");
    let mut detail: Vec<char> = Vec::new();
    push_dec(&mut detail, f.len() as u64);
    push_str(&mut detail, " child workflow failures detected for type ");
    push_chars(&mut detail, &tc);
    push_str(&mut detail, ".");
    assert(texts(wfs@).len() == wfs@.len());
    let r = InsightFinding {
        severity: if f.len() >= 5 { InsightSeverity::Critical } else { InsightSeverity::Warning },
        category: InsightCategory::ChildWorkflowFailure,
        title: string_of(&title),
        detail: string_of(&detail),
        affected_entities: wfs,
        computed_at: now,
    };
    assert(model_of(r).title =~= child_failure_finding(flat(samples@), t@, m@)->0.title);
    assert(model_of(r).detail =~= child_failure_finding(flat(samples@), t@, m@)->0.detail);
    Some(r)
}

/// The start-latency finding on one child type with median `med`, if it applies.
fn child_latency_exec(samples: &[(String, Vec<ChildWorkflowExecution>)], idx: &Vec<(usize, usize)>, t: &String, m: &Vec<usize>, l: &Vec<usize>, med: i64, now: i64) -> (r: Option<InsightFinding>)
    requires
        index_ok(samples@, idx@),
        below(m@, idx@.len() as int),
        l@ == with_latency(flat(samples@), m@),
        below(l@, idx@.len() as int),
        forall|j: int| 0 <= j < l@.len() ==> flat(samples@)[#[trigger] l@[j] as int].1.start_latency is Some,
    ensures
        match r {
            Some(f) => child_latency_finding(flat(samples@), t@, m@, med as int) == Some(model_of(f)) && f.computed_at == now,
            None => child_latency_finding(flat(samples@), t@, m@, med as int) is None,
        },
{
    if l.len() == 0 || med < 2000 {
        return None;
    }
    let slow = slow_starts_exec(samples, idx, l);
    proof {
        lemma_slow_below(flat(samples@), l@, idx@.len() as int);
    }
    let wfs = parent_ids_exec(samples, idx, &slow);
    let tc = chars_of(t.as_str());
    let mut title: Vec<char> = Vec::new();
    push_chars(&mut title, &tc);
    push_str(&mut title, ": ");
    push_one_decimal(&mut title, med as i128, 1000);
    push_str(&mut title, "s median start latency");
    let mut detail: Vec<char> = Vec::new();
    push_str(&mut detail, "Measured across ");
    push_dec(&mut detail, l.len() as u64);
    push_str(&mut detail, " child workflow executions. High start latency may indicate task queue congestion.");
    let r = InsightFinding {
        severity: if med >= 10000 { InsightSeverity::Critical } else { InsightSeverity::Warning },
        category: InsightCategory::ChildWorkflowLatency,
        title: string_of(&title),
        detail: string_of(&detail),
        affected_entities: wfs,
        computed_at: now,
    };
    assert(model_of(r).title =~= child_latency_finding(flat(samples@), t@, m@, med as int)->0.title);
    assert(model_of(r).detail =~= child_latency_finding(flat(samples@), t@, m@, med as int)->0.detail);
    Some(r)
}

/// Filtering keeps positions below the bound.
proof fn lemma_slow_below(items: Seq<(Seq<char>, ChildWorkflowExecution)>, m: Seq<usize>, n: int)
    requires
        below(m, n),
    ensures
        below(slow_starts(items, m), n),
    decreases m.len(),
{
    if m.len() > 0 {
        assert(below(m.drop_last(), n));
        lemma_slow_below(items, m.drop_last(), n);
    }
}

/// The positions of `with_latency` have a latency.
proof fn lemma_with_latency(items: Seq<(Seq<char>, ChildWorkflowExecution)>, m: Seq<usize>)
    ensures
        forall|j: int| 0 <= j < with_latency(items, m).len() ==> items[#[trigger] with_latency(items, m)[j] as int].1.start_latency is Some,
    decreases m.len(),
{
    if m.len() > 0 {
        lemma_with_latency(items, m.drop_last());
    }
}

/// The findings on the child workflows of the samples at time `now`, before
/// ranking. The median start latency of each child type is the middle
/// value of its latencies in ascending order.
#[verifier::rlimit(50)]
#[verifier::spinoff_prover]
pub fn compute_child_workflow_findings_at(samples: &[(String, Vec<ChildWorkflowExecution>)], now: i64) -> (r: Vec<InsightFinding>)
    ensures
        all_at(r@, now),
        exists|meds: Seq<int>| {
            &&& meds.len() == distinct(present(child_type_keys(flat(samples@)))).len()
            &&& forall|g: int| 0 <= g < meds.len() ==> is_median(
                child_latency_keys(flat(samples@), distinct(present(child_type_keys(flat(samples@))))[g]),
                #[trigger] meds[g])
            &&& models(r@) == #[trigger] child_findings(flat(samples@), meds)
        },
{
    let ghost items = flat(samples@);
    let idx = flatten_index(samples);
    let mut keys: Vec<Option<String>> = Vec::new();
    let mut i: usize = 0;
    while i < idx.len()
        invariant
            items == flat(samples@),
            index_ok(samples@, idx@),
            i <= idx@.len(),
            opt_texts(keys@) == child_type_keys(items).take(i as int),
        decreases idx.len() - i,
    {
        let (a, b) = idx[i];
        assert(items[i as int].1 == samples@[a as int].1@[b as int]);
        let ghost before = keys@;
        keys.push(Some(samples[a].1[b].workflow_type.clone()));
        assert(opt_texts(keys@) =~= opt_texts(before).push(Some(items[i as int].1.workflow_type@)));
        assert(child_type_keys(items).take(i + 1) =~= child_type_keys(items).take(i as int).push(Some(items[i as int].1.workflow_type@)));
        i = i + 1;
    }
    assert(child_type_keys(items).take(idx.len() as int) =~= child_type_keys(items));
    let groups = group_positions(&keys);
    let ghost types = distinct(present(child_type_keys(items)));
    let ghost mut meds: Seq<int> = Seq::empty();
    let mut r: Vec<InsightFinding> = Vec::new();
    let mut g: usize = 0;
    while g < groups.len()
        invariant
            items == flat(samples@),
            index_ok(samples@, idx@),
            opt_texts(keys@) == child_type_keys(items),
            types == distinct(present(child_type_keys(items))),
            groups@.len() == types.len(),
            forall|h: int| 0 <= h < groups@.len() ==> {
                &&& (#[trigger] groups@[h]).key@ == types[h]
                &&& groups@[h].members@ == positions_of(child_type_keys(items), groups@[h].key@)
            },
            g <= groups@.len(),
            meds.len() == g,
            forall|h: int| 0 <= h < g ==> is_median(child_latency_keys(items, types[h]), #[trigger] meds[h]),
            models(r@) == collect(child_opts(items, meds).take(2 * g)),
            all_at(r@, now),
        decreases groups.len() - g,
    {
        let grp = &groups[g];
        proof {
            assert(child_type_keys(items).len() == idx.len());
            lemma_positions_bounded(child_type_keys(items), grp.key@);
        }
        assert(below(grp.members@, idx@.len() as int));
        let fail = child_failure_exec(samples, &idx, &grp.key, &grp.members, now);
        let l = with_latency_exec(samples, &idx, &grp.members);
        proof {
            lemma_with_latency(items, grp.members@);
        }
        let med = median_latency(samples, &idx, &l);
        let lat = child_latency_exec(samples, &idx, &grp.key, &grp.members, &l, med, now);
        let ghost old_meds = meds;
        let ghost before = r@;
        proof {
            lemma_child_opts(items, meds, med as int, g as int);
            meds = meds.push(med as int);
        }
        match fail {
            Some(f) => {
                r.push(f);
                assert(models(r@) =~= models(before).push(model_of(f)));
            },
            None => {},
        }
        assert(models(r@) == collect(child_opts(items, meds).take(2 * g + 1)));
        let ghost mid = r@;
        match lat {
            Some(f) => {
                r.push(f);
                assert(models(r@) =~= models(mid).push(model_of(f)));
            },
            None => {},
        }
        assert(models(r@) == collect(child_opts(items, meds).take(2 * g + 2)));
        g = g + 1;
    }
    assert(child_opts(items, meds).take(2 * groups.len()) =~= child_opts(items, meds));
    assert(models(r@) == child_findings(items, meds));
    r
}

/// The findings on the child workflows of the samples now, before ranking.
pub fn compute_child_workflow_findings(samples: &[(String, Vec<ChildWorkflowExecution>)]) -> (r: Vec<InsightFinding>)
    ensures
        exists|now: i64| #[trigger] all_at(r@, now),
        exists|meds: Seq<int>| {
            &&& meds.len() == distinct(present(child_type_keys(flat(samples@)))).len()
            &&& forall|g: int| 0 <= g < meds.len() ==> is_median(
                child_latency_keys(flat(samples@), distinct(present(child_type_keys(flat(samples@))))[g]),
                #[trigger] meds[g])
            &&& models(r@) == #[trigger] child_findings(flat(samples@), meds)
        },
{
    let now = now_ms();
    compute_child_workflow_findings_at(samples, now)
}

} // verus!
