//! Aggregated workflow counts: by status and by workflow type.

use vstd::prelude::*;
use crate::order::{stable_order, stable_order_asc};
use crate::model::WorkflowSummary;
use crate::status::WorkflowStatus;
use crate::text::{chars_eq, chars_of};

verus! {

/// The status-to-count map that an entry list describes (later entries win).
pub open spec fn entries_map(e: Seq<(WorkflowStatus, u64)>) -> Map<WorkflowStatus, u64>
    decreases e.len(),
{
    if e.len() == 0 {
        Map::empty()
    } else {
        entries_map(e.drop_last()).insert(e.last().0, e.last().1)
    }
}

/// Sum of the counts of an entry list.
pub open spec fn entries_sum(e: Seq<(WorkflowStatus, u64)>) -> int
    decreases e.len(),
{
    if e.len() == 0 {
        0
    } else {
        entries_sum(e.drop_last()) + e.last().1
    }
}

/// No status occurs twice in an entry list.
pub open spec fn unique_statuses(e: Seq<(WorkflowStatus, u64)>) -> bool {
    forall|i: int, j: int| 0 <= i < j < e.len() ==> e[i].0 != e[j].0
}

/// Workflow counts by status. Each status that has been set holds one
/// count; the entries keep the order in which statuses were first set.
#[derive(Debug, Clone)]
pub struct StatusCounts {
    counts: Vec<(WorkflowStatus, u64)>,
}

/// `r` is the entries `e` reordered stably by count, largest first.
pub open spec fn sorted_counts(e: Seq<(WorkflowStatus, u64)>, r: Seq<(WorkflowStatus, u64)>) -> bool {
    exists|p: Seq<usize>|
        #[trigger] stable_order(count_keys_desc(e), p) && r.len() == p.len()
            && forall|j: int| 0 <= j < p.len() ==> r[j] == e[p[j] as int]
}

impl StatusCounts {
    /// The (status, count) entries, in first-set order.
    pub closed spec fn entries(&self) -> Seq<(WorkflowStatus, u64)> {
        self.counts@
    }

    /// The counts as a map from status to count.
    pub open spec fn view(&self) -> Map<WorkflowStatus, u64> {
        entries_map(self.entries())
    }

    /// Every status occurs at most once.
    pub open spec fn wf(&self) -> bool {
        unique_statuses(self.entries())
    }

    /// Whether every status occurs at most once.
    pub fn is_wf(&self) -> (r: bool)
        ensures
            r == self.wf(),
    {
        let n = self.counts.len();
        let mut i: usize = 0;
        while i < n
            invariant
                n == self.counts@.len(),
                i <= n,
                forall|a: int, b: int| 0 <= a < b < n && a < i ==> self.counts@[a].0 != self.counts@[b].0,
            decreases n - i,
        {
            let mut j: usize = i + 1;
            while j < n
                invariant
                    n == self.counts@.len(),
                    i < n,
                    i + 1 <= j <= n,
                    forall|a: int, b: int| 0 <= a < b < n && a < i ==> self.counts@[a].0 != self.counts@[b].0,
                    forall|b: int| i < b < j ==> self.counts@[i as int].0 != self.counts@[b].0,
                decreases n - j,
            {
                if self.counts[i].0 == self.counts[j].0 {
                    return false;
                }
                j = j + 1;
            }
            i = i + 1;
        }
        true
    }

    /// The count of a status, 0 when unset.
    pub open spec fn count_of(&self, s: WorkflowStatus) -> u64 {
        if self.view().dom().contains(s) { self.view()[s] } else { 0 }
    }

    /// Sum of all counts.
    pub open spec fn sum(&self) -> int {
        entries_sum(self.entries())
    }

    /// No counts.
    pub fn new() -> (r: StatusCounts)
        ensures
            r.wf(),
            r.entries() == Seq::<(WorkflowStatus, u64)>::empty(),
            r.view() == Map::<WorkflowStatus, u64>::empty(),
    {
        StatusCounts { counts: Vec::new() }
    }

    /// Sets the count of `status`, replacing any previous count.
    pub fn set(&mut self, status: WorkflowStatus, count: u64)
        requires
            old(self).wf(),
        ensures
            final(self).wf(),
            final(self).view() == old(self).view().insert(status, count),
            final(self).sum() == old(self).sum() - old(self).count_of(status) + count,
    {
        let ghost e0 = self.counts@;
        let mut i: usize = 0;
        while i < self.counts.len()
            invariant
                self.counts@ == e0,
                old(self).counts@ == e0,
                unique_statuses(e0),
                i <= e0.len(),
                forall|k: int| 0 <= k < i ==> e0[k].0 != status,
            decreases self.counts.len() - i,
        {
            if self.counts[i].0 == status {
                self.counts.set(i, (status, count));
                proof {
                    lemma_update_entry(e0, i as int, count);
                    assert(e0[i as int].0 == status);
                    assert(self.counts@ == e0.update(i as int, (e0[i as int].0, count)));
                    assert(entries_map(self.counts@) == entries_map(e0).insert(status, count));
                }
                return;
            }
            i = i + 1;
        }
        self.counts.push((status, count));
        proof {
            lemma_absent(e0, status);
            assert(self.counts@.drop_last() =~= e0);
            assert(entries_map(self.counts@) == entries_map(e0).insert(status, count));
            assert(entries_sum(self.counts@) == entries_sum(e0) + count);
        }
    }

    /// The count of `status`, 0 when unset.
    pub fn get(&self, status: WorkflowStatus) -> (r: u64)
        requires
            self.wf(),
        ensures
            r == self.count_of(status),
    {
        let mut i: usize = 0;
        while i < self.counts.len()
            invariant
                i <= self.counts@.len(),
                unique_statuses(self.counts@),
                forall|k: int| 0 <= k < i ==> self.counts@[k].0 != status,
            decreases self.counts.len() - i,
        {
            if self.counts[i].0 == status {
                proof {
                    lemma_lookup(self.counts@, i as int);
                }
                return self.counts[i].1;
            }
            i = i + 1;
        }
        proof {
            lemma_absent(self.counts@, status);
        }
        0
    }

    /// Sum of all counts.
    pub fn total(&self) -> (r: u64)
        requires
            self.sum() <= u64::MAX,
        ensures
            r == self.sum(),
    {
        let mut t: u64 = 0;
        let mut i: usize = 0;
        while i < self.counts.len()
            invariant
                i <= self.counts@.len(),
                entries_sum(self.counts@) <= u64::MAX,
                t == entries_sum(self.counts@.take(i as int)),
            decreases self.counts.len() - i,
        {
            proof {
                assert(self.counts@.take(i + 1).drop_last() =~= self.counts@.take(i as int));
                lemma_sum_prefix_le(self.counts@, i + 1);
            }
            t = t + self.counts[i].1;
            i = i + 1;
        }
        assert(self.counts@.take(self.counts@.len() as int) =~= self.counts@);
        t
    }

    /// The entries sorted by count, largest first; entries with equal
    /// counts keep their first-set order.
    pub fn sorted_by_count(&self) -> (r: Vec<(WorkflowStatus, u64)>)
        ensures
            sorted_counts(self.entries(), r@),
    {
        let mut keys: Vec<i128> = Vec::new();
        let mut i: usize = 0;
        while i < self.counts.len()
            invariant
                i <= self.counts@.len(),
                keys@ == count_keys_desc(self.counts@).take(i as int),
            decreases self.counts.len() - i,
        {
            keys.push(-(self.counts[i].1 as i128));
            assert(keys@ =~= count_keys_desc(self.counts@).take(i + 1));
            i = i + 1;
        }
        assert(keys@ =~= count_keys_desc(self.counts@));
        let p = stable_order_asc(&keys);
        let mut r: Vec<(WorkflowStatus, u64)> = Vec::new();
        let mut j: usize = 0;
        while j < p.len()
            invariant
                stable_order(keys@, p@),
                keys@.len() == self.counts@.len(),
                j <= p.len(),
                r@.len() == j,
                forall|k: int| 0 <= k < j ==> r@[k] == self.counts@[p@[k] as int],
            decreases p.len() - j,
        {
            r.push(self.counts[p[j]]);
            j = j + 1;
        }
        assert(keys@ == count_keys_desc(self.entries()));
        r
    }

    /// The entries whose count is not zero, in first-set order.
    pub fn non_zero(&self) -> (r: Vec<(WorkflowStatus, u64)>)
        ensures
            r@ == nonzero_entries(self.entries()),
    {
        let mut r: Vec<(WorkflowStatus, u64)> = Vec::new();
        let mut i: usize = 0;
        while i < self.counts.len()
            invariant
                i <= self.counts@.len(),
                r@ == self.counts@.take(i as int).filter(|e: (WorkflowStatus, u64)| e.1 > 0),
            decreases self.counts.len() - i,
        {
            proof {
                reveal_with_fuel(Seq::filter, 1);
                assert(self.counts@.take(i + 1).drop_last() =~= self.counts@.take(i as int));
            }
            if self.counts[i].1 > 0 {
                r.push(self.counts[i]);
            }
            i = i + 1;
        }
        assert(self.counts@.take(self.counts@.len() as int) =~= self.counts@);
        r
    }
}

/// Sort keys that order entries by count, largest first.
pub open spec fn count_keys_desc(e: Seq<(WorkflowStatus, u64)>) -> Seq<i128> {
    Seq::new(e.len(), |i: int| (-(e[i].1 as int)) as i128)
}

proof fn lemma_absent(e: Seq<(WorkflowStatus, u64)>, s: WorkflowStatus)
    requires
        forall|k: int| 0 <= k < e.len() ==> e[k].0 != s,
    ensures
        !entries_map(e).dom().contains(s),
    decreases e.len(),
{
    if e.len() > 0 {
        lemma_absent(e.drop_last(), s);
    }
}

proof fn lemma_lookup(e: Seq<(WorkflowStatus, u64)>, i: int)
    requires
        unique_statuses(e),
        0 <= i < e.len(),
    ensures
        entries_map(e).dom().contains(e[i].0),
        entries_map(e)[e[i].0] == e[i].1,
    decreases e.len(),
{
    if i < e.len() - 1 {
        lemma_lookup(e.drop_last(), i);
    }
}

proof fn lemma_update_entry(e: Seq<(WorkflowStatus, u64)>, i: int, c: u64)
    requires
        unique_statuses(e),
        0 <= i < e.len(),
    ensures
        unique_statuses(e.update(i, (e[i].0, c))),
        entries_map(e.update(i, (e[i].0, c))) == entries_map(e).insert(e[i].0, c),
        entries_sum(e.update(i, (e[i].0, c))) == entries_sum(e) - e[i].1 + c,
        entries_map(e).dom().contains(e[i].0),
        entries_map(e)[e[i].0] == e[i].1,
    decreases e.len(),
{
    lemma_lookup(e, i);
    let u = e.update(i, (e[i].0, c));
    if i == e.len() - 1 {
        assert(u.drop_last() =~= e.drop_last());
        lemma_absent(e.drop_last(), e[i].0);
        assert(entries_map(u) =~= entries_map(e).insert(e[i].0, c));
    } else {
        lemma_update_entry(e.drop_last(), i, c);
        assert(u.drop_last() =~= e.drop_last().update(i, (e[i].0, c)));
        assert(entries_map(u) =~= entries_map(e).insert(e[i].0, c));
    }
}

proof fn lemma_sum_prefix_le(e: Seq<(WorkflowStatus, u64)>, k: int)
    requires
        0 <= k <= e.len(),
    ensures
        entries_sum(e.take(k)) <= entries_sum(e),
    decreases e.len() - k,
{
    if k < e.len() {
        lemma_sum_prefix_le(e, k + 1);
        assert(e.take(k + 1).drop_last() =~= e.take(k));
    } else {
        assert(e.take(k) =~= e);
    }
}


/// How many workflows of `ws` have status `s`.
pub open spec fn count_status(ws: Seq<WorkflowSummary>, s: WorkflowStatus) -> nat
    decreases ws.len(),
{
    if ws.len() == 0 {
        0
    } else {
        count_status(ws.drop_last(), s) + if ws.last().status == s { 1nat } else { 0nat }
    }
}

impl StatusCounts {
    /// Counts the workflows of each status that occurs in `workflows`.
    pub fn from_workflows(workflows: &[WorkflowSummary]) -> (r: StatusCounts)
        ensures
            r.wf(),
            forall|s: WorkflowStatus| #[trigger] r.count_of(s) == count_status(workflows@, s),
            forall|s: WorkflowStatus| r.view().dom().contains(s) <==> count_status(workflows@, s) > 0,
    {
        let mut counts = StatusCounts::new();
        let mut i: usize = 0;
        while i < workflows.len()
            invariant
                i <= workflows@.len(),
                counts.wf(),
                forall|s: WorkflowStatus| #[trigger] counts.count_of(s) == count_status(workflows@.take(i as int), s),
                forall|s: WorkflowStatus| counts.view().dom().contains(s) <==> count_status(workflows@.take(i as int), s) > 0,
                forall|s: WorkflowStatus| count_status(workflows@.take(i as int), s) <= i,
            decreases workflows.len() - i,
        {
            let st = workflows[i].status;
            proof {
                assert(workflows@.take(i + 1).drop_last() =~= workflows@.take(i as int));
            }
            let current = counts.get(st);
            assert(current == count_status(workflows@.take(i as int), st));
            let ghost old_counts = counts;
            counts.set(st, current + 1);
            proof {
                let w = workflows@.take(i + 1);
                assert(count_status(w, st) == current + 1);
                assert(w.drop_last() =~= workflows@.take(i as int));
                assert(w.last().status == st);
                assert forall|s: WorkflowStatus| #[trigger] counts.count_of(s) == count_status(w, s) by {
                    if s != st {
                        assert(old_counts.count_of(s) == count_status(workflows@.take(i as int), s));
                        assert(count_status(w, s) == count_status(workflows@.take(i as int), s));
                    }
                }
                assert forall|s: WorkflowStatus| counts.view().dom().contains(s) <==> count_status(w, s) > 0 by {
                    if s != st {
                        assert(old_counts.view().dom().contains(s) <==> count_status(workflows@.take(i as int), s) > 0);
                        assert(count_status(w, s) == count_status(workflows@.take(i as int), s));
                    }
                }
                assert forall|s: WorkflowStatus| count_status(w, s) <= i + 1 by {
                    assert(count_status(w, s) <= count_status(workflows@.take(i as int), s) + 1);
                }
            }
            i = i + 1;
        }
        assert(workflows@.take(workflows@.len() as int) =~= workflows@);
        counts
    }
}

/// No workflow type occurs twice in an entry list.
pub open spec fn unique_types(e: Seq<(String, u64)>) -> bool {
    forall|i: int, j: int| 0 <= i < j < e.len() ==> e[i].0@ != e[j].0@
}

/// The type-to-count map that an entry list describes.
pub open spec fn type_map(e: Seq<(String, u64)>) -> Map<Seq<char>, u64>
    decreases e.len(),
{
    if e.len() == 0 {
        Map::empty()
    } else {
        type_map(e.drop_last()).insert(e.last().0@, e.last().1)
    }
}

/// Sum of the counts of a type entry list.
pub open spec fn type_sum(e: Seq<(String, u64)>) -> int
    decreases e.len(),
{
    if e.len() == 0 {
        0
    } else {
        type_sum(e.drop_last()) + e.last().1
    }
}

/// How many workflows of `ws` have type `t`.
pub open spec fn count_type(ws: Seq<WorkflowSummary>, t: Seq<char>) -> nat
    decreases ws.len(),
{
    if ws.len() == 0 {
        0
    } else {
        count_type(ws.drop_last(), t) + if ws.last().workflow_type@ == t { 1nat } else { 0nat }
    }
}

/// Sort keys that order type entries by count, largest first.
pub open spec fn type_keys_desc(e: Seq<(String, u64)>) -> Seq<i128> {
    Seq::new(e.len(), |i: int| (-(e[i].1 as int)) as i128)
}

/// Workflow counts by workflow type; types keep the order in which they
/// were first counted.
#[derive(Debug, Clone)]
pub struct TypeDistribution {
    counts: Vec<(String, u64)>,
}

impl TypeDistribution {
    /// The (type, count) entries, in first-counted order.
    pub closed spec fn entries(&self) -> Seq<(String, u64)> {
        self.counts@
    }

    /// The counts as a map from type name to count.
    pub open spec fn view(&self) -> Map<Seq<char>, u64> {
        type_map(self.entries())
    }

    /// Every type occurs at most once.
    pub open spec fn wf(&self) -> bool {
        unique_types(self.entries())
    }

    /// No counts.
    pub fn new() -> (r: TypeDistribution)
        ensures
            r.wf(),
            r.entries() == Seq::<(String, u64)>::empty(),
    {
        TypeDistribution { counts: Vec::new() }
    }

    /// Counts the workflows of each type that occurs in `workflows`.
    pub fn from_workflows(workflows: &[WorkflowSummary]) -> (r: TypeDistribution)
        ensures
            r.wf(),
            forall|t: Seq<char>| r.view().dom().contains(t) <==> count_type(workflows@, t) > 0,
            forall|t: Seq<char>| r.view().dom().contains(t) ==> r.view()[t] == count_type(workflows@, t),
            type_sum(r.entries()) == workflows@.len(),
    {
        let mut dist = TypeDistribution::new();
        let mut i: usize = 0;
        while i < workflows.len()
            invariant
                i <= workflows@.len(),
                dist.wf(),
                forall|t: Seq<char>| dist.view().dom().contains(t) <==> count_type(workflows@.take(i as int), t) > 0,
                forall|t: Seq<char>| dist.view().dom().contains(t) ==> dist.view()[t] == count_type(workflows@.take(i as int), t),
                forall|t: Seq<char>| count_type(workflows@.take(i as int), t) <= i,
                type_sum(dist.entries()) == i,
            decreases workflows.len() - i,
        {
            proof {
                assert(workflows@.take(i + 1).drop_last() =~= workflows@.take(i as int));
            }
            let ghost before = dist.view();
            dist.bump(&workflows[i].workflow_type);
            proof {
                let w = workflows@.take(i + 1);
                let t0 = workflows@[i as int].workflow_type@;
                assert(w.drop_last() =~= workflows@.take(i as int));
                assert(w.last().workflow_type@ == t0);
                assert forall|t: Seq<char>| dist.view().dom().contains(t) <==> count_type(w, t) > 0 by {
                    if t != t0 {
                        assert(count_type(w, t) == count_type(workflows@.take(i as int), t));
                    }
                }
                assert forall|t: Seq<char>| dist.view().dom().contains(t) implies dist.view()[t] == count_type(w, t) by {
                    if t != t0 {
                        assert(count_type(w, t) == count_type(workflows@.take(i as int), t));
                    }
                }
                assert forall|t: Seq<char>| count_type(w, t) <= i + 1 by {
                    assert(count_type(w, t) <= count_type(workflows@.take(i as int), t) + 1);
                }
            }
            i = i + 1;
        }
        assert(workflows@.take(workflows@.len() as int) =~= workflows@);
        dist
    }

    /// Adds one to the count of type `t`.
    fn bump(&mut self, t: &String)
        requires
            old(self).wf(),
            old(self).view().dom().contains(t@) ==> old(self).view()[t@] < u64::MAX,
        ensures
            final(self).wf(),
            final(self).view() == old(self).view().insert(
                t@,
                if old(self).view().dom().contains(t@) { (old(self).view()[t@] + 1) as u64 } else { 1u64 },
            ),
            type_sum(final(self).entries()) == type_sum(old(self).entries()) + 1,
    {
        let ghost e0 = self.counts@;
        let key = chars_of(t.as_str());
        let mut i: usize = 0;
        while i < self.counts.len()
            invariant
                self.counts@ == e0,
                old(self).counts@ == e0,
                unique_types(e0),
                key@ == t@,
                type_map(e0).dom().contains(t@) ==> type_map(e0)[t@] < u64::MAX,
                i <= e0.len(),
                forall|k: int| 0 <= k < i ==> e0[k].0@ != t@,
            decreases self.counts.len() - i,
        {
            let name = chars_of(self.counts[i].0.as_str());
            if chars_eq(&name, &key) {
                let c = self.counts[i].1;
                proof {
                    lemma_type_lookup(e0, i as int);
                    assert(e0[i as int].1 == c);
                }
                let entry = (self.counts[i].0.clone(), c + 1);
                self.counts.set(i, entry);
                proof {
                    lemma_type_update(e0, i as int, entry);
                }
                return;
            }
            i = i + 1;
        }
        self.counts.push((t.clone(), 1));
        proof {
            lemma_type_absent(e0, t@);
            assert(self.counts@.drop_last() =~= e0);
        }
    }

    /// The `n` types with the largest counts, largest first; types with equal
    /// counts keep their first-counted order.
    pub fn top_n(&self, n: usize) -> (r: Vec<(&str, u64)>)
        ensures
            exists|p: Seq<usize>|
                stable_order(type_keys_desc(self.entries()), p) && r@.len() == (if n < p.len() { n as int } else { p.len() as int })
                    && forall|j: int| 0 <= j < r@.len() ==> r@[j].0@ == self.entries()[p[j] as int].0@
                        && r@[j].1 == self.entries()[p[j] as int].1,
    {
        let mut keys: Vec<i128> = Vec::new();
        let mut i: usize = 0;
        while i < self.counts.len()
            invariant
                i <= self.counts@.len(),
                keys@ == type_keys_desc(self.counts@).take(i as int),
            decreases self.counts.len() - i,
        {
            keys.push(-(self.counts[i].1 as i128));
            assert(keys@ =~= type_keys_desc(self.counts@).take(i + 1));
            i = i + 1;
        }
        assert(keys@ =~= type_keys_desc(self.counts@));
        let p = stable_order_asc(&keys);
        let mut r: Vec<(&str, u64)> = Vec::new();
        let mut j: usize = 0;
        while j < p.len() && j < n
            invariant
                stable_order(keys@, p@),
                keys@.len() == self.counts@.len(),
                j <= p.len(),
                j <= n,
                r@.len() == j,
                forall|k: int| 0 <= k < j ==> r@[k].0@ == self.counts@[p@[k] as int].0@
                    && r@[k].1 == self.counts@[p@[k] as int].1,
            decreases p.len() - j,
        {
            let k = p[j];
            r.push((self.counts[k].0.as_str(), self.counts[k].1));
            j = j + 1;
        }
        assert(keys@ == type_keys_desc(self.entries()));
        r
    }

    /// Sum of all counts.
    pub fn total(&self) -> (r: u64)
        requires
            type_sum(self.entries()) <= u64::MAX,
        ensures
            r == type_sum(self.entries()),
    {
        let mut t: u64 = 0;
        let mut i: usize = 0;
        while i < self.counts.len()
            invariant
                i <= self.counts@.len(),
                type_sum(self.counts@) <= u64::MAX,
                t == type_sum(self.counts@.take(i as int)),
            decreases self.counts.len() - i,
        {
            proof {
                assert(self.counts@.take(i + 1).drop_last() =~= self.counts@.take(i as int));
                lemma_type_sum_prefix_le(self.counts@, i + 1);
            }
            t = t + self.counts[i].1;
            i = i + 1;
        }
        assert(self.counts@.take(self.counts@.len() as int) =~= self.counts@);
        t
    }
}

proof fn lemma_type_absent(e: Seq<(String, u64)>, t: Seq<char>)
    requires
        forall|k: int| 0 <= k < e.len() ==> e[k].0@ != t,
    ensures
        !type_map(e).dom().contains(t),
    decreases e.len(),
{
    if e.len() > 0 {
        lemma_type_absent(e.drop_last(), t);
    }
}

proof fn lemma_type_lookup(e: Seq<(String, u64)>, i: int)
    requires
        unique_types(e),
        0 <= i < e.len(),
    ensures
        type_map(e).dom().contains(e[i].0@),
        type_map(e)[e[i].0@] == e[i].1,
    decreases e.len(),
{
    if i < e.len() - 1 {
        lemma_type_lookup(e.drop_last(), i);
    }
}

proof fn lemma_type_update(e: Seq<(String, u64)>, i: int, x: (String, u64))
    requires
        unique_types(e),
        0 <= i < e.len(),
        x.0@ == e[i].0@,
    ensures
        unique_types(e.update(i, x)),
        type_map(e.update(i, x)) == type_map(e).insert(x.0@, x.1),
        type_sum(e.update(i, x)) == type_sum(e) - e[i].1 + x.1,
    decreases e.len(),
{
    let u = e.update(i, x);
    if i == e.len() - 1 {
        assert(u.drop_last() =~= e.drop_last());
        lemma_type_absent(e.drop_last(), e[i].0@);
        assert(type_map(u) =~= type_map(e).insert(x.0@, x.1));
    } else {
        lemma_type_update(e.drop_last(), i, x);
        assert(u.drop_last() =~= e.drop_last().update(i, x));
        assert(type_map(u) =~= type_map(e).insert(x.0@, x.1));
    }
}

proof fn lemma_type_sum_prefix_le(e: Seq<(String, u64)>, k: int)
    requires
        0 <= k <= e.len(),
    ensures
        type_sum(e.take(k)) <= type_sum(e),
    decreases e.len() - k,
{
    if k < e.len() {
        lemma_type_sum_prefix_le(e, k + 1);
        assert(e.take(k + 1).drop_last() =~= e.take(k));
    } else {
        assert(e.take(k) =~= e);
    }
}

/// The members of a filtered sequence come from it and pass the filter.
proof fn lemma_filter_in<A>(e: Seq<A>, p: spec_fn(A) -> bool, x: A)
    requires
        e.filter(p).contains(x),
    ensures
        e.contains(x),
        p(x),
    decreases e.len(),
{
    reveal(Seq::filter);
    if e.len() > 0 {
        let d = e.drop_last();
        let sub = d.filter(p);
        if p(e.last()) && x == e.last() {
            assert(e[e.len() - 1] == x);
        } else {
            if p(e.last()) {
                let i = choose|i: int| 0 <= i < sub.push(e.last()).len() && sub.push(e.last())[i] == x;
                assert(i < sub.len());
                assert(sub[i] == x);
            }
            assert(sub.contains(x));
            lemma_filter_in(d, p, x);
            let j = choose|j: int| 0 <= j < d.len() && d[j] == x;
            assert(e[j] == x);
        }
    }
}

/// A status in the count map has an entry.
proof fn lemma_present(e: Seq<(WorkflowStatus, u64)>, s: WorkflowStatus) -> (k: int)
    requires
        entries_map(e).dom().contains(s),
    ensures
        0 <= k < e.len(),
        e[k].0 == s,
{
    if forall|k: int| 0 <= k < e.len() ==> e[k].0 != s {
        lemma_absent(e, s);
    }
    choose|k: int| 0 <= k < e.len() && e[k].0 == s
}

/// The entries with a count above zero.
pub open spec fn nonzero_entries(e: Seq<(WorkflowStatus, u64)>) -> Seq<(WorkflowStatus, u64)> {
    e.filter(|x: (WorkflowStatus, u64)| x.1 > 0)
}

/// Law: the non-zero entries are exactly the pairs of the count map whose
/// count is above zero.
pub proof fn law_non_zero_pairs(c: StatusCounts, s: WorkflowStatus, n: u64)
    requires
        c.wf(),
    ensures
        nonzero_entries(c.entries()).contains((s, n)) <==> (c.view().dom().contains(s) && c.view()[s] == n && n > 0),
{
    let e = c.entries();
    let p = |x: (WorkflowStatus, u64)| x.1 > 0;
    if e.filter(p).contains((s, n)) {
        lemma_filter_in(e, p, (s, n));
        let i = choose|i: int| 0 <= i < e.len() && e[i] == (s, n);
        lemma_lookup(e, i);
    }
    if c.view().dom().contains(s) && c.view()[s] == n && n > 0 {
        let k = lemma_present(e, s);
        lemma_lookup(e, k);
        assert(e[k] == (s, n));
        e.lemma_filter_contains(p, k);
    }
}

/// Law: counts sorted by count are the count map's pairs, each status once,
/// nothing added and nothing lost.
pub proof fn law_sorted_counts_pairs(c: StatusCounts, r: Seq<(WorkflowStatus, u64)>, s: WorkflowStatus, n: u64)
    requires
        c.wf(),
        sorted_counts(c.entries(), r),
    ensures
        r.len() == c.entries().len(),
        r.contains((s, n)) <==> (c.view().dom().contains(s) && c.view()[s] == n),
        forall|i: int, j: int| 0 <= i < j < r.len() ==> r[i].0 != r[j].0,
{
    let e = c.entries();
    let p = choose|p: Seq<usize>| #[trigger] stable_order(count_keys_desc(e), p) && r.len() == p.len()
        && forall|j: int| 0 <= j < p.len() ==> r[j] == e[p[j] as int];
    let keys = count_keys_desc(e);
    if r.contains((s, n)) {
        let j = choose|j: int| 0 <= j < r.len() && r[j] == (s, n);
        lemma_lookup(e, p[j] as int);
    }
    if c.view().dom().contains(s) && c.view()[s] == n {
        let k = lemma_present(e, s);
        lemma_lookup(e, k);
        crate::order::lemma_stable_order_onto(keys, p, k);
        let j = choose|j: int| 0 <= j < p.len() && p[j] as int == k;
        assert(r[j] == (s, n));
    }
    assert forall|i: int, j: int| 0 <= i < j < r.len() implies r[i].0 != r[j].0 by {
        assert(crate::order::key_before(keys[p[i] as int] as int, p[i] as int, keys[p[j] as int] as int, p[j] as int));
        assert(p[i] != p[j]);
    }
}

/// Law: reading a status right after setting it gives the count set, and
/// setting one status leaves every other status's count as it was.
pub proof fn law_get_after_set(before: StatusCounts, after: StatusCounts, s: WorkflowStatus, c: u64, other: WorkflowStatus)
    requires
        after.view() == before.view().insert(s, c),
    ensures
        after.count_of(s) == c,
        other != s ==> after.count_of(other) == before.count_of(other),
{
}

} // verus!
