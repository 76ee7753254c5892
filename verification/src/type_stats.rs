//! Workflow counts per workflow type, for the type list view.

use vstd::prelude::*;
use crate::app::TypeStat;
use crate::grouping::{distinct, distinct_strings, texts};
use crate::model::WorkflowSummary;
use crate::stats::{count_status, StatusCounts};
use crate::status::WorkflowStatus;

verus! {

/// The workflow types of a list, in order.
pub open spec fn type_texts(ws: Seq<WorkflowSummary>) -> Seq<Seq<char>> {
    ws.map_values(|w: WorkflowSummary| w.workflow_type@)
}

/// The workflows of type `t`, in order.
pub open spec fn of_type(ws: Seq<WorkflowSummary>, t: Seq<char>) -> Seq<WorkflowSummary> {
    ws.filter(|w: WorkflowSummary| w.workflow_type@ == t)
}

/// `st` holds the counts of the workflows of type `t` among `ws`.
pub open spec fn stat_of(ws: Seq<WorkflowSummary>, t: Seq<char>, st: TypeStat) -> bool {
    &&& st.workflow_type@ == t
    &&& st.total == of_type(ws, t).len()
    &&& st.counts.wf()
    &&& forall|s: WorkflowStatus| #[trigger] st.counts.count_of(s) == count_status(of_type(ws, t), s)
}

/// A copy of a workflow summary.
pub fn copy_summary(w: &WorkflowSummary) -> (r: WorkflowSummary)
    ensures
        r == *w,
{
    WorkflowSummary {
        workflow_id: w.workflow_id.clone(),
        run_id: w.run_id.clone(),
        workflow_type: w.workflow_type.clone(),
        status: w.status,
        start_time: w.start_time,
        close_time: w.close_time,
        task_queue: w.task_queue.clone(),
    }
}

/// The workflows of type `t`.
fn workflows_of_type(ws: &[WorkflowSummary], t: &String) -> (r: Vec<WorkflowSummary>)
    ensures
        r@ == of_type(ws@, t@),
{
    let mut r: Vec<WorkflowSummary> = Vec::new();
    let mut i: usize = 0;
    while i < ws.len()
        invariant
            i <= ws@.len(),
            r@ == of_type(ws@.take(i as int), t@),
        decreases ws.len() - i,
    {
        let ghost pred = |w: WorkflowSummary| w.workflow_type@ == t@;
        assert(ws@.take(i + 1).drop_last() =~= ws@.take(i as int));
        reveal(Seq::filter);
        if ws[i].workflow_type == *t {
            r.push(copy_summary(&ws[i]));
        }
        assert(r@ =~= of_type(ws@.take(i + 1), t@));
        i = i + 1;
    }
    assert(ws@.take(ws@.len() as int) =~= ws@);
    r
}

impl TypeStat {
    /// The counts of each workflow type that occurs in `ws`, types in order
    /// of first occurrence.
    pub fn from_workflows(ws: &[WorkflowSummary]) -> (r: Vec<TypeStat>)
        ensures
            r@.len() == distinct(type_texts(ws@)).len(),
            forall|k: int| 0 <= k < r@.len() ==> stat_of(ws@, distinct(type_texts(ws@))[k], #[trigger] r@[k]),
    {
        let mut names: Vec<String> = Vec::new();
        let mut i: usize = 0;
        while i < ws.len()
            invariant
                i <= ws@.len(),
                texts(names@) == type_texts(ws@).take(i as int),
            decreases ws.len() - i,
        {
            let ghost before = names@;
            let t = ws[i].workflow_type.clone();
            assert(t@ == ws@[i as int].workflow_type@);
            names.push(t);
            assert(texts(names@) =~= texts(before).push(t@));
            assert(type_texts(ws@).take(i + 1) =~= type_texts(ws@).take(i as int).push(ws@[i as int].workflow_type@));
            assert(texts(names@) =~= type_texts(ws@).take(i + 1));
            i = i + 1;
        }
        assert(type_texts(ws@).take(ws@.len() as int) =~= type_texts(ws@));
        let types = distinct_strings(&names);
        let ghost d = distinct(type_texts(ws@));
        assert(texts(types@) == d);
        let mut r: Vec<TypeStat> = Vec::new();
        let mut k: usize = 0;
        while k < types.len()
            invariant
                texts(types@) == d,
                d == distinct(type_texts(ws@)),
                k <= types@.len(),
                r@.len() == k,
                forall|j: int| 0 <= j < k ==> stat_of(ws@, d[j], #[trigger] r@[j]),
            decreases types.len() - k,
        {
            let of = workflows_of_type(ws, &types[k]);
            let counts = StatusCounts::from_workflows(&of);
            assert(d[k as int] == types@[k as int]@);
            r.push(TypeStat { workflow_type: types[k].clone(), total: of.len() as u64, counts });
            k = k + 1;
        }
        r
    }
}

} // verus!
