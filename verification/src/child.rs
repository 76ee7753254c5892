//! Child workflow executions, rebuilt from the events of a workflow history.

use vstd::prelude::*;
use crate::activity::{failure_from_details, failure_matches, is_kind, span, events_time_ok, FailureModel};
use crate::json::{get_i64, get_str, json_get, json_i64, json_str, JsonValue};
use crate::model::{time_ok, FailureInfo, HistoryEvent};
use crate::status::ChildWorkflowStatus;
use crate::text::{chars_of, contains};

verus! {

/// What the events after initiation have told of a child workflow so far.
pub struct ChildProgress {
    pub run_id: Option<Seq<char>>,
    pub started_time: Option<i64>,
    pub started_event_id: Option<i64>,
    pub closed_time: Option<i64>,
    pub closed_event_id: Option<i64>,
    pub status: ChildWorkflowStatus,
    pub failure: Option<FailureModel>,
}

/// The progress of a child workflow that has only been initiated.
pub open spec fn initial_child_progress() -> ChildProgress {
    ChildProgress {
        run_id: None,
        started_time: None,
        started_event_id: None,
        closed_time: None,
        closed_event_id: None,
        status: ChildWorkflowStatus::Initiated,
        failure: None,
    }
}

/// The progress after one more event about the child workflow. A
/// `StartChildWorkflowExecutionFailed` event is recognised before the
/// other kinds, whose names it contains.
pub open spec fn child_step(p: ChildProgress, e: HistoryEvent) -> ChildProgress {
    let d = e.details;
    if is_kind(e, "StartChildWorkflowExecutionFailed"@) {
        ChildProgress {
            closed_time: Some(e.timestamp),
            closed_event_id: Some(e.event_id),
            status: ChildWorkflowStatus::StartFailed,
            failure: Some(FailureModel {
                message: "Child workflow failed to start"@,
                failure_type: "StartFailed"@,
                stack_trace: None,
            }),
            ..p
        }
    } else if is_kind(e, "ChildWorkflowExecutionStarted"@) {
        ChildProgress {
            started_time: Some(e.timestamp),
            started_event_id: Some(e.event_id),
            run_id: match json_str(json_get(d, "run_id"@)) {
                Some(r) => Some(r),
                None => p.run_id,
            },
            status: if p.status == ChildWorkflowStatus::Initiated { ChildWorkflowStatus::Started } else { p.status },
            ..p
        }
    } else if is_kind(e, "ChildWorkflowExecutionCompleted"@) {
        ChildProgress {
            closed_time: Some(e.timestamp),
            closed_event_id: Some(e.event_id),
            status: ChildWorkflowStatus::Completed,
            ..p
        }
    } else if is_kind(e, "ChildWorkflowExecutionFailed"@) {
        ChildProgress {
            closed_time: Some(e.timestamp),
            closed_event_id: Some(e.event_id),
            status: ChildWorkflowStatus::Failed,
            failure: Some(failure_from_details(d, "Child workflow failed"@)),
            ..p
        }
    } else if is_kind(e, "ChildWorkflowExecutionTimedOut"@) {
        ChildProgress {
            closed_time: Some(e.timestamp),
            closed_event_id: Some(e.event_id),
            status: ChildWorkflowStatus::TimedOut,
            failure: Some(FailureModel {
                message: "Child workflow timed out"@,
                failure_type: "Timeout"@,
                stack_trace: None,
            }),
            ..p
        }
    } else if is_kind(e, "ChildWorkflowExecutionCanceled"@) {
        ChildProgress {
            closed_time: Some(e.timestamp),
            closed_event_id: Some(e.event_id),
            status: ChildWorkflowStatus::Canceled,
            ..p
        }
    } else if is_kind(e, "ChildWorkflowExecutionTerminated"@) {
        ChildProgress {
            closed_time: Some(e.timestamp),
            closed_event_id: Some(e.event_id),
            status: ChildWorkflowStatus::Terminated,
            ..p
        }
    } else {
        p
    }
}

/// The initiated-event id an event refers to.
pub open spec fn refers_to_initiated(e: HistoryEvent) -> Option<i64> {
    json_i64(json_get(e.details, "initiated_event_id"@))
}

/// The progress of the child workflow initiated by event `id`, after `events`.
pub open spec fn child_progress_of(events: Seq<HistoryEvent>, id: i64) -> ChildProgress
    decreases events.len(),
{
    if events.len() == 0 {
        initial_child_progress()
    } else if refers_to_initiated(events.last()) == Some(id) {
        child_step(child_progress_of(events.drop_last(), id), events.last())
    } else {
        child_progress_of(events.drop_last(), id)
    }
}

/// The event initiates a child workflow.
pub open spec fn is_initiated(e: HistoryEvent) -> bool {
    is_kind(e, "StartChildWorkflowExecutionInitiated"@)
}

/// Position of the last event among `events` that initiates a child
/// workflow with event id `id`.
pub open spec fn last_initiated(events: Seq<HistoryEvent>, id: i64) -> Option<int>
    decreases events.len(),
{
    if events.len() == 0 {
        None
    } else if is_initiated(events.last()) && events.last().event_id == id {
        Some(events.len() - 1)
    } else {
        last_initiated(events.drop_last(), id)
    }
}

/// `c` carries what the initiating event `h` says of the child workflow.
pub open spec fn child_head_matches(c: ChildWorkflowExecution, h: HistoryEvent) -> bool {
    let d = h.details;
    &&& c.workflow_id@ == (match json_str(json_get(d, "workflow_id"@)) { Some(s) => s, None => Seq::empty() })
    &&& c.workflow_type@ == (match json_str(json_get(d, "workflow_type"@)) { Some(s) => s, None => "Unknown"@ })
    &&& (match (c.namespace, json_str(json_get(d, "namespace"@))) {
        (Some(q), Some(s)) => q@ == s,
        (None, None) => true,
        _ => false,
    })
    &&& c.initiated_time == h.timestamp
    &&& c.initiated_event_id == h.event_id
}

/// `c` carries the progress `p`.
pub open spec fn child_progress_matches(c: ChildWorkflowExecution, p: ChildProgress) -> bool {
    &&& (match (c.run_id, p.run_id) {
        (Some(a), Some(b)) => a@ == b,
        (None, None) => true,
        _ => false,
    })
    &&& c.started_time == p.started_time
    &&& c.started_event_id == p.started_event_id
    &&& c.closed_time == p.closed_time
    &&& c.closed_event_id == p.closed_event_id
    &&& c.status == p.status
    &&& failure_matches(c.failure, p.failure)
}

/// The durations of `c` follow from its times.
pub open spec fn child_durations_match(c: ChildWorkflowExecution) -> bool {
    &&& c.start_latency == span(Some(c.initiated_time), c.started_time)
    &&& c.execution_time == span(c.started_time, c.closed_time)
    &&& c.total_time == span(Some(c.initiated_time), c.closed_time)
}

/// `c` is the child workflow that `events` describe for the initiating
/// event id `c.initiated_event_id`.
pub open spec fn child_from_history(c: ChildWorkflowExecution, events: Seq<HistoryEvent>) -> bool {
    let id = c.initiated_event_id;
    &&& last_initiated(events, id) is Some
    &&& child_head_matches(c, events[last_initiated(events, id)->0])
    &&& child_progress_matches(c, child_progress_of(events, id))
    &&& child_durations_match(c)
}

/// A child workflow execution, correlated from several history events.
#[derive(Debug)]
pub struct ChildWorkflowExecution {
    pub workflow_id: String,
    pub workflow_type: String,
    pub status: ChildWorkflowStatus,
    pub namespace: Option<String>,
    pub run_id: Option<String>,
    pub initiated_time: i64,
    pub started_time: Option<i64>,
    pub closed_time: Option<i64>,
    pub start_latency: Option<i64>,
    pub execution_time: Option<i64>,
    pub total_time: Option<i64>,
    pub failure: Option<FailureInfo>,
    pub initiated_event_id: i64,
    pub started_event_id: Option<i64>,
    pub closed_event_id: Option<i64>,
}

/// `b` keeps the initiation fields of `a`.
pub open spec fn child_head_same(a: ChildWorkflowExecution, b: ChildWorkflowExecution) -> bool {
    &&& a.workflow_id == b.workflow_id
    &&& a.workflow_type == b.workflow_type
    &&& a.namespace == b.namespace
    &&& a.initiated_time == b.initiated_time
    &&& a.initiated_event_id == b.initiated_event_id
}

/// Applies one event about the child workflow to `c`.
fn apply_child_event(c: &mut ChildWorkflowExecution, e: &HistoryEvent)
    ensures
        forall|p: ChildProgress| child_progress_matches(*old(c), p) ==> child_progress_matches(
            *final(c),
            child_step(p, *e),
        ),
        child_head_same(*old(c), *final(c)),
{
    let ty = chars_of(e.event_type.as_str());
    let run_id = get_str(&e.details, "run_id");
    if contains(&ty, &chars_of("StartChildWorkflowExecutionFailed")) {
        c.closed_time = Some(e.timestamp);
        c.closed_event_id = Some(e.event_id);
        c.status = ChildWorkflowStatus::StartFailed;
        c.failure = Some(FailureInfo {
            message: "Child workflow failed to start".to_owned(),
            failure_type: "StartFailed".to_owned(),
            stack_trace: None,
            cause: None,
        });
    } else if contains(&ty, &chars_of("ChildWorkflowExecutionStarted")) {
        c.started_time = Some(e.timestamp);
        c.started_event_id = Some(e.event_id);
        if let Some(rid) = run_id {
            c.run_id = Some(rid);
        }
        if c.status == ChildWorkflowStatus::Initiated {
            c.status = ChildWorkflowStatus::Started;
        }
    } else if contains(&ty, &chars_of("ChildWorkflowExecutionCompleted")) {
        c.closed_time = Some(e.timestamp);
        c.closed_event_id = Some(e.event_id);
        c.status = ChildWorkflowStatus::Completed;
    } else if contains(&ty, &chars_of("ChildWorkflowExecutionFailed")) {
        c.closed_time = Some(e.timestamp);
        c.closed_event_id = Some(e.event_id);
        c.status = ChildWorkflowStatus::Failed;
        c.failure = Some(child_failure_info(&e.details));
    } else if contains(&ty, &chars_of("ChildWorkflowExecutionTimedOut")) {
        c.closed_time = Some(e.timestamp);
        c.closed_event_id = Some(e.event_id);
        c.status = ChildWorkflowStatus::TimedOut;
        c.failure = Some(FailureInfo {
            message: "Child workflow timed out".to_owned(),
            failure_type: "Timeout".to_owned(),
            stack_trace: None,
            cause: None,
        });
    } else if contains(&ty, &chars_of("ChildWorkflowExecutionCanceled")) {
        c.closed_time = Some(e.timestamp);
        c.closed_event_id = Some(e.event_id);
        c.status = ChildWorkflowStatus::Canceled;
    } else if contains(&ty, &chars_of("ChildWorkflowExecutionTerminated")) {
        c.closed_time = Some(e.timestamp);
        c.closed_event_id = Some(e.event_id);
        c.status = ChildWorkflowStatus::Terminated;
    }
}

/// The failure described in `d` under `failure`, defaulting to
/// `Child workflow failed`.
fn child_failure_info(d: &JsonValue) -> (r: FailureInfo)
    ensures
        failure_matches(Some(r), Some(failure_from_details(*d, "Child workflow failed"@))),
{
    crate::activity::failure_info_from(d, "Child workflow failed")
}

/// The child workflow fields that the initiating event gives, with nothing
/// yet known of its progress.
fn child_head(e: &HistoryEvent) -> (r: ChildWorkflowExecution)
    ensures
        child_head_matches(r, *e),
        child_progress_matches(r, initial_child_progress()),
{
    let d = &e.details;
    let workflow_id = match get_str(d, "workflow_id") {
        Some(s) => s,
        None => String::new(),
    };
    let workflow_type = match get_str(d, "workflow_type") {
        Some(s) => s,
        None => "Unknown".to_owned(),
    };
    let namespace = get_str(d, "namespace");
    ChildWorkflowExecution {
        workflow_id,
        workflow_type,
        status: ChildWorkflowStatus::Initiated,
        namespace,
        run_id: None,
        initiated_time: e.timestamp,
        started_time: None,
        closed_time: None,
        start_latency: None,
        execution_time: None,
        total_time: None,
        failure: None,
        initiated_event_id: e.event_id,
        started_event_id: None,
        closed_event_id: None,
    }
}

/// The child workflow with its durations computed from its times.
fn finish_child(c: ChildWorkflowExecution) -> (r: ChildWorkflowExecution)
    requires
        time_ok(c.initiated_time),
        c.started_time matches Some(t) ==> time_ok(t),
        c.closed_time matches Some(t) ==> time_ok(t),
    ensures
        r == (ChildWorkflowExecution {
            start_latency: r.start_latency,
            execution_time: r.execution_time,
            total_time: r.total_time,
            ..c
        }),
        child_durations_match(r),
{
    let start_latency = match c.started_time {
        Some(s) => Some(s - c.initiated_time),
        None => None,
    };
    let execution_time = match (c.started_time, c.closed_time) {
        (Some(s), Some(t)) => Some(t - s),
        _ => None,
    };
    let total_time = match c.closed_time {
        Some(t) => Some(t - c.initiated_time),
        None => None,
    };
    ChildWorkflowExecution { start_latency, execution_time, total_time, ..c }
}

proof fn lemma_child_times_ok(events: Seq<HistoryEvent>, id: i64)
    requires
        events_time_ok(events),
    ensures
        child_progress_of(events, id).started_time matches Some(t) ==> time_ok(t),
        child_progress_of(events, id).closed_time matches Some(t) ==> time_ok(t),
    decreases events.len(),
{
    if events.len() > 0 {
        lemma_child_times_ok(events.drop_last(), id);
        assert(time_ok(events[events.len() - 1].timestamp));
    }
}

proof fn lemma_last_initiated_in(events: Seq<HistoryEvent>, id: i64)
    ensures
        last_initiated(events, id) matches Some(j) ==> 0 <= j < events.len() && is_initiated(events[j])
            && events[j].event_id == id,
    decreases events.len(),
{
    if events.len() > 0 {
        lemma_last_initiated_in(events.drop_last(), id);
    }
}

/// Rebuilds the child workflow executions of a workflow from its history:
/// one per event id of a `StartChildWorkflowExecutionInitiated` event (the
/// last such event with that id gives its initiation fields), ordered by
/// that id. Each event whose details name that id under
/// `initiated_event_id` updates it: failed to start, started, completed,
/// failed, timed out, canceled or terminated. Durations follow from the
/// times.
pub fn correlate_child_workflows(events: &[HistoryEvent]) -> (r: Vec<ChildWorkflowExecution>)
    requires
        events_time_ok(events@),
    ensures
        forall|j: int, k: int| 0 <= j < k < r@.len() ==> r@[j].initiated_event_id < r@[k].initiated_event_id,
        forall|k: int| 0 <= k < r@.len() ==> child_from_history(#[trigger] r@[k], events@),
        forall|i: int| 0 <= i < events@.len() && is_initiated(#[trigger] events@[i]) ==> exists|k: int|
            0 <= k < r@.len() && r@[k].initiated_event_id == events@[i].event_id,
{
    let n = events.len();
    let mut builders: Vec<ChildWorkflowExecution> = Vec::new();
    let kind = chars_of("StartChildWorkflowExecutionInitiated");
    let mut i: usize = 0;
    while i < n
        invariant
            n == events@.len(),
            kind@ == "StartChildWorkflowExecutionInitiated"@,
            i <= n,
            forall|j: int, k: int| 0 <= j < k < builders@.len() ==> builders@[j].initiated_event_id < builders@[k].initiated_event_id,
            forall|k: int| 0 <= k < builders@.len() ==> {
                let id = (#[trigger] builders@[k]).initiated_event_id;
                &&& last_initiated(events@.take(i as int), id) is Some
                &&& child_head_matches(builders@[k], events@.take(i as int)[last_initiated(events@.take(i as int), id)->0])
                &&& child_progress_matches(builders@[k], initial_child_progress())
            },
            forall|j: int| 0 <= j < i && is_initiated(#[trigger] events@[j]) ==> exists|k: int|
                0 <= k < builders@.len() && builders@[k].initiated_event_id == events@[j].event_id,
        decreases n - i,
    {
        let e = &events[i];
        let ty = chars_of(e.event_type.as_str());
        let ghost prev = builders@;
        let ghost w = events@.take(i + 1);
        assert(w.drop_last() =~= events@.take(i as int));
        assert(w.last() == events@[i as int]);
        if contains(&ty, &kind) {
            let id = e.event_id;
            let mut pos: usize = 0;
            while pos < builders.len() && builders[pos].initiated_event_id < id
                invariant
                    pos <= builders@.len(),
                    forall|k: int| 0 <= k < pos ==> builders@[k].initiated_event_id < id,
                decreases builders.len() - pos,
            {
                pos = pos + 1;
            }
            let h = child_head(e);
            let ghost mut replaced = false;
            if pos < builders.len() && builders[pos].initiated_event_id == id {
                builders.set(pos, h);
                proof { replaced = true; }
            } else {
                builders.insert(pos, h);
            }
            proof {
                assert forall|k: int| 0 <= k < builders@.len() implies {
                    let id2 = (#[trigger] builders@[k]).initiated_event_id;
                    &&& last_initiated(w, id2) is Some
                    &&& child_head_matches(builders@[k], w[last_initiated(w, id2)->0])
                    &&& child_progress_matches(builders@[k], initial_child_progress())
                } by {
                    let id2 = builders@[k].initiated_event_id;
                    if id2 == id {
                        assert(last_initiated(w, id2) == Some(i as int));
                        assert(w[i as int] == events@[i as int]);
                    } else {
                        assert(last_initiated(w, id2) == last_initiated(events@.take(i as int), id2));
                        let kp: int = if k < pos || replaced { k } else { k - 1 };
                        assert(builders@[k] == prev[kp]);
                        assert(0 <= kp < prev.len());
                        let ls = last_initiated(events@.take(i as int), id2)->0;
                        lemma_last_initiated_in(events@.take(i as int), id2);
                        assert(w[ls] == events@.take(i as int)[ls]);
                        assert(child_head_matches(prev[kp], events@.take(i as int)[ls]));
                    }
                }
                assert forall|j: int| 0 <= j < i + 1 && is_initiated(#[trigger] events@[j]) implies exists|k: int|
                    0 <= k < builders@.len() && builders@[k].initiated_event_id == events@[j].event_id by {
                    if j < i {
                        let k0 = choose|k: int| 0 <= k < prev.len() && prev[k].initiated_event_id == events@[j].event_id;
                        if prev[k0].initiated_event_id == id {
                            assert(builders@[pos as int].initiated_event_id == id);
                        } else if k0 < pos {
                            assert(builders@[k0] == prev[k0]);
                        } else {
                            assert(builders@[k0 + 1] == prev[k0] || builders@[k0] == prev[k0]);
                        }
                    } else {
                        assert(builders@[pos as int].initiated_event_id == id);
                    }
                }
            }
        } else {
            proof {
                assert(!is_initiated(events@[i as int]));
                assert forall|k: int| 0 <= k < builders@.len() implies {
                    let id2 = (#[trigger] builders@[k]).initiated_event_id;
                    &&& last_initiated(w, id2) is Some
                    &&& child_head_matches(builders@[k], w[last_initiated(w, id2)->0])
                    &&& child_progress_matches(builders@[k], initial_child_progress())
                } by {
                    let id2 = builders@[k].initiated_event_id;
                    assert(last_initiated(w, id2) == last_initiated(events@.take(i as int), id2));
                    let ls = last_initiated(events@.take(i as int), id2)->0;
                    lemma_last_initiated_in(events@.take(i as int), id2);
                    assert(w[ls] == events@.take(i as int)[ls]);
                }
            }
        }
        i = i + 1;
    }
    assert(events@.take(n as int) =~= events@);
    let ghost ids: Seq<i64> = builders@.map_values(|b: ChildWorkflowExecution| b.initiated_event_id);
        i = 0;
    assert(events@.take(0) =~= Seq::<HistoryEvent>::empty());
    proof {
        assert forall|k: int| 0 <= k < ids.len() implies (#[trigger] builders@[k]).initiated_event_id == ids[k] by {}
        assert forall|k: int| 0 <= k < ids.len() implies {
            let id = #[trigger] ids[k];
            &&& last_initiated(events@, id) is Some
            &&& child_head_matches(builders@[k], events@[last_initiated(events@, id)->0])
            &&& child_progress_matches(builders@[k], child_progress_of(events@.take(0), id))
        } by {
            assert(builders@[k].initiated_event_id == ids[k]);
        }
        assert forall|j: int| 0 <= j < n && is_initiated(#[trigger] events@[j]) implies exists|k: int|
            0 <= k < ids.len() && ids[k] == events@[j].event_id by {
            let k = choose|k: int| 0 <= k < builders@.len() && builders@[k].initiated_event_id == events@[j].event_id;
            assert(ids[k] == builders@[k].initiated_event_id);
        }
        assert forall|j: int, k: int| 0 <= j < k < ids.len() implies ids[j] < ids[k] by {
            assert(ids[j] == builders@[j].initiated_event_id);
            assert(ids[k] == builders@[k].initiated_event_id);
        }
    }
    while i < n
        invariant
            n == events@.len(),
            events_time_ok(events@),
            i <= n,
            builders@.len() == ids.len(),
            forall|k: int| 0 <= k < ids.len() ==> (#[trigger] builders@[k]).initiated_event_id == ids[k],
            forall|j: int, k: int| 0 <= j < k < ids.len() ==> ids[j] < ids[k],
            forall|k: int| 0 <= k < ids.len() ==> {
                let id = #[trigger] ids[k];
                &&& last_initiated(events@, id) is Some
                &&& child_head_matches(builders@[k], events@[last_initiated(events@, id)->0])
                &&& child_progress_matches(builders@[k], child_progress_of(events@.take(i as int), id))
            },
            forall|j: int| 0 <= j < n && is_initiated(#[trigger] events@[j]) ==> exists|k: int|
                0 <= k < ids.len() && ids[k] == events@[j].event_id,
        decreases n - i,
    {
        let e = &events[i];
        let ghost w = events@.take(i + 1);
        assert(w.drop_last() =~= events@.take(i as int));
        assert(w.last() == events@[i as int]);
        let sid = get_i64(&e.details, "initiated_event_id");
        assert(sid == refers_to_initiated(events@[i as int]));
        let ghost prev = builders@;
        match sid {
            Some(sid) => {
                let mut k: usize = 0;
                while k < builders.len() && builders[k].initiated_event_id != sid
                    invariant
                        k <= builders@.len(),
                        forall|m: int| 0 <= m < k ==> builders@[m].initiated_event_id != sid,
                    decreases builders.len() - k,
                {
                    k = k + 1;
                }
                if k < builders.len() {
                    let mut b = builders.remove(k);
                    apply_child_event(&mut b, e);
                    builders.insert(k, b);
                    proof {
                        assert forall|m: int| 0 <= m < ids.len() implies {
                            let id = #[trigger] ids[m];
                            &&& last_initiated(events@, id) is Some
                            &&& child_head_matches(builders@[m], events@[last_initiated(events@, id)->0])
                            &&& child_progress_matches(builders@[m], child_progress_of(w, id))
                        } by {
                            if m == k {
                                assert(child_progress_of(w, ids[m]) == child_step(child_progress_of(events@.take(i as int), ids[m]), events@[i as int]));
                            } else {
                                assert(builders@[m] == prev[m]);
                                assert(ids[m] != sid);
                                assert(child_progress_of(w, ids[m]) == child_progress_of(events@.take(i as int), ids[m]));
                            }
                        }
                        assert forall|m: int| 0 <= m < ids.len() implies (#[trigger] builders@[m]).initiated_event_id == ids[m] by {
                            if m != k {
                                assert(builders@[m] == prev[m]);
                            }
                        }
                    }
                } else {
                    proof {
                        assert forall|m: int| 0 <= m < ids.len() implies {
                            let id = #[trigger] ids[m];
                            &&& last_initiated(events@, id) is Some
                            &&& child_head_matches(builders@[m], events@[last_initiated(events@, id)->0])
                            &&& child_progress_matches(builders@[m], child_progress_of(w, id))
                        } by {
                            assert(builders@[m].initiated_event_id == ids[m]);
                            assert(ids[m] != sid);
                            assert(child_progress_of(w, ids[m]) == child_progress_of(events@.take(i as int), ids[m]));
                        }
                    }
                }
            },
            None => {
                proof {
                    assert forall|m: int| 0 <= m < ids.len() implies {
                        let id = #[trigger] ids[m];
                        &&& last_initiated(events@, id) is Some
                        &&& child_head_matches(builders@[m], events@[last_initiated(events@, id)->0])
                        &&& child_progress_matches(builders@[m], child_progress_of(w, id))
                    } by {
                        assert(child_progress_of(w, ids[m]) == child_progress_of(events@.take(i as int), ids[m]));
                    }
                }
            },
        }
        i = i + 1;
    }
    let ghost finished = builders@;
    let mut r: Vec<ChildWorkflowExecution> = Vec::new();
    while builders.len() > 0
        invariant
            events_time_ok(events@),
            n == events@.len(),
            finished.len() == ids.len(),
            r@.len() + builders@.len() == ids.len(),
            forall|k: int| 0 <= k < builders@.len() ==> builders@[k] == finished[r@.len() + k],
            forall|k: int| 0 <= k < ids.len() ==> (#[trigger] finished[k]).initiated_event_id == ids[k],
            forall|j: int, k: int| 0 <= j < k < ids.len() ==> ids[j] < ids[k],
            forall|k: int| 0 <= k < ids.len() ==> {
                let id = #[trigger] ids[k];
                &&& last_initiated(events@, id) is Some
                &&& child_head_matches(finished[k], events@[last_initiated(events@, id)->0])
                &&& child_progress_matches(finished[k], child_progress_of(events@, id))
            },
            forall|k: int| 0 <= k < r@.len() ==> r@[k].initiated_event_id == ids[k],
            forall|k: int| 0 <= k < r@.len() ==> child_from_history(#[trigger] r@[k], events@),
        decreases builders.len(),
    {
        let ghost k0 = r@.len() as int;
        let b = builders.remove(0);
        proof {
            let id = ids[k0];
            assert(b == finished[k0]);
            lemma_last_initiated_in(events@, id);
            lemma_child_times_ok(events@, id);
            assert(time_ok(events@[last_initiated(events@, id)->0].timestamp));
        }
        let a = finish_child(b);
        r.push(a);
        proof {
            assert(r@[k0] == a);
            assert(child_from_history(r@[k0], events@));
            assert forall|k: int| 0 <= k < builders@.len() implies builders@[k] == finished[r@.len() + k] by {
            }
        }
    }
    proof {
        assert forall|i2: int| 0 <= i2 < events@.len() && is_initiated(#[trigger] events@[i2]) implies exists|k: int|
            0 <= k < r@.len() && r@[k].initiated_event_id == events@[i2].event_id by {
            let k = choose|k: int| 0 <= k < ids.len() && ids[k] == events@[i2].event_id;
            assert(r@[k].initiated_event_id == ids[k]);
        }
        assert forall|j: int, k: int| 0 <= j < k < r@.len() implies r@[j].initiated_event_id < r@[k].initiated_event_id by {
            assert(r@[j].initiated_event_id == ids[j]);
            assert(r@[k].initiated_event_id == ids[k]);
        }
    }
    r
}


/// The status an event that closes a child workflow gives it, by the kind
/// of the event: the start failed, or the child completed, failed, timed
/// out, was canceled or was terminated. Other events close nothing.
pub open spec fn child_closing_status(e: HistoryEvent) -> Option<ChildWorkflowStatus> {
    if is_kind(e, "StartChildWorkflowExecutionFailed"@) {
        Some(ChildWorkflowStatus::StartFailed)
    } else if is_kind(e, "ChildWorkflowExecutionStarted"@) {
        None
    } else if is_kind(e, "ChildWorkflowExecutionCompleted"@) {
        Some(ChildWorkflowStatus::Completed)
    } else if is_kind(e, "ChildWorkflowExecutionFailed"@) {
        Some(ChildWorkflowStatus::Failed)
    } else if is_kind(e, "ChildWorkflowExecutionTimedOut"@) {
        Some(ChildWorkflowStatus::TimedOut)
    } else if is_kind(e, "ChildWorkflowExecutionCanceled"@) {
        Some(ChildWorkflowStatus::Canceled)
    } else if is_kind(e, "ChildWorkflowExecutionTerminated"@) {
        Some(ChildWorkflowStatus::Terminated)
    } else {
        None
    }
}

/// The event reports that a child workflow started.
pub open spec fn child_start_event(e: HistoryEvent) -> bool {
    !is_kind(e, "StartChildWorkflowExecutionFailed"@) && is_kind(e, "ChildWorkflowExecutionStarted"@)
}

/// The last event among `events` that refers to child `id` and satisfies
/// `pick`.
pub open spec fn last_child_event(events: Seq<HistoryEvent>, id: i64, pick: spec_fn(HistoryEvent) -> bool) -> Option<HistoryEvent>
    decreases events.len(),
{
    if events.len() == 0 {
        None
    } else if refers_to_initiated(events.last()) == Some(id) && pick(events.last()) {
        Some(events.last())
    } else {
        last_child_event(events.drop_last(), id, pick)
    }
}

/// The event `last_child_event` finds satisfies `pick`.
proof fn lemma_last_child_event_picks(events: Seq<HistoryEvent>, id: i64, pick: spec_fn(HistoryEvent) -> bool)
    ensures
        last_child_event(events, id, pick) matches Some(x) ==> pick(x),
    decreases events.len(),
{
    if events.len() > 0 {
        lemma_last_child_event_picks(events.drop_last(), id, pick);
    }
}

/// What the events referring to a child make of its status and times.
proof fn lemma_child_progress_rules(events: Seq<HistoryEvent>, id: i64)
    ensures
        ({
            let p = child_progress_of(events, id);
            let cl = last_child_event(events, id, |e: HistoryEvent| child_closing_status(e) is Some);
            let st = last_child_event(events, id, |e: HistoryEvent| child_start_event(e));
            &&& p.status == match cl {
                Some(c) => child_closing_status(c)->0,
                None => if st is Some { ChildWorkflowStatus::Started } else { ChildWorkflowStatus::Initiated },
            }
            &&& p.closed_time == match cl { Some(c) => Some(c.timestamp), None => None }
            &&& p.started_time == match st { Some(x) => Some(x.timestamp), None => None }
        }),
    decreases events.len(),
{
    if events.len() > 0 {
        let d = events.drop_last();
        let e = events.last();
        lemma_child_progress_rules(d, id);
        let fc = |x: HistoryEvent| child_closing_status(x) is Some;
        let fs = |x: HistoryEvent| child_start_event(x);
        lemma_last_child_event_picks(d, id, fc);
        if refers_to_initiated(e) == Some(id) {
            assert(child_progress_of(events, id) == child_step(child_progress_of(d, id), e));
            if child_start_event(e) {
                assert(last_child_event(events, id, fs) == Some(e));
                assert(last_child_event(events, id, fc) == last_child_event(d, id, fc));
            } else if child_closing_status(e) is Some {
                assert(last_child_event(events, id, fc) == Some(e));
                assert(last_child_event(events, id, fs) == last_child_event(d, id, fs));
            } else {
                assert(last_child_event(events, id, fc) == last_child_event(d, id, fc));
                assert(last_child_event(events, id, fs) == last_child_event(d, id, fs));
                assert(child_progress_of(events, id) == child_progress_of(d, id));
            }
        } else {
            assert(last_child_event(events, id, fc) == last_child_event(d, id, fc));
            assert(last_child_event(events, id, fs) == last_child_event(d, id, fs));
        }
    }
}

/// Each correlated child workflow has the status of the last event that
/// closes it (so a terminated child is `Terminated`, a canceled one
/// `Canceled`, and so on for each closing kind), else `Started` when an
/// event reports its start, else `Initiated`; it closed when that closing
/// event happened, and started when the last start event happened.
pub proof fn law_child_follows_events(c: ChildWorkflowExecution, events: Seq<HistoryEvent>)
    requires
        child_from_history(c, events),
    ensures
        ({
            let id = c.initiated_event_id;
            let cl = last_child_event(events, id, |e: HistoryEvent| child_closing_status(e) is Some);
            let st = last_child_event(events, id, |e: HistoryEvent| child_start_event(e));
            &&& c.status == match cl {
                Some(x) => child_closing_status(x)->0,
                None => if st is Some { ChildWorkflowStatus::Started } else { ChildWorkflowStatus::Initiated },
            }
            &&& c.closed_time == match cl { Some(x) => Some(x.timestamp), None => None }
            &&& c.started_time == match st { Some(x) => Some(x.timestamp), None => None }
        }),
{
    lemma_child_progress_rules(events, c.initiated_event_id);
}

} // verus!
