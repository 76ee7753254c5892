//! Activity executions, rebuilt from the events of a workflow history.

use vstd::prelude::*;
use crate::json::{
    clone_json, get_cloned, get_i64, get_str, json_get, json_i64, json_str, same_json_opt,
    JsonValue,
};
use crate::model::{time_ok, FailureInfo, HistoryEvent};
use crate::status::ActivityStatus;
use crate::text::{chars_of, contains, contains_seq};

verus! {

/// Failure information as plain texts.
pub struct FailureModel {
    pub message: Seq<char>,
    pub failure_type: Seq<char>,
    pub stack_trace: Option<Seq<char>>,
}

/// `f` holds exactly the texts of `m` and no cause.
pub open spec fn failure_matches(f: Option<FailureInfo>, m: Option<FailureModel>) -> bool {
    match (f, m) {
        (Some(f), Some(m)) => f.message@ == m.message && f.failure_type@ == m.failure_type
            && f.cause is None && match (f.stack_trace, m.stack_trace) {
            (Some(a), Some(b)) => a@ == b,
            (None, None) => true,
            _ => false,
        },
        (None, None) => true,
        _ => false,
    }
}

/// The failure an event's details describe under the key `failure`; the
/// message defaults to `default_message` and the type to `Unknown`.
pub open spec fn failure_from_details(d: JsonValue, default_message: Seq<char>) -> FailureModel {
    match json_get(d, "failure"@) {
        Some(f) => FailureModel {
            message: match json_str(json_get(f, "message"@)) {
                Some(m) => m,
                None => default_message,
            },
            failure_type: match json_str(json_get(f, "failure_type"@)) {
                Some(t) => t,
                None => "Unknown"@,
            },
            stack_trace: json_str(json_get(f, "stack_trace"@)),
        },
        None => FailureModel { message: default_message, failure_type: "Unknown"@, stack_trace: None },
    }
}

/// What the events after scheduling have told of an activity so far.
pub struct ActivityProgress {
    pub started_time: Option<i64>,
    pub started_event_id: Option<i64>,
    pub attempt: i32,
    pub closed_time: Option<i64>,
    pub closed_event_id: Option<i64>,
    pub status: ActivityStatus,
    pub output: Option<JsonValue>,
    pub failure: Option<FailureModel>,
}

/// The progress of an activity that has only been scheduled.
pub open spec fn initial_progress() -> ActivityProgress {
    ActivityProgress {
        started_time: None,
        started_event_id: None,
        attempt: 0,
        closed_time: None,
        closed_event_id: None,
        status: ActivityStatus::Scheduled,
        output: None,
        failure: None,
    }
}

/// Whether an event type names an event of kind `kind`.
pub open spec fn is_kind(e: HistoryEvent, kind: Seq<char>) -> bool {
    contains_seq(e.event_type@, kind)
}

/// The progress after one more event about the activity.
pub open spec fn activity_step(p: ActivityProgress, e: HistoryEvent) -> ActivityProgress {
    let d = e.details;
    if is_kind(e, "ActivityTaskStarted"@) {
        ActivityProgress {
            started_time: Some(e.timestamp),
            started_event_id: Some(e.event_id),
            attempt: match json_i64(json_get(d, "attempt"@)) {
                Some(n) => n as i32,
                None => 1,
            },
            status: if p.status == ActivityStatus::Scheduled { ActivityStatus::Running } else { p.status },
            ..p
        }
    } else if is_kind(e, "ActivityTaskCompleted"@) {
        ActivityProgress {
            closed_time: Some(e.timestamp),
            closed_event_id: Some(e.event_id),
            output: json_get(d, "result"@),
            status: ActivityStatus::Completed,
            ..p
        }
    } else if is_kind(e, "ActivityTaskFailed"@) {
        ActivityProgress {
            closed_time: Some(e.timestamp),
            closed_event_id: Some(e.event_id),
            status: ActivityStatus::Failed,
            failure: Some(failure_from_details(d, "Activity failed"@)),
            ..p
        }
    } else if is_kind(e, "ActivityTaskTimedOut"@) {
        ActivityProgress {
            closed_time: Some(e.timestamp),
            closed_event_id: Some(e.event_id),
            status: ActivityStatus::TimedOut,
            failure: Some(FailureModel {
                message: "Activity timed out"@,
                failure_type: "Timeout"@,
                stack_trace: None,
            }),
            ..p
        }
    } else if is_kind(e, "ActivityTaskCanceled"@) {
        ActivityProgress {
            closed_time: Some(e.timestamp),
            closed_event_id: Some(e.event_id),
            status: ActivityStatus::Canceled,
            ..p
        }
    } else {
        p
    }
}

/// The scheduled-event id an event refers to.
pub open spec fn refers_to(e: HistoryEvent) -> Option<i64> {
    json_i64(json_get(e.details, "scheduled_event_id"@))
}

/// The progress of the activity scheduled by event `id`, after `events`.
pub open spec fn progress_of(events: Seq<HistoryEvent>, id: i64) -> ActivityProgress
    decreases events.len(),
{
    if events.len() == 0 {
        initial_progress()
    } else if refers_to(events.last()) == Some(id) {
        activity_step(progress_of(events.drop_last(), id), events.last())
    } else {
        progress_of(events.drop_last(), id)
    }
}

/// The event schedules an activity.
pub open spec fn is_scheduled(e: HistoryEvent) -> bool {
    is_kind(e, "ActivityTaskScheduled"@)
}

/// Position of the last event among `events` that schedules an activity
/// with event id `id`.
pub open spec fn last_scheduled(events: Seq<HistoryEvent>, id: i64) -> Option<int>
    decreases events.len(),
{
    if events.len() == 0 {
        None
    } else if is_scheduled(events.last()) && events.last().event_id == id {
        Some(events.len() - 1)
    } else {
        last_scheduled(events.drop_last(), id)
    }
}

/// `a` carries what the scheduling event `h` says of the activity.
pub open spec fn head_matches(a: ActivityExecution, h: HistoryEvent) -> bool {
    let d = h.details;
    &&& a.activity_id@ == (match json_str(json_get(d, "activity_id"@)) { Some(s) => s, None => Seq::empty() })
    &&& a.activity_type@ == (match json_str(json_get(d, "activity_type"@)) { Some(s) => s, None => "Unknown"@ })
    &&& (match (a.task_queue, json_str(json_get(d, "task_queue"@))) {
        (Some(q), Some(s)) => q@ == s,
        (None, None) => true,
        _ => false,
    })
    &&& same_json_opt(a.input, json_get(d, "input"@))
    &&& a.scheduled_time == h.timestamp
    &&& a.scheduled_event_id == h.event_id
}

/// `a` carries the progress `p`.
pub open spec fn progress_matches(a: ActivityExecution, p: ActivityProgress) -> bool {
    &&& a.started_time == p.started_time
    &&& a.started_event_id == p.started_event_id
    &&& a.attempt == p.attempt
    &&& a.closed_time == p.closed_time
    &&& a.closed_event_id == p.closed_event_id
    &&& a.status == p.status
    &&& same_json_opt(a.output, p.output)
    &&& failure_matches(a.failure, p.failure)
}

/// The difference of two optional times.
pub open spec fn span(from: Option<i64>, to: Option<i64>) -> Option<i64> {
    match (from, to) {
        (Some(f), Some(t)) => Some((t - f) as i64),
        _ => None,
    }
}

/// The durations of `a` follow from its times.
pub open spec fn durations_match(a: ActivityExecution) -> bool {
    &&& a.queue_wait == span(Some(a.scheduled_time), a.started_time)
    &&& a.execution_time == span(a.started_time, a.closed_time)
    &&& a.total_time == span(Some(a.scheduled_time), a.closed_time)
}

/// `a` is the activity that `events` describe for the scheduling event id
/// `a.scheduled_event_id`.
pub open spec fn activity_from_history(a: ActivityExecution, events: Seq<HistoryEvent>) -> bool {
    let id = a.scheduled_event_id;
    &&& last_scheduled(events, id) is Some
    &&& head_matches(a, events[last_scheduled(events, id)->0])
    &&& progress_matches(a, progress_of(events, id))
    &&& durations_match(a)
}

/// Every event carries a time within the supported range.
pub open spec fn events_time_ok(events: Seq<HistoryEvent>) -> bool {
    forall|i: int| 0 <= i < events.len() ==> time_ok(#[trigger] events[i].timestamp)
}

/// An activity execution, correlated from several history events.
#[derive(Debug)]
pub struct ActivityExecution {
    pub activity_id: String,
    pub activity_type: String,
    pub status: ActivityStatus,
    pub task_queue: Option<String>,
    pub scheduled_time: i64,
    pub started_time: Option<i64>,
    pub closed_time: Option<i64>,
    pub queue_wait: Option<i64>,
    pub execution_time: Option<i64>,
    pub total_time: Option<i64>,
    pub attempt: i32,
    pub input: Option<JsonValue>,
    pub output: Option<JsonValue>,
    pub failure: Option<FailureInfo>,
    pub scheduled_event_id: i64,
    pub started_event_id: Option<i64>,
    pub closed_event_id: Option<i64>,
}

/// The failure described in `d` under `failure`.
pub(crate) fn failure_info_from(d: &JsonValue, default_message: &str) -> (r: FailureInfo)
    ensures
        failure_matches(Some(r), Some(failure_from_details(*d, default_message@))),
{
    match d.get("failure") {
        Some(f) => {
            let message = match get_str(f, "message") {
                Some(m) => m,
                None => default_message.to_owned(),
            };
            let failure_type = match get_str(f, "failure_type") {
                Some(t) => t,
                None => "Unknown".to_owned(),
            };
            let stack_trace = get_str(f, "stack_trace");
            FailureInfo { message, failure_type, stack_trace, cause: None }
        },
        None => FailureInfo {
            message: default_message.to_owned(),
            failure_type: "Unknown".to_owned(),
            stack_trace: None,
            cause: None,
        },
    }
}

/// Applies one event about the activity to `a`.
fn apply_activity_event(a: &mut ActivityExecution, e: &HistoryEvent)
    ensures
        forall|p: ActivityProgress| progress_matches(*old(a), p) ==> progress_matches(
            *final(a),
            activity_step(p, *e),
        ),
        head_matches_same(*old(a), *final(a)),
{
    let ty = chars_of(e.event_type.as_str());
    if contains(&ty, &chars_of("ActivityTaskStarted")) {
        a.started_time = Some(e.timestamp);
        a.started_event_id = Some(e.event_id);
        a.attempt = match get_i64(&e.details, "attempt") {
            Some(n) => n as i32,
            None => 1,
        };
        if a.status == ActivityStatus::Scheduled {
            a.status = ActivityStatus::Running;
        }
    } else if contains(&ty, &chars_of("ActivityTaskCompleted")) {
        a.closed_time = Some(e.timestamp);
        a.closed_event_id = Some(e.event_id);
        a.output = get_cloned(&e.details, "result");
        a.status = ActivityStatus::Completed;
    } else if contains(&ty, &chars_of("ActivityTaskFailed")) {
        a.closed_time = Some(e.timestamp);
        a.closed_event_id = Some(e.event_id);
        a.status = ActivityStatus::Failed;
        a.failure = Some(failure_info_from(&e.details, "Activity failed"));
    } else if contains(&ty, &chars_of("ActivityTaskTimedOut")) {
        a.closed_time = Some(e.timestamp);
        a.closed_event_id = Some(e.event_id);
        a.status = ActivityStatus::TimedOut;
        a.failure = Some(FailureInfo {
            message: "Activity timed out".to_owned(),
            failure_type: "Timeout".to_owned(),
            stack_trace: None,
            cause: None,
        });
    } else if contains(&ty, &chars_of("ActivityTaskCanceled")) {
        a.closed_time = Some(e.timestamp);
        a.closed_event_id = Some(e.event_id);
        a.status = ActivityStatus::Canceled;
    }
}

/// `b` keeps the scheduling fields of `a`.
pub open spec fn head_matches_same(a: ActivityExecution, b: ActivityExecution) -> bool {
    &&& a.activity_id@ == b.activity_id@
    &&& a.activity_type@ == b.activity_type@
    &&& (match (a.task_queue, b.task_queue) {
        (Some(x), Some(y)) => x@ == y@,
        (None, None) => true,
        _ => false,
    })
    &&& same_json_opt_eq(a.input, b.input)
    &&& a.scheduled_time == b.scheduled_time
    &&& a.scheduled_event_id == b.scheduled_event_id
}

/// The two optional values are the same value.
pub open spec fn same_json_opt_eq(a: Option<JsonValue>, b: Option<JsonValue>) -> bool {
    a == b
}


/// The activity fields that the scheduling event gives, with nothing yet
/// known of its progress.
fn activity_head(e: &HistoryEvent) -> (r: ActivityExecution)
    ensures
        head_matches(r, *e),
        progress_matches(r, initial_progress()),
        r.queue_wait is None && r.execution_time is None && r.total_time is None,
{
    let d = &e.details;
    let activity_id = match get_str(d, "activity_id") {
        Some(s) => s,
        None => String::new(),
    };
    let activity_type = match get_str(d, "activity_type") {
        Some(s) => s,
        None => "Unknown".to_owned(),
    };
    let task_queue = get_str(d, "task_queue");
    let input = get_cloned(d, "input");
    ActivityExecution {
        activity_id,
        activity_type,
        status: ActivityStatus::Scheduled,
        task_queue,
        scheduled_time: e.timestamp,
        started_time: None,
        closed_time: None,
        queue_wait: None,
        execution_time: None,
        total_time: None,
        attempt: 0,
        input,
        output: None,
        failure: None,
        scheduled_event_id: e.event_id,
        started_event_id: None,
        closed_event_id: None,
    }
}

/// The activity with its durations computed from its times.
fn finish_activity(a: ActivityExecution) -> (r: ActivityExecution)
    requires
        time_ok(a.scheduled_time),
        a.started_time matches Some(t) ==> time_ok(t),
        a.closed_time matches Some(t) ==> time_ok(t),
    ensures
        r == (ActivityExecution {
            queue_wait: r.queue_wait,
            execution_time: r.execution_time,
            total_time: r.total_time,
            ..a
        }),
        durations_match(r),
{
    let queue_wait = match a.started_time {
        Some(s) => Some(s - a.scheduled_time),
        None => None,
    };
    let execution_time = match (a.started_time, a.closed_time) {
        (Some(s), Some(c)) => Some(c - s),
        _ => None,
    };
    let total_time = match a.closed_time {
        Some(c) => Some(c - a.scheduled_time),
        None => None,
    };
    ActivityExecution { queue_wait, execution_time, total_time, ..a }
}

proof fn lemma_progress_times_ok(events: Seq<HistoryEvent>, id: i64)
    requires
        events_time_ok(events),
    ensures
        progress_of(events, id).started_time matches Some(t) ==> time_ok(t),
        progress_of(events, id).closed_time matches Some(t) ==> time_ok(t),
    decreases events.len(),
{
    if events.len() > 0 {
        lemma_progress_times_ok(events.drop_last(), id);
        assert(time_ok(events[events.len() - 1].timestamp));
    }
}

proof fn lemma_last_scheduled_in(events: Seq<HistoryEvent>, id: i64)
    ensures
        last_scheduled(events, id) matches Some(j) ==> 0 <= j < events.len() && is_scheduled(events[j])
            && events[j].event_id == id,
    decreases events.len(),
{
    if events.len() > 0 {
        lemma_last_scheduled_in(events.drop_last(), id);
    }
}

proof fn lemma_last_scheduled_found(events: Seq<HistoryEvent>, j: int)
    requires
        0 <= j < events.len(),
        is_scheduled(events[j]),
    ensures
        last_scheduled(events, events[j].event_id) is Some,
    decreases events.len(),
{
    if j < events.len() - 1 {
        lemma_last_scheduled_found(events.drop_last(), j);
    }
}

/// Rebuilds the activity executions of a workflow from its history: one per
/// event id of an `ActivityTaskScheduled` event (the last such event with
/// that id gives its scheduling fields), ordered by that id. Each later
/// event whose details name that id under `scheduled_event_id` updates it:
/// started, completed, failed, timed out or canceled. Durations follow from
/// the times.
pub fn correlate_activities(events: &[HistoryEvent]) -> (r: Vec<ActivityExecution>)
    requires
        events_time_ok(events@),
    ensures
        forall|j: int, k: int| 0 <= j < k < r@.len() ==> r@[j].scheduled_event_id < r@[k].scheduled_event_id,
        forall|k: int| 0 <= k < r@.len() ==> activity_from_history(#[trigger] r@[k], events@),
        forall|i: int| 0 <= i < events@.len() && is_scheduled(#[trigger] events@[i]) ==> exists|k: int|
            0 <= k < r@.len() && r@[k].scheduled_event_id == events@[i].event_id,
        forall|k: int| #![trigger r@[k]] 0 <= k < r@.len() ==> exists|i: int|
            0 <= i < events@.len() && is_scheduled(#[trigger] events@[i]) && events@[i].event_id == r@[k].scheduled_event_id,
{
    let n = events.len();
    let mut builders: Vec<ActivityExecution> = Vec::new();
    let kind = chars_of("ActivityTaskScheduled");
    let mut i: usize = 0;
    while i < n
        invariant
            n == events@.len(),
            kind@ == "ActivityTaskScheduled"@,
            i <= n,
            forall|j: int, k: int| 0 <= j < k < builders@.len() ==> builders@[j].scheduled_event_id < builders@[k].scheduled_event_id,
            forall|k: int| 0 <= k < builders@.len() ==> {
                let id = (#[trigger] builders@[k]).scheduled_event_id;
                &&& last_scheduled(events@.take(i as int), id) is Some
                &&& head_matches(builders@[k], events@.take(i as int)[last_scheduled(events@.take(i as int), id)->0])
                &&& progress_matches(builders@[k], initial_progress())
            },
            forall|j: int| 0 <= j < i && is_scheduled(#[trigger] events@[j]) ==> exists|k: int|
                0 <= k < builders@.len() && builders@[k].scheduled_event_id == events@[j].event_id,
        decreases n - i,
    {
        let e = &events[i];
        let ty = chars_of(e.event_type.as_str());
        let ghost prev = builders@;
        let ghost w = events@.take(i + 1);
        assert(w.drop_last() =~= events@.take(i as int));
        assert(w.last() == events@[i as int]);
        if contains(&ty, &kind) {
            let id = e.event_id;
            let mut pos: usize = 0;
            while pos < builders.len() && builders[pos].scheduled_event_id < id
                invariant
                    pos <= builders@.len(),
                    forall|k: int| 0 <= k < pos ==> builders@[k].scheduled_event_id < id,
                decreases builders.len() - pos,
            {
                pos = pos + 1;
            }
            let h = activity_head(e);
            let ghost mut replaced = false;
            if pos < builders.len() && builders[pos].scheduled_event_id == id {
                builders.set(pos, h);
                proof { replaced = true; }
            } else {
                builders.insert(pos, h);
            }
            proof {
                assert forall|k: int| 0 <= k < builders@.len() implies {
                    let id2 = (#[trigger] builders@[k]).scheduled_event_id;
                    &&& last_scheduled(w, id2) is Some
                    &&& head_matches(builders@[k], w[last_scheduled(w, id2)->0])
                    &&& progress_matches(builders@[k], initial_progress())
                } by {
                    let id2 = builders@[k].scheduled_event_id;
                    if id2 == id {
                        assert(last_scheduled(w, id2) == Some(i as int));
                        assert(w[i as int] == events@[i as int]);
                    } else {
                        assert(last_scheduled(w, id2) == last_scheduled(events@.take(i as int), id2));
                        let kp: int = if k < pos || replaced { k } else { k - 1 };
                        assert(builders@[k] == prev[kp]);
                        assert(0 <= kp < prev.len());
                        let ls = last_scheduled(events@.take(i as int), id2)->0;
                        lemma_last_scheduled_in(events@.take(i as int), id2);
                        assert(w[ls] == events@.take(i as int)[ls]);
                        assert(head_matches(prev[kp], events@.take(i as int)[ls]));
                    }
                }
                assert forall|j: int| 0 <= j < i + 1 && is_scheduled(#[trigger] events@[j]) implies exists|k: int|
                    0 <= k < builders@.len() && builders@[k].scheduled_event_id == events@[j].event_id by {
                    if j < i {
                        let k0 = choose|k: int| 0 <= k < prev.len() && prev[k].scheduled_event_id == events@[j].event_id;
                        if prev[k0].scheduled_event_id == id {
                            assert(builders@[pos as int].scheduled_event_id == id);
                        } else if k0 < pos {
                            assert(builders@[k0] == prev[k0]);
                        } else {
                            assert(builders@[k0 + 1] == prev[k0] || builders@[k0] == prev[k0]);
                        }
                    } else {
                        assert(builders@[pos as int].scheduled_event_id == id);
                    }
                }
            }
        } else {
            proof {
                assert(!is_scheduled(events@[i as int]));
                assert forall|k: int| 0 <= k < builders@.len() implies {
                    let id2 = (#[trigger] builders@[k]).scheduled_event_id;
                    &&& last_scheduled(w, id2) is Some
                    &&& head_matches(builders@[k], w[last_scheduled(w, id2)->0])
                    &&& progress_matches(builders@[k], initial_progress())
                } by {
                    let id2 = builders@[k].scheduled_event_id;
                    assert(last_scheduled(w, id2) == last_scheduled(events@.take(i as int), id2));
                    let ls = last_scheduled(events@.take(i as int), id2)->0;
                    lemma_last_scheduled_in(events@.take(i as int), id2);
                    assert(w[ls] == events@.take(i as int)[ls]);
                }
            }
        }
        i = i + 1;
    }
    assert(events@.take(n as int) =~= events@);
    let ghost ids: Seq<i64> = builders@.map_values(|b: ActivityExecution| b.scheduled_event_id);
    let refkey = chars_of("scheduled_event_id");
    i = 0;
    assert(events@.take(0) =~= Seq::<HistoryEvent>::empty());
    proof {
        assert forall|k: int| 0 <= k < ids.len() implies (#[trigger] builders@[k]).scheduled_event_id == ids[k] by {}
        assert forall|k: int| 0 <= k < ids.len() implies {
            let id = #[trigger] ids[k];
            &&& last_scheduled(events@, id) is Some
            &&& head_matches(builders@[k], events@[last_scheduled(events@, id)->0])
            &&& progress_matches(builders@[k], progress_of(events@.take(0), id))
        } by {
            assert(builders@[k].scheduled_event_id == ids[k]);
        }
        assert forall|j: int| 0 <= j < n && is_scheduled(#[trigger] events@[j]) implies exists|k: int|
            0 <= k < ids.len() && ids[k] == events@[j].event_id by {
            let k = choose|k: int| 0 <= k < builders@.len() && builders@[k].scheduled_event_id == events@[j].event_id;
            assert(ids[k] == builders@[k].scheduled_event_id);
        }
        assert forall|j: int, k: int| 0 <= j < k < ids.len() implies ids[j] < ids[k] by {
            assert(ids[j] == builders@[j].scheduled_event_id);
            assert(ids[k] == builders@[k].scheduled_event_id);
        }
    }
    while i < n
        invariant
            n == events@.len(),
            events_time_ok(events@),
            i <= n,
            builders@.len() == ids.len(),
            forall|k: int| 0 <= k < ids.len() ==> (#[trigger] builders@[k]).scheduled_event_id == ids[k],
            forall|j: int, k: int| 0 <= j < k < ids.len() ==> ids[j] < ids[k],
            forall|k: int| 0 <= k < ids.len() ==> {
                let id = #[trigger] ids[k];
                &&& last_scheduled(events@, id) is Some
                &&& head_matches(builders@[k], events@[last_scheduled(events@, id)->0])
                &&& progress_matches(builders@[k], progress_of(events@.take(i as int), id))
            },
            forall|j: int| 0 <= j < n && is_scheduled(#[trigger] events@[j]) ==> exists|k: int|
                0 <= k < ids.len() && ids[k] == events@[j].event_id,
        decreases n - i,
    {
        let e = &events[i];
        let ghost w = events@.take(i + 1);
        assert(w.drop_last() =~= events@.take(i as int));
        assert(w.last() == events@[i as int]);
        let sid = get_i64(&e.details, "scheduled_event_id");
        assert(sid == refers_to(events@[i as int]));
        let ghost prev = builders@;
        match sid {
            Some(sid) => {
                let mut k: usize = 0;
                while k < builders.len() && builders[k].scheduled_event_id != sid
                    invariant
                        k <= builders@.len(),
                        forall|m: int| 0 <= m < k ==> builders@[m].scheduled_event_id != sid,
                    decreases builders.len() - k,
                {
                    k = k + 1;
                }
                if k < builders.len() {
                    let mut b = builders.remove(k);
                    apply_activity_event(&mut b, e);
                    builders.insert(k, b);
                    proof {
                        assert forall|m: int| 0 <= m < ids.len() implies {
                            let id = #[trigger] ids[m];
                            &&& last_scheduled(events@, id) is Some
                            &&& head_matches(builders@[m], events@[last_scheduled(events@, id)->0])
                            &&& progress_matches(builders@[m], progress_of(w, id))
                        } by {
                            if m == k {
                                assert(progress_of(w, ids[m]) == activity_step(progress_of(events@.take(i as int), ids[m]), events@[i as int]));
                            } else {
                                assert(builders@[m] == prev[m]);
                                assert(ids[m] != sid);
                                assert(progress_of(w, ids[m]) == progress_of(events@.take(i as int), ids[m]));
                            }
                        }
                        assert forall|m: int| 0 <= m < ids.len() implies (#[trigger] builders@[m]).scheduled_event_id == ids[m] by {
                            if m != k {
                                assert(builders@[m] == prev[m]);
                            }
                        }
                    }
                } else {
                    proof {
                        assert forall|m: int| 0 <= m < ids.len() implies {
                            let id = #[trigger] ids[m];
                            &&& last_scheduled(events@, id) is Some
                            &&& head_matches(builders@[m], events@[last_scheduled(events@, id)->0])
                            &&& progress_matches(builders@[m], progress_of(w, id))
                        } by {
                            assert(builders@[m].scheduled_event_id == ids[m]);
                            assert(ids[m] != sid);
                            assert(progress_of(w, ids[m]) == progress_of(events@.take(i as int), ids[m]));
                        }
                    }
                }
            },
            None => {
                proof {
                    assert forall|m: int| 0 <= m < ids.len() implies {
                        let id = #[trigger] ids[m];
                        &&& last_scheduled(events@, id) is Some
                        &&& head_matches(builders@[m], events@[last_scheduled(events@, id)->0])
                        &&& progress_matches(builders@[m], progress_of(w, id))
                    } by {
                        assert(progress_of(w, ids[m]) == progress_of(events@.take(i as int), ids[m]));
                    }
                }
            },
        }
        i = i + 1;
    }
    let ghost finished = builders@;
    let mut r: Vec<ActivityExecution> = Vec::new();
    while builders.len() > 0
        invariant
            events_time_ok(events@),
            n == events@.len(),
            finished.len() == ids.len(),
            r@.len() + builders@.len() == ids.len(),
            forall|k: int| 0 <= k < builders@.len() ==> builders@[k] == finished[r@.len() + k],
            forall|k: int| 0 <= k < ids.len() ==> (#[trigger] finished[k]).scheduled_event_id == ids[k],
            forall|j: int, k: int| 0 <= j < k < ids.len() ==> ids[j] < ids[k],
            forall|k: int| 0 <= k < ids.len() ==> {
                let id = #[trigger] ids[k];
                &&& last_scheduled(events@, id) is Some
                &&& head_matches(finished[k], events@[last_scheduled(events@, id)->0])
                &&& progress_matches(finished[k], progress_of(events@, id))
            },
            forall|k: int| 0 <= k < r@.len() ==> r@[k].scheduled_event_id == ids[k],
            forall|k: int| 0 <= k < r@.len() ==> activity_from_history(#[trigger] r@[k], events@),
        decreases builders.len(),
    {
        let ghost k0 = r@.len() as int;
        let b = builders.remove(0);
        proof {
            let id = ids[k0];
            assert(b == finished[k0]);
            lemma_last_scheduled_in(events@, id);
            lemma_progress_times_ok(events@, id);
            assert(time_ok(events@[last_scheduled(events@, id)->0].timestamp));
        }
        let a = finish_activity(b);
        r.push(a);
        proof {
            assert(r@[k0] == a);
            assert(activity_from_history(r@[k0], events@));
            assert forall|k: int| 0 <= k < builders@.len() implies builders@[k] == finished[r@.len() + k] by {
            }
        }
    }
    proof {
        assert forall|i2: int| 0 <= i2 < events@.len() && is_scheduled(#[trigger] events@[i2]) implies exists|k: int|
            0 <= k < r@.len() && r@[k].scheduled_event_id == events@[i2].event_id by {
            let k = choose|k: int| 0 <= k < ids.len() && ids[k] == events@[i2].event_id;
            assert(r@[k].scheduled_event_id == ids[k]);
        }
        assert forall|j: int, k: int| 0 <= j < k < r@.len() implies r@[j].scheduled_event_id < r@[k].scheduled_event_id by {
            assert(r@[j].scheduled_event_id == ids[j]);
            assert(r@[k].scheduled_event_id == ids[k]);
        }
        assert forall|k: int| #![trigger r@[k]] 0 <= k < r@.len() implies exists|i: int|
            0 <= i < events@.len() && is_scheduled(#[trigger] events@[i]) && events@[i].event_id == r@[k].scheduled_event_id by {
            let id = r@[k].scheduled_event_id;
            lemma_last_scheduled_in(events@, id);
            let i = last_scheduled(events@, id)->0;
            assert(is_scheduled(events@[i]));
        }
    }
    r
}


/// The status a closing event gives its activity, if it closes one.
pub open spec fn close_status(e: HistoryEvent) -> Option<ActivityStatus> {
    if is_kind(e, "ActivityTaskStarted"@) {
        None
    } else if is_kind(e, "ActivityTaskCompleted"@) {
        Some(ActivityStatus::Completed)
    } else if is_kind(e, "ActivityTaskFailed"@) {
        Some(ActivityStatus::Failed)
    } else if is_kind(e, "ActivityTaskTimedOut"@) {
        Some(ActivityStatus::TimedOut)
    } else if is_kind(e, "ActivityTaskCanceled"@) {
        Some(ActivityStatus::Canceled)
    } else {
        None
    }
}

/// The last event among `events` that refers to activity `id` and
/// satisfies `pick`.
pub open spec fn last_referring(events: Seq<HistoryEvent>, id: i64, pick: spec_fn(HistoryEvent) -> bool) -> Option<HistoryEvent>
    decreases events.len(),
{
    if events.len() == 0 {
        None
    } else if refers_to(events.last()) == Some(id) && pick(events.last()) {
        Some(events.last())
    } else {
        last_referring(events.drop_last(), id, pick)
    }
}

/// The last start event of activity `id`.
pub open spec fn last_start(events: Seq<HistoryEvent>, id: i64) -> Option<HistoryEvent> {
    last_referring(events, id, |e: HistoryEvent| is_kind(e, "ActivityTaskStarted"@))
}

/// The last closing event of activity `id`.
pub open spec fn last_close(events: Seq<HistoryEvent>, id: i64) -> Option<HistoryEvent> {
    last_referring(events, id, |e: HistoryEvent| close_status(e) is Some)
}

/// The attempt number a start event gives (one when it names none).
pub open spec fn start_attempt(e: HistoryEvent) -> i32 {
    match json_i64(json_get(e.details, "attempt"@)) {
        Some(n) => n as i32,
        None => 1,
    }
}

/// The event `last_referring` finds satisfies `pick`.
proof fn lemma_last_referring_picks(events: Seq<HistoryEvent>, id: i64, pick: spec_fn(HistoryEvent) -> bool)
    ensures
        last_referring(events, id, pick) matches Some(x) ==> pick(x),
    decreases events.len(),
{
    if events.len() > 0 {
        lemma_last_referring_picks(events.drop_last(), id, pick);
    }
}

/// What the events referring to an activity make of it.
proof fn lemma_progress_rules(events: Seq<HistoryEvent>, id: i64)
    ensures
        ({
            let p = progress_of(events, id);
            let st = last_start(events, id);
            let cl = last_close(events, id);
            &&& p.status == match cl {
                Some(c) => close_status(c)->0,
                None => if st is Some { ActivityStatus::Running } else { ActivityStatus::Scheduled },
            }
            &&& p.attempt == match st { Some(s) => start_attempt(s), None => 0 }
            &&& p.started_time == match st { Some(s) => Some(s.timestamp), None => None }
            &&& p.closed_time == match cl { Some(c) => Some(c.timestamp), None => None }
        }),
    decreases events.len(),
{
    if events.len() > 0 {
        let d = events.drop_last();
        let e = events.last();
        lemma_progress_rules(d, id);
        let fs = |x: HistoryEvent| is_kind(x, "ActivityTaskStarted"@);
        let fc = |x: HistoryEvent| close_status(x) is Some;
        assert(last_start(events, id) == last_referring(events, id, fs));
        assert(last_close(events, id) == last_referring(events, id, fc));
        assert(last_start(d, id) == last_referring(d, id, fs));
        assert(last_close(d, id) == last_referring(d, id, fc));
        if refers_to(e) == Some(id) {
            assert(progress_of(events, id) == activity_step(progress_of(d, id), e));
            if is_kind(e, "ActivityTaskStarted"@) {
                assert(last_start(events, id) == Some(e));
                assert(last_close(events, id) == last_close(d, id));
                let q = progress_of(d, id);
                lemma_last_referring_picks(d, id, fc);
                if last_close(d, id) is None {
                    assert(q.status == ActivityStatus::Running || q.status == ActivityStatus::Scheduled);
                    assert(progress_of(events, id).status == ActivityStatus::Running);
                }
                assert(progress_of(events, id).status == match last_close(events, id) {
                    Some(c) => close_status(c)->0,
                    None => if last_start(events, id) is Some { ActivityStatus::Running } else { ActivityStatus::Scheduled },
                });
            } else if close_status(e) is Some {
                assert(last_close(events, id) == Some(e));
                assert(last_start(events, id) == last_start(d, id));
                assert(progress_of(events, id).status == close_status(e)->0);
            } else {
                assert(last_close(events, id) == last_close(d, id));
                assert(last_start(events, id) == last_start(d, id));
                assert(progress_of(events, id) == progress_of(d, id));
            }
        } else {
            assert(last_close(events, id) == last_close(d, id));
            assert(last_start(events, id) == last_start(d, id));
            assert(progress_of(events, id) == progress_of(d, id));
        }
    }
}

/// Each correlated activity follows its events: its status is that of the
/// last event closing it (completed, failed, timed out or canceled), else
/// running when a start event names it, else scheduled; its attempt number
/// and start time come from the last start event (zero and none without
/// one), its close time from the last closing event; its waiting,
/// execution and total times are the differences of those times.
pub proof fn law_activity_follows_events(a: ActivityExecution, events: Seq<HistoryEvent>)
    requires
        activity_from_history(a, events),
    ensures
        ({
            let id = a.scheduled_event_id;
            let st = last_start(events, id);
            let cl = last_close(events, id);
            &&& a.status == match cl {
                Some(c) => close_status(c)->0,
                None => if st is Some { ActivityStatus::Running } else { ActivityStatus::Scheduled },
            }
            &&& a.attempt == match st { Some(s) => start_attempt(s), None => 0 }
            &&& a.started_time == match st { Some(s) => Some(s.timestamp), None => None }
            &&& a.closed_time == match cl { Some(c) => Some(c.timestamp), None => None }
            &&& a.queue_wait == span(Some(a.scheduled_time), a.started_time)
            &&& a.execution_time == span(a.started_time, a.closed_time)
            &&& a.total_time == span(Some(a.scheduled_time), a.closed_time)
        }),
{
    lemma_progress_rules(events, a.scheduled_event_id);
}

/// Events that refer to no activity `id` do not change its progress,
/// wherever they stand.
proof fn lemma_progress_insert(events: Seq<HistoryEvent>, k: int, e: HistoryEvent, id: i64)
    requires
        0 <= k <= events.len(),
        refers_to(e) != Some(id),
    ensures
        progress_of(events.insert(k, e), id) == progress_of(events, id),
    decreases events.len(),
{
    let ins = events.insert(k, e);
    if k == events.len() {
        assert(ins.drop_last() =~= events);
    } else {
        assert(ins.drop_last() =~= events.drop_last().insert(k, e));
        assert(ins.last() == events.last());
        lemma_progress_insert(events.drop_last(), k, e, id);
    }
}

/// An event that schedules nothing does not change where the last
/// scheduling of `id` is, up to the shift it causes.
proof fn lemma_last_scheduled_insert(events: Seq<HistoryEvent>, k: int, e: HistoryEvent, id: i64)
    requires
        0 <= k <= events.len(),
        !is_scheduled(e),
    ensures
        (last_scheduled(events.insert(k, e), id) is Some) == (last_scheduled(events, id) is Some),
        last_scheduled(events, id) matches Some(j) ==> {
            &&& last_scheduled(events.insert(k, e), id) matches Some(j2)
            &&& 0 <= j < events.len()
            &&& 0 <= j2 < events.len() + 1
            &&& events.insert(k, e)[j2] == events[j]
        },
    decreases events.len(),
{
    let ins = events.insert(k, e);
    lemma_last_scheduled_in(events, id);
    if k == events.len() {
        assert(ins.drop_last() =~= events);
        lemma_last_scheduled_in(ins, id);
        if last_scheduled(events, id) is Some {
            let j = last_scheduled(events, id)->0;
            assert(ins[j] == events[j]);
        }
    } else {
        assert(ins.drop_last() =~= events.drop_last().insert(k, e));
        assert(ins.last() == events.last());
        lemma_last_scheduled_insert(events.drop_last(), k, e, id);
        if last_scheduled(events, id) is Some && !(is_scheduled(events.last()) && events.last().event_id == id) {
            let j = last_scheduled(events, id)->0;
            assert(events.drop_last()[j] == events[j]);
            let j2 = last_scheduled(ins.drop_last(), id)->0;
            assert(ins.drop_last()[j2] == ins[j2]);
        }
    }
}

/// A stray event, one that schedules nothing and refers to no scheduled
/// activity, changes nothing, wherever it stands: the scheduled ids stay
/// the same, and every activity the history describes stays described.
pub proof fn law_stray_event_changes_nothing(events: Seq<HistoryEvent>, k: int, e: HistoryEvent, a: ActivityExecution,
    id: i64)
    requires
        0 <= k <= events.len(),
        !is_scheduled(e),
        forall|i: int| 0 <= i < events.len() && is_scheduled(#[trigger] events[i]) ==> refers_to(e) != Some(events[i].event_id),
    ensures
        (exists|i: int| 0 <= i < events.len() + 1 && is_scheduled(#[trigger] events.insert(k, e)[i])
            && events.insert(k, e)[i].event_id == id)
            <==> (exists|i: int| 0 <= i < events.len() && is_scheduled(#[trigger] events[i]) && events[i].event_id == id),
        activity_from_history(a, events.insert(k, e)) <==> activity_from_history(a, events),
{
    let ins = events.insert(k, e);
    let aid = a.scheduled_event_id;
    lemma_last_scheduled_insert(events, k, e, aid);
    lemma_last_scheduled_insert(events, k, e, id);
    lemma_last_scheduled_in(events, aid);
    lemma_last_scheduled_in(ins, aid);
    lemma_last_scheduled_in(events, id);
    lemma_last_scheduled_in(ins, id);
    if exists|i: int| 0 <= i < events.len() + 1 && is_scheduled(#[trigger] ins[i]) && ins[i].event_id == id {
        let i = choose|i: int| 0 <= i < events.len() + 1 && is_scheduled(#[trigger] ins[i]) && ins[i].event_id == id;
        lemma_last_scheduled_found(ins, i);
    }
    if exists|i: int| 0 <= i < events.len() && is_scheduled(#[trigger] events[i]) && events[i].event_id == id {
        let i = choose|i: int| 0 <= i < events.len() && is_scheduled(#[trigger] events[i]) && events[i].event_id == id;
        lemma_last_scheduled_found(events, i);
    }
    if last_scheduled(events, aid) is Some {
        let j = last_scheduled(events, aid)->0;
        assert(refers_to(e) != Some(events[j].event_id));
        lemma_progress_insert(events, k, e, aid);
    }
}


/// The last completion event of activity `id`.
pub open spec fn last_completion(events: Seq<HistoryEvent>, id: i64) -> Option<HistoryEvent> {
    last_referring(events, id, |e: HistoryEvent| close_status(e) == Some(ActivityStatus::Completed))
}

/// The output the events give activity `id`: the `result` member of its
/// last completion event's details.
proof fn lemma_progress_output(events: Seq<HistoryEvent>, id: i64)
    ensures
        progress_of(events, id).output == match last_completion(events, id) {
            Some(c) => json_get(c.details, "result"@),
            None => None,
        },
    decreases events.len(),
{
    if events.len() > 0 {
        let d = events.drop_last();
        let e = events.last();
        lemma_progress_output(d, id);
        let fc = |x: HistoryEvent| close_status(x) == Some(ActivityStatus::Completed);
        assert(last_completion(events, id) == last_referring(events, id, fc));
        assert(last_completion(d, id) == last_referring(d, id, fc));
        if refers_to(e) == Some(id) && fc(e) {
            assert(last_completion(events, id) == Some(e));
        } else {
            assert(last_completion(events, id) == last_completion(d, id));
        }
    }
}

/// The output of a correlated activity is the `result` member of the
/// details of its last completion event (none when that event carries no
/// result, or when no completion event refers to it): never the rest of
/// the details, and never what a failure, time-out or cancellation says.
pub proof fn law_activity_output(a: ActivityExecution, events: Seq<HistoryEvent>)
    requires
        activity_from_history(a, events),
    ensures
        same_json_opt(a.output, match last_completion(events, a.scheduled_event_id) {
            Some(c) => json_get(c.details, "result"@),
            None => None,
        }),
{
    lemma_progress_output(events, a.scheduled_event_id);
}

} // verus!
