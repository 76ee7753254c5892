//! Workflow filters, the query strings built from them, and the reading of
//! user-typed dates.

use vstd::prelude::*;
use crate::clock::{now_ms, parse_rfc3339, parse_ymd, rfc3339_instant, rfc3339_of, rfc3339_text, ymd_instant};
use crate::model::{time_ok, TIME_LIMIT_MS};
use crate::status::{query_value_text, status_of_upper, WorkflowStatus};
use crate::text::{
    all_ascii, ascii_upper, chars_of, contains_seq, find, join, join_seq, occurs_at, parse_i64, parse_i64_spec, push_chars,
    push_str, string_of, to_upper, trim, trimmed_text, upper_of,
};

verus! {

/// A filter on workflow executions. Times are milliseconds since the epoch.
#[derive(Debug, Clone, PartialEq, Eq)]
pub struct WorkflowFilter {
    pub status: Option<WorkflowStatus>,
    pub workflow_type: Option<String>,
    pub workflow_id_prefix: Option<String>,
    pub start_time_after: Option<i64>,
    pub start_time_before: Option<i64>,
    pub close_time_after: Option<i64>,
    pub close_time_before: Option<i64>,
}

/// No field of the filter is set.
pub open spec fn filter_is_empty(f: WorkflowFilter) -> bool {
    f.status is None && f.workflow_type is None && f.workflow_id_prefix is None
        && f.start_time_after is None && f.start_time_before is None
        && f.close_time_after is None && f.close_time_before is None
}

/// One of the four time bounds of the filter is set.
pub open spec fn filter_has_date_range(f: WorkflowFilter) -> bool {
    f.start_time_after is Some || f.start_time_before is Some || f.close_time_after is Some
        || f.close_time_before is Some
}

/// The one-element list holding the condition for a set field, or no element.
pub open spec fn cond_text<T>(o: Option<T>, text: spec_fn(T) -> Seq<char>) -> Seq<Seq<char>> {
    match o {
        Some(x) => seq![text(x)],
        None => Seq::empty(),
    }
}

/// The query conditions of a filter, in the order the query lists them.
pub open spec fn query_conditions(f: WorkflowFilter) -> Seq<Seq<char>> {
    cond_text(f.status, |s: WorkflowStatus| "ExecutionStatus='"@ + query_value_text(s) + "'"@)
        + cond_text(f.workflow_type, |t: String| "WorkflowType='"@ + t@ + "'"@)
        + cond_text(f.workflow_id_prefix, |p: String| "WorkflowId STARTS_WITH '"@ + p@ + "'"@)
        + cond_text(f.start_time_after, |t: i64| "StartTime > '"@ + rfc3339_text(t) + "'"@)
        + cond_text(f.start_time_before, |t: i64| "StartTime < '"@ + rfc3339_text(t) + "'"@)
        + cond_text(f.close_time_after, |t: i64| "CloseTime > '"@ + rfc3339_text(t) + "'"@)
        + cond_text(f.close_time_before, |t: i64| "CloseTime < '"@ + rfc3339_text(t) + "'"@)
}

/// The query string of a filter: its conditions joined with ` AND `, or
/// nothing when no condition is set.
pub open spec fn query_of(f: WorkflowFilter) -> Option<Seq<char>> {
    if query_conditions(f).len() == 0 {
        None
    } else {
        Some(join_seq(query_conditions(f), " AND "@))
    }
}

/// The parts of a filter's description, in order.
pub open spec fn description_parts(f: WorkflowFilter, label: Option<Seq<char>>) -> Seq<Seq<char>> {
    cond_text(f.status, |s: WorkflowStatus| query_value_text(s))
        + cond_text(f.workflow_type, |t: String| "type:"@ + t@)
        + cond_text(f.workflow_id_prefix, |p: String| "id:"@ + p@ + "*"@)
        + cond_text(label, |l: Seq<char>| "since:"@ + l)
}

/// The description of a filter: its parts joined with `, `, or
/// `All workflows` when there are none.
pub open spec fn description_of(f: WorkflowFilter, label: Option<Seq<char>>) -> Seq<char> {
    if description_parts(f, label).len() == 0 {
        "All workflows"@
    } else {
        join_seq(description_parts(f, label), ", "@)
    }
}

/// Position of the first `c` in `s`.
pub open spec fn index_of_char(s: Seq<char>, c: char) -> Option<int>
    decreases s.len(),
{
    if s.len() == 0 {
        None
    } else if s[0] == c {
        Some(0)
    } else {
        match index_of_char(s.drop_first(), c) {
            Some(i) => Some(i + 1),
            None => None,
        }
    }
}

/// The characters of `s` from position `k` on (none when `k` is past the end).
pub open spec fn tail_from(s: Seq<char>, k: int) -> Seq<char> {
    if k <= s.len() { s.skip(k) } else { Seq::empty() }
}

/// The quoted value that starts at position `k` of `q`: the characters up
/// to the next `'`, if there is one.
pub open spec fn quoted_at(q: Seq<char>, k: int) -> Option<Seq<char>> {
    match index_of_char(tail_from(q, k), '\'') {
        Some(e) => Some(tail_from(q, k).take(e)),
        None => None,
    }
}

/// `i` is the first position at which `n` occurs in `h`.
pub open spec fn first_occurrence(h: Seq<char>, n: Seq<char>, i: int) -> bool {
    occurs_at(h, n, i) && forall|j: int| 0 <= j < i ==> !occurs_at(h, n, j)
}

/// What a query text says of a field: `None` when the upper-cased query
/// lacks the marker; otherwise the quoted value that follows the marker (the
/// marker's length plus one character on, skipping the opening quote).
pub open spec fn query_field(q: Seq<char>, u: Seq<char>, marker: Seq<char>, skip: int, p: int) -> Option<Seq<char>> {
    quoted_at(q, p + skip)
}

/// `r` is what a query string `q` reads as: the status named in
/// `ExecutionStatus='...'` and the type in `WorkflowType='...'`, at the first
/// occurrence of each marker (ignoring case), and nothing else.
pub open spec fn read_from_query(q: Seq<char>, r: WorkflowFilter) -> bool {
    &&& r.workflow_id_prefix is None && !filter_has_date_range(r)
    &&& !contains_seq(upper_of(q), "EXECUTIONSTATUS="@) ==> r.status is None
    &&& forall|p: int| first_occurrence(upper_of(q), "EXECUTIONSTATUS="@, p) ==>
        r.status == (match quoted_at(q, p + 17) {
            Some(v) => status_of_upper(upper_of(v)),
            None => None,
        })
    &&& !contains_seq(upper_of(q), "WORKFLOWTYPE="@) ==> r.workflow_type is None
    &&& forall|p: int| first_occurrence(upper_of(q), "WORKFLOWTYPE="@, p) ==>
        (match quoted_at(q, p + 14) {
            Some(v) => r.workflow_type matches Some(t) && t@ == v,
            None => r.workflow_type is None,
        })
}

impl WorkflowFilter {
    /// A filter with no condition.
    pub fn new() -> (r: WorkflowFilter)
        ensures
            filter_is_empty(r),
    {
        WorkflowFilter {
            status: None,
            workflow_type: None,
            workflow_id_prefix: None,
            start_time_after: None,
            start_time_before: None,
            close_time_after: None,
            close_time_before: None,
        }
    }

    /// This filter, restricted to one status.
    pub fn with_status(self, status: WorkflowStatus) -> (r: WorkflowFilter)
        ensures
            r == (WorkflowFilter { status: Some(status), ..self }),
    {
        WorkflowFilter { status: Some(status), ..self }
    }

    /// This filter, restricted to one workflow type.
    pub fn with_type(self, workflow_type: &str) -> (r: WorkflowFilter)
        ensures
            r.workflow_type matches Some(t) && t@ == workflow_type@,
            r.status == self.status,
            r.workflow_id_prefix == self.workflow_id_prefix,
            r.start_time_after == self.start_time_after,
            r.start_time_before == self.start_time_before,
            r.close_time_after == self.close_time_after,
            r.close_time_before == self.close_time_before,
    {
        WorkflowFilter { workflow_type: Some(workflow_type.to_owned()), ..self }
    }

    /// This filter, restricted to workflow ids with a prefix.
    pub fn with_workflow_id_prefix(self, prefix: &str) -> (r: WorkflowFilter)
        ensures
            r.workflow_id_prefix matches Some(p) && p@ == prefix@,
            r.status == self.status,
            r.workflow_type == self.workflow_type,
            r.start_time_after == self.start_time_after,
            r.start_time_before == self.start_time_before,
            r.close_time_after == self.close_time_after,
            r.close_time_before == self.close_time_before,
    {
        WorkflowFilter { workflow_id_prefix: Some(prefix.to_owned()), ..self }
    }

    /// This filter, restricted to workflows started after `time`.
    pub fn with_start_time_after(self, time: i64) -> (r: WorkflowFilter)
        ensures
            r == (WorkflowFilter { start_time_after: Some(time), ..self }),
    {
        WorkflowFilter { start_time_after: Some(time), ..self }
    }

    /// This filter, restricted to workflows started before `time`.
    pub fn with_start_time_before(self, time: i64) -> (r: WorkflowFilter)
        ensures
            r == (WorkflowFilter { start_time_before: Some(time), ..self }),
    {
        WorkflowFilter { start_time_before: Some(time), ..self }
    }

    /// The query string of the filter; `None` when no condition is set.
    #[verifier::rlimit(60)]
    pub fn to_query(&self) -> (r: Option<String>)
        ensures
            match r {
                Some(q) => query_of(*self) == Some(q@),
                None => query_of(*self) is None,
            },
    {
        let mut conds: Vec<Vec<char>> = Vec::new();
        let ghost mut expected: Seq<Seq<char>> = Seq::empty();
        if let Some(status) = &self.status {
            let mut c: Vec<char> = Vec::new();
            push_str(&mut c, "ExecutionStatus='");
            push_str(&mut c, status.as_query_value());
            push_str(&mut c, "'");
            conds.push(c);
        }
        proof { expected = cond_text(self.status, |s: WorkflowStatus| "ExecutionStatus='"@ + query_value_text(s) + "'"@); }
        assert(conds@.map_values(|p: Vec<char>| p@) =~= expected);
        if let Some(t) = &self.workflow_type {
            let mut c: Vec<char> = Vec::new();
            push_str(&mut c, "WorkflowType='");
            push_str(&mut c, t.as_str());
            push_str(&mut c, "'");
            conds.push(c);
        }
        proof { expected = expected + cond_text(self.workflow_type, |t: String| "WorkflowType='"@ + t@ + "'"@); }
        assert(conds@.map_values(|p: Vec<char>| p@) =~= expected);
        if let Some(p) = &self.workflow_id_prefix {
            let mut c: Vec<char> = Vec::new();
            push_str(&mut c, "WorkflowId STARTS_WITH '");
            push_str(&mut c, p.as_str());
            push_str(&mut c, "'");
            conds.push(c);
        }
        proof { expected = expected + cond_text(self.workflow_id_prefix, |p: String| "WorkflowId STARTS_WITH '"@ + p@ + "'"@); }
        assert(conds@.map_values(|p: Vec<char>| p@) =~= expected);
        if let Some(t) = self.start_time_after {
            conds.push(time_condition("StartTime > '", t));
        }
        proof { expected = expected + cond_text(self.start_time_after, |t: i64| "StartTime > '"@ + rfc3339_text(t) + "'"@); }
        assert(conds@.map_values(|p: Vec<char>| p@) =~= expected);
        if let Some(t) = self.start_time_before {
            conds.push(time_condition("StartTime < '", t));
        }
        proof { expected = expected + cond_text(self.start_time_before, |t: i64| "StartTime < '"@ + rfc3339_text(t) + "'"@); }
        assert(conds@.map_values(|p: Vec<char>| p@) =~= expected);
        if let Some(t) = self.close_time_after {
            conds.push(time_condition("CloseTime > '", t));
        }
        proof { expected = expected + cond_text(self.close_time_after, |t: i64| "CloseTime > '"@ + rfc3339_text(t) + "'"@); }
        assert(conds@.map_values(|p: Vec<char>| p@) =~= expected);
        if let Some(t) = self.close_time_before {
            conds.push(time_condition("CloseTime < '", t));
        }
        proof { expected = expected + cond_text(self.close_time_before, |t: i64| "CloseTime < '"@ + rfc3339_text(t) + "'"@); }
        assert(conds@.map_values(|p: Vec<char>| p@) =~= expected);
        assert(expected =~= query_conditions(*self));
        if conds.len() == 0 {
            None
        } else {
            let q = join(&conds, " AND ");
            Some(string_of(&q))
        }
    }

    /// Reads a filter from a query string, best effort: the status named in
    /// `ExecutionStatus='...'` and the type in `WorkflowType='...'` (markers
    /// matched ignoring case). Other conditions are not read.
    pub fn from_query(query: &str) -> (r: WorkflowFilter)
        ensures
            read_from_query(query@, r),
    {
        let mut filter = WorkflowFilter::new();
        let q = chars_of(query);
        let up = to_upper(query);
        let u = chars_of(up.as_str());
        let m1 = chars_of("EXECUTIONSTATUS=");
        match find(&u, &m1) {
            Some(start) => {
                let k: usize = if start <= q.len() && q.len() - start >= 17 { start + 17 } else { q.len() };
                let v = quoted_value(&q, k);
                proof {
                    if k == q.len() {
                        assert(tail_from(q@, k as int) =~= Seq::<char>::empty());
                        assert(tail_from(q@, start + 17) =~= Seq::<char>::empty());
                    }
                }
                assert(quoted_at(q@, k as int) == quoted_at(q@, start + 17));
                if let Some(v) = v {
                    let vs = string_of(&v);
                    if let Ok(st) = WorkflowStatus::parse(vs.as_str()) {
                        filter.status = Some(st);
                    }
                }
                proof {
                    assert forall|p: int| first_occurrence(u@, m1@, p) implies p == start by {
                        if p < start {
                        } else if p > start {
                        }
                    }
                }
            },
            None => {},
        }
        let m2 = chars_of("WORKFLOWTYPE=");
        match find(&u, &m2) {
            Some(start) => {
                let k: usize = if start <= q.len() && q.len() - start >= 14 { start + 14 } else { q.len() };
                let v = quoted_value(&q, k);
                proof {
                    if k == q.len() {
                        assert(tail_from(q@, k as int) =~= Seq::<char>::empty());
                        assert(tail_from(q@, start + 14) =~= Seq::<char>::empty());
                    }
                }
                assert(quoted_at(q@, k as int) == quoted_at(q@, start + 14));
                if let Some(v) = v {
                    filter.workflow_type = Some(string_of(&v));
                }
                proof {
                    assert forall|p: int| first_occurrence(u@, m2@, p) implies p == start by {
                        if p < start {
                        } else if p > start {
                        }
                    }
                }
            },
            None => {},
        }
        filter
    }

    /// Whether any of the four time bounds is set.
    pub fn has_date_range(&self) -> (r: bool)
        ensures
            r == filter_has_date_range(*self),
    {
        self.start_time_after.is_some() || self.start_time_before.is_some()
            || self.close_time_after.is_some() || self.close_time_before.is_some()
    }

    /// Whether the filter has no condition.
    pub fn is_empty(&self) -> (r: bool)
        ensures
            r == filter_is_empty(*self),
    {
        self.status.is_none() && self.workflow_type.is_none() && self.workflow_id_prefix.is_none()
            && self.start_time_after.is_none() && self.start_time_before.is_none()
            && self.close_time_after.is_none() && self.close_time_before.is_none()
    }

    /// A human-readable description of the filter.
    pub fn description(&self) -> (r: String)
        ensures
            r@ == description_of(*self, None),
    {
        self.description_with_date_label(None)
    }

    /// A human-readable description of the filter, with an optional date
    /// range label (such as `24h ago`) shown as `since:<label>`.
    pub fn description_with_date_label(&self, date_label: Option<&str>) -> (r: String)
        ensures
            r@ == description_of(*self, match date_label { Some(l) => Some(l@), None => None }),
    {
        let ghost label = match date_label { Some(l) => Some(l@), None => None::<Seq<char>> };
        let mut parts: Vec<Vec<char>> = Vec::new();
        if let Some(status) = &self.status {
            parts.push(chars_of(status.as_query_value()));
        }
        assert(parts@.map_values(|p: Vec<char>| p@) =~= cond_text(self.status, |s: WorkflowStatus| query_value_text(s)));
        if let Some(t) = &self.workflow_type {
            let mut c: Vec<char> = Vec::new();
            push_str(&mut c, "type:");
            push_str(&mut c, t.as_str());
            parts.push(c);
        }
        assert(parts@.map_values(|p: Vec<char>| p@) =~= cond_text(self.status, |s: WorkflowStatus| query_value_text(s))
            + cond_text(self.workflow_type, |t: String| "type:"@ + t@));
        if let Some(p) = &self.workflow_id_prefix {
            let mut c: Vec<char> = Vec::new();
            push_str(&mut c, "id:");
            push_str(&mut c, p.as_str());
            push_str(&mut c, "*");
            parts.push(c);
        }
        assert(parts@.map_values(|p: Vec<char>| p@) =~= cond_text(self.status, |s: WorkflowStatus| query_value_text(s))
            + cond_text(self.workflow_type, |t: String| "type:"@ + t@)
            + cond_text(self.workflow_id_prefix, |p: String| "id:"@ + p@ + "*"@));
        if let Some(l) = date_label {
            let mut c: Vec<char> = Vec::new();
            push_str(&mut c, "since:");
            push_str(&mut c, l);
            parts.push(c);
        }
        assert(parts@.map_values(|p: Vec<char>| p@) =~= description_parts(*self, label));
        if parts.len() == 0 {
            "All workflows".to_owned()
        } else {
            let d = join(&parts, ", ");
            string_of(&d)
        }
    }
}

/// The text `prefix`, the RFC 3339 text of `t`, then a closing quote.
fn time_condition(prefix: &str, t: i64) -> (r: Vec<char>)
    ensures
        r@ == prefix@ + rfc3339_text(t) + "'"@,
{
    let mut c: Vec<char> = Vec::new();
    push_str(&mut c, prefix);
    let text = rfc3339_of(t);
    push_str(&mut c, text.as_str());
    push_str(&mut c, "'");
    c
}

/// The quoted value starting at position `k` of `q`.
fn quoted_value(q: &Vec<char>, k: usize) -> (r: Option<Vec<char>>)
    ensures
        match r {
            Some(v) => quoted_at(q@, k as int) == Some(v@),
            None => quoted_at(q@, k as int) is None,
        },
{
    let ghost tail = tail_from(q@, k as int);
    let start: usize = if k <= q.len() { k } else { q.len() };
    assert(tail =~= q@.skip(start as int));
    let mut i: usize = start;
    while i < q.len()
        invariant
            start <= i <= q@.len(),
            tail == q@.skip(start as int),
            tail == tail_from(q@, k as int),
            index_of_char(tail, '\'') == match index_of_char(q@.skip(i as int), '\'') {
                Some(e) => Some(e + (i - start)),
                None => None::<int>,
            },
        decreases q.len() - i,
    {
        if q[i] == '\'' {
            let mut v: Vec<char> = Vec::new();
            let mut j: usize = start;
            while j < i
                invariant
                    start <= j <= i,
                    i < q@.len(),
                    v@ == q@.subrange(start as int, j as int),
                decreases i - j,
            {
                v.push(q[j]);
                assert(v@ =~= q@.subrange(start as int, j + 1));
                j = j + 1;
            }
            assert(q@.skip(i as int)[0] == '\'');
            assert(index_of_char(q@.skip(i as int), '\'') == Some(0int));
            assert(tail.take(i - start) =~= v@);
            return Some(v);
        }
        assert(q@.skip(i as int).drop_first() =~= q@.skip(i + 1));
        i = i + 1;
    }
    assert(q@.skip(i as int).len() == 0);
    None
}

/// The instant that a user-typed date text means, when `now` is the
/// current time: `None` for an empty text; for a number followed by `m`,
/// `h`, `d` or `w`, that many minutes, hours, days or weeks before `now`;
/// otherwise an RFC 3339 instant; otherwise midnight UTC of a `YYYY-MM-DD`
/// date; otherwise `None`. The text is first trimmed of white space.
pub open spec fn date_input_at(input: Seq<char>, now: i64) -> Option<i64> {
    let t = trimmed_text(input);
    if t.len() == 0 {
        None
    } else if relative_offset(t) is Some {
        let v = now - relative_offset(t)->0;
        if time_ok_int(v) { Some(v as i64) } else { None }
    } else if rfc3339_instant(t) is Some {
        rfc3339_instant(t)
    } else {
        ymd_instant(t)
    }
}

/// `v` is a time within the supported range.
pub open spec fn time_ok_int(v: int) -> bool {
    -TIME_LIMIT_MS <= v <= TIME_LIMIT_MS
}

/// Milliseconds in one unit `m`, `h`, `d` or `w`.
pub open spec fn unit_ms(c: char) -> Option<int> {
    if c == 'm' {
        Some(60_000)
    } else if c == 'h' {
        Some(3_600_000)
    } else if c == 'd' {
        Some(86_400_000)
    } else if c == 'w' {
        Some(604_800_000)
    } else {
        None
    }
}

/// The length in milliseconds of a relative text such as `30m` or `2h`.
pub open spec fn relative_offset(t: Seq<char>) -> Option<int> {
    if t.len() >= 2 && parse_i64_spec(t.drop_last()) is Some && unit_ms(t.last()) is Some {
        Some(parse_i64_spec(t.drop_last())->0 * unit_ms(t.last())->0)
    } else {
        None
    }
}

/// Reads a user-typed date, taking `now` (milliseconds since the epoch) as
/// the current time. Relative values that land outside the supported time
/// range give `None`.
pub fn parse_date_input_at(input: &str, now: i64) -> (r: Option<i64>)
    requires
        time_ok(now),
    ensures
        r == date_input_at(input@, now),
        r matches Some(t) ==> time_ok(t),
{
    let trimmed = trim(input);
    let t = chars_of(trimmed.as_str());
    if t.len() == 0 {
        return None;
    }
    if t.len() >= 2 {
        let mut num: Vec<char> = Vec::new();
        let mut i: usize = 0;
        while i < t.len() - 1
            invariant
                t.len() >= 2,
                i <= t.len() - 1,
                num@ == t@.take(i as int),
            decreases t.len() - 1 - i,
        {
            num.push(t[i]);
            assert(num@ =~= t@.take(i + 1));
            i = i + 1;
        }
        assert(num@ =~= t@.drop_last());
        let unit = t[t.len() - 1];
        let u: i128 = if unit == 'm' {
            60_000
        } else if unit == 'h' {
            3_600_000
        } else if unit == 'd' {
            86_400_000
        } else if unit == 'w' {
            604_800_000
        } else {
            0
        };
        if u != 0 {
            if let Some(n) = parse_i64(&num) {
                let v: i128 = now as i128 - (n as i128) * u;
                if -9_000_000_000_000_000 <= v && v <= 9_000_000_000_000_000 {
                    return Some(v as i64);
                } else {
                    return None;
                }
            }
        }
    }
    if let Some(x) = parse_rfc3339(trimmed.as_str()) {
        return Some(x);
    }
    parse_ymd(trimmed.as_str())
}

/// Reads a user-typed date, relative values counting back from the current
/// time: what `parse_date_input_at` gives for the instant the clock reads.
pub fn parse_date_input(input: &str) -> (r: Option<i64>)
    ensures
        exists|now: i64| time_ok(now) && r == date_input_at(input@, now),
{
    let now = now_ms();
    parse_date_input_at(input, now)
}


/// The first `'` of a text is found where it stands.
proof fn lemma_index_of_quote(s: Seq<char>, n: int)
    requires
        0 <= n < s.len(),
        s[n] == '\'',
        forall|j: int| 0 <= j < n ==> s[j] != '\'',
    ensures
        index_of_char(s, '\'') == Some(n),
    decreases n,
{
    if n > 0 {
        assert forall|j: int| 0 <= j < n - 1 implies s.drop_first()[j] != '\'' by {
            assert(s.drop_first()[j] == s[j + 1]);
        }
        lemma_index_of_quote(s.drop_first(), n - 1);
    }
}

/// The quoted value at `k` is the text up to the next `'`.
proof fn lemma_quoted(q: Seq<char>, k: int, v: Seq<char>)
    requires
        0 <= k,
        k + v.len() < q.len(),
        q.subrange(k, k + v.len()) == v,
        q[k + v.len()] == '\'',
        !v.contains('\''),
    ensures
        quoted_at(q, k) == Some(v),
{
    let t = tail_from(q, k);
    assert forall|j: int| 0 <= j < v.len() implies t[j] != '\'' by {
        assert(t[j] == q[k + j]);
        assert(q.subrange(k, k + v.len())[j] == q[k + j]);
        if t[j] == '\'' {
            assert(v[j] == '\'');
            assert(v.contains('\''));
        }
    }
    lemma_index_of_quote(t, v.len() as int);
    assert(t.take(v.len() as int) =~= v);
}

/// Upper-casing an ASCII text keeps `=` exactly where it was.
proof fn lemma_upper_eq_sign(q: Seq<char>, k: int)
    requires
        all_ascii(q),
        0 <= k < q.len(),
    ensures
        upper_of(q)[k] == '=' <==> q[k] == '=',
        upper_of(q).len() == q.len(),
{
}

/// A query built from a filter's status and type reads back as that status
/// and type, when the type is ASCII text without `=` or `'`.
#[verifier::spinoff_prover]
#[verifier::rlimit(80)]
pub proof fn law_query_round_trip(f: WorkflowFilter, r: WorkflowFilter)
    requires
        f.workflow_id_prefix is None,
        !filter_has_date_range(f),
        query_of(f) is Some,
        f.workflow_type matches Some(t) ==> all_ascii(t@) && !t@.contains('=') && !t@.contains('\''),
        read_from_query(query_of(f)->0, r),
    ensures
        r.status == f.status,
        r.workflow_type is Some <==> f.workflow_type is Some,
        r.workflow_type matches Some(t) ==> t@ == f.workflow_type->0@,
{
    reveal_strlit("ExecutionStatus='");
    reveal_strlit("WorkflowType='");
    reveal_strlit("'");
    reveal_strlit(" AND ");
    reveal_strlit("EXECUTIONSTATUS=");
    reveal_strlit("WORKFLOWTYPE=");
    reveal_strlit("Running");
    reveal_strlit("Completed");
    reveal_strlit("Failed");
    reveal_strlit("Canceled");
    reveal_strlit("Terminated");
    reveal_strlit("TimedOut");
    reveal_strlit("ContinuedAsNew");
    let a: Seq<char> = "ExecutionStatus='"@;
    let b: Seq<char> = "WorkflowType='"@;
    let e: Seq<char> = "'"@;
    let sep: Seq<char> = " AND "@;
    let ms: Seq<char> = "EXECUTIONSTATUS="@;
    let mt: Seq<char> = "WORKFLOWTYPE="@;
    let q = query_of(f)->0;
    let conds = query_conditions(f);
    let sc = cond_text(f.status, |s: WorkflowStatus| "ExecutionStatus='"@ + query_value_text(s) + "'"@);
    let tc = cond_text(f.workflow_type, |t: String| "WorkflowType='"@ + t@ + "'"@);
    assert(conds =~= sc + tc);
    let v: Seq<char> = match f.status { Some(s) => query_value_text(s), None => Seq::empty() };
    let t: Seq<char> = match f.workflow_type { Some(x) => x@, None => Seq::empty() };
    assert(all_ascii(v) && !v.contains('=') && !v.contains('\'')) by {
        match f.status {
            Some(s) => {
                assert forall|j: int| 0 <= j < v.len() implies (v[j] as u32) < 128 && v[j] != '=' && v[j] != '\'' by {
                    match s {
                        WorkflowStatus::Running => {},
                        WorkflowStatus::Completed => {},
                        WorkflowStatus::Failed => {},
                        WorkflowStatus::Canceled => {},
                        WorkflowStatus::Terminated => {},
                        WorkflowStatus::TimedOut => {},
                        WorkflowStatus::ContinuedAsNew => {},
                    }
                }
            },
            None => {},
        }
    }
    let sq = a + v + e;
    let tq = b + t + e;
    let pre = sq + sep;
    let big = if f.status is Some && f.workflow_type is Some {
        pre + tq
    } else if f.status is Some {
        sq
    } else {
        tq
    };
    assert(q == big) by {
        if f.status is Some {
            assert(sc =~= seq![sq]);
        } else {
            assert(sc =~= Seq::<Seq<char>>::empty());
        }
        if f.workflow_type is Some {
            assert(tc =~= seq![tq]);
        } else {
            assert(tc =~= Seq::<Seq<char>>::empty());
        }
        if f.status is Some && f.workflow_type is Some {
            assert(conds =~= seq![sq, tq]);
            assert(conds.drop_last() =~= seq![sq]);
            assert(join_seq(conds.drop_last(), " AND "@) == sq);
            assert(q == join_seq(conds.drop_last(), " AND "@) + " AND "@ + tq);
            assert(q =~= pre + tq);
        } else if f.status is Some {
            assert(conds =~= seq![sq]);
        } else {
            assert(conds =~= seq![tq]);
        }
    }
    assert(all_ascii(q)) by {
        assert forall|k: int| 0 <= k < q.len() implies (q[k] as u32) < 128 by {
            if f.status is Some && f.workflow_type is Some {
                if k >= pre.len() + b.len() && k < pre.len() + b.len() + t.len() {
                    assert(q[k] == t[k - pre.len() - b.len()]);
                }
            } else if f.workflow_type is Some {
                if k >= b.len() && k < b.len() + t.len() {
                    assert(q[k] == t[k - b.len()]);
                }
            }
        }
    }
    let u = upper_of(q);
    assert(u == q.map_values(|c: char| ascii_upper(c)));
    // The status marker.
    if f.status is Some {
        assert(u.subrange(0, 16) =~= ms);
        assert(first_occurrence(u, ms, 0));
        assert(q.subrange(17, 17 + v.len() as int) =~= v);
        lemma_quoted(q, 17, v);
        crate::status::law_status_round_trip(f.status->0);
        assert(r.status == f.status);
    } else {
        assert forall|j: int| !occurs_at(u, ms, j) by {
            if occurs_at(u, ms, j) {
                assert(u.subrange(j, j + 16)[15] == ms[15]);
                lemma_upper_eq_sign(q, j + 15);
                if j + 15 < 14 + t.len() {
                    assert(q[j + 15] == t[j + 15 - 14]);
                    assert(t.contains('='));
                }
            }
        }
        assert(!contains_seq(u, ms));
    }
    // The type marker.
    let p: int = if f.status is Some { pre.len() as int } else { 0 };
    if f.workflow_type is Some {
        assert(u.subrange(p, p + 13) =~= mt);
        assert forall|j: int| 0 <= j < p implies !occurs_at(u, mt, j) by {
            if occurs_at(u, mt, j) {
                assert(u.subrange(j, j + 13)[12] == mt[12]);
                assert(u.subrange(j, j + 13)[0] == mt[0]);
                lemma_upper_eq_sign(q, j + 12);
                if j + 12 < 17 {
                    assert(j == 3);
                    assert(u[3] == ascii_upper(a[3]));
                } else if j + 12 < 17 + v.len() {
                    assert(q[j + 12] == v[j + 12 - 17]);
                    assert(v.contains('='));
                } else if j + 12 < sq.len() + sep.len() {
                } else {
                    assert(q[j + 12] == b[j + 12 - pre.len()]);
                }
            }
        }
        assert(first_occurrence(u, mt, p));
        assert(q.subrange(p + 14, p + 14 + t.len() as int) =~= t);
        lemma_quoted(q, p + 14, t);
    } else {
        assert forall|j: int| !occurs_at(u, mt, j) by {
            if occurs_at(u, mt, j) {
                assert(u.subrange(j, j + 13)[12] == mt[12]);
                assert(u.subrange(j, j + 13)[0] == mt[0]);
                lemma_upper_eq_sign(q, j + 12);
                if j + 12 < 17 {
                    assert(j == 3);
                    assert(u[3] == ascii_upper(a[3]));
                } else if j + 12 < 17 + v.len() {
                    assert(q[j + 12] == v[j + 12 - 17]);
                    assert(v.contains('='));
                }
            }
        }
        assert(!contains_seq(u, mt));
    }
}


/// A part joined into a text occurs in it.
proof fn lemma_join_has_part(parts: Seq<Seq<char>>, sep: Seq<char>, k: int)
    requires
        0 <= k < parts.len(),
    ensures
        contains_seq(join_seq(parts, sep), parts[k]),
    decreases parts.len(),
{
    let j = join_seq(parts, sep);
    if parts.len() == 1 {
        assert(j == parts[0]);
        assert(j.subrange(0, parts[0].len() as int) =~= parts[0]);
        assert(occurs_at(j, parts[k], 0));
    } else {
        let d = parts.drop_last();
        let jd = join_seq(d, sep);
        assert(j == jd + sep + parts.last());
        if k == parts.len() - 1 {
            let at: int = (jd.len() + sep.len()) as int;
            assert(j.subrange(at, at + parts[k].len()) =~= parts[k]);
            assert(occurs_at(j, parts[k], at));
        } else {
            assert(d[k] == parts[k]);
            lemma_join_has_part(d, sep, k);
            let i = choose|i: int| occurs_at(jd, parts[k], i);
            assert(j.subrange(i, i + parts[k].len()) =~= jd.subrange(i, i + parts[k].len()));
            assert(occurs_at(j, parts[k], i));
        }
    }
}

/// A condition listed for a filter occurs in its query.
proof fn lemma_condition_in_query(f: WorkflowFilter, c: Seq<char>)
    requires
        query_conditions(f).contains(c),
    ensures
        query_of(f) matches Some(q) && contains_seq(q, c),
{
    let k = choose|k: int| 0 <= k < query_conditions(f).len() && query_conditions(f)[k] == c;
    lemma_join_has_part(query_conditions(f), " AND "@, k);
}

/// Every condition of a filter reaches its query: its status, type and
/// id prefix as written, and its time bounds with the right comparison:
/// a workflow must have started (or closed) later than an after-bound,
/// `StartTime > '…'`, and earlier than a before-bound, `StartTime < '…'`,
/// each bound written as RFC 3339 text. A filter with only a start
/// after-bound queries exactly the workflows started later than it.
pub proof fn law_time_bounds_in_query(f: WorkflowFilter)
    ensures
        f.status matches Some(st) ==> (query_of(f) matches Some(q)
            && contains_seq(q, "ExecutionStatus='"@ + query_value_text(st) + "'"@)),
        f.workflow_type matches Some(t) ==> (query_of(f) matches Some(q)
            && contains_seq(q, "WorkflowType='"@ + t@ + "'"@)),
        f.workflow_id_prefix matches Some(p) ==> (query_of(f) matches Some(q)
            && contains_seq(q, "WorkflowId STARTS_WITH '"@ + p@ + "'"@)),
        f.start_time_after matches Some(t) ==> (query_of(f) matches Some(q)
            && contains_seq(q, "StartTime > '"@ + rfc3339_text(t) + "'"@)),
        f.start_time_before matches Some(t) ==> (query_of(f) matches Some(q)
            && contains_seq(q, "StartTime < '"@ + rfc3339_text(t) + "'"@)),
        f.close_time_after matches Some(t) ==> (query_of(f) matches Some(q)
            && contains_seq(q, "CloseTime > '"@ + rfc3339_text(t) + "'"@)),
        f.close_time_before matches Some(t) ==> (query_of(f) matches Some(q)
            && contains_seq(q, "CloseTime < '"@ + rfc3339_text(t) + "'"@)),
        (f.start_time_after matches Some(t) && f.status is None && f.workflow_type is None
            && f.workflow_id_prefix is None && f.start_time_before is None && f.close_time_after is None
            && f.close_time_before is None) ==> query_of(f) == Some("StartTime > '"@ + rfc3339_text(f.start_time_after->0) + "'"@),
{
    let conds = query_conditions(f);
    let a = cond_text(f.status, |s: WorkflowStatus| "ExecutionStatus='"@ + query_value_text(s) + "'"@)
        + cond_text(f.workflow_type, |t: String| "WorkflowType='"@ + t@ + "'"@)
        + cond_text(f.workflow_id_prefix, |p: String| "WorkflowId STARTS_WITH '"@ + p@ + "'"@);
    let sa = cond_text(f.start_time_after, |t: i64| "StartTime > '"@ + rfc3339_text(t) + "'"@);
    let sb = cond_text(f.start_time_before, |t: i64| "StartTime < '"@ + rfc3339_text(t) + "'"@);
    let ca = cond_text(f.close_time_after, |t: i64| "CloseTime > '"@ + rfc3339_text(t) + "'"@);
    let cb = cond_text(f.close_time_before, |t: i64| "CloseTime < '"@ + rfc3339_text(t) + "'"@);
    assert(conds == a + sa + sb + ca + cb);
    let a1 = cond_text(f.status, |s: WorkflowStatus| "ExecutionStatus='"@ + query_value_text(s) + "'"@);
    let a2 = cond_text(f.workflow_type, |t: String| "WorkflowType='"@ + t@ + "'"@);
    if let Some(st) = f.status {
        let c = "ExecutionStatus='"@ + query_value_text(st) + "'"@;
        assert(conds[0] == c);
        lemma_condition_in_query(f, c);
    }
    if let Some(t) = f.workflow_type {
        let c = "WorkflowType='"@ + t@ + "'"@;
        assert(conds[a1.len() as int] == c);
        lemma_condition_in_query(f, c);
    }
    if let Some(p) = f.workflow_id_prefix {
        let c = "WorkflowId STARTS_WITH '"@ + p@ + "'"@;
        assert(conds[(a1.len() + a2.len()) as int] == c);
        lemma_condition_in_query(f, c);
    }
    if let Some(t) = f.start_time_after {
        let c = "StartTime > '"@ + rfc3339_text(t) + "'"@;
        assert(conds[a.len() as int] == c);
        lemma_condition_in_query(f, c);
    }
    if let Some(t) = f.start_time_before {
        let c = "StartTime < '"@ + rfc3339_text(t) + "'"@;
        assert(conds[(a.len() + sa.len()) as int] == c);
        lemma_condition_in_query(f, c);
    }
    if let Some(t) = f.close_time_after {
        let c = "CloseTime > '"@ + rfc3339_text(t) + "'"@;
        assert(conds[(a.len() + sa.len() + sb.len()) as int] == c);
        lemma_condition_in_query(f, c);
    }
    if let Some(t) = f.close_time_before {
        let c = "CloseTime < '"@ + rfc3339_text(t) + "'"@;
        assert(conds[(a.len() + sa.len() + sb.len() + ca.len()) as int] == c);
        lemma_condition_in_query(f, c);
    }
    if f.start_time_after is Some && f.status is None && f.workflow_type is None
        && f.workflow_id_prefix is None && f.start_time_before is None && f.close_time_after is None
        && f.close_time_before is None {
        assert(conds =~= seq!["StartTime > '"@ + rfc3339_text(f.start_time_after->0) + "'"@]);
    }
}

} // verus!
