//! The `temporal` command-line client: the arguments it is run with for each
//! operation, and how its output reads as a count. Running the command is
//! the caller's part.

use vstd::prelude::*;
use crate::config::EnvVars;
use crate::filter::{query_of, WorkflowFilter};
use crate::grouping::texts;
use crate::clock::{now_ms, parse_rfc3339, rfc3339_instant};
use crate::activity::events_time_ok;
use crate::findings::starts_ok;
use crate::json::{
    clone_json, json_get, json_i64, json_read, json_str, json_u64, lemma_get_decreases, parse_json, same_json,
    same_json_opt, JsonValue,
};
use crate::model::{time_ok, FailureInfo, HistoryEvent, WorkflowDetail, WorkflowSummary};
use crate::status::{status_of_upper, WorkflowStatus};
use crate::text::{
    chars_of, contains, contains_seq, dec, lines_of, lower_of, parse_u64, parse_u64_spec, push_chars, push_dec,
    push_str, split_lines, split_words, string_of, to_lower, trim, trimmed_text, upper_of, views, words,
};

verus! {

/// Why a call to the Temporal service failed.
#[derive(Debug, Clone, PartialEq, Eq)]
pub enum ClientError {
    CommandFailed(String),
    ParseError(String),
    ConnectionError(String),
    Timeout,
    ConfigError(String),
    NotFound(String),
}

/// A client that runs the `temporal` command-line tool against a server.
#[derive(Debug, Clone)]
pub struct CliTemporalClient {
    pub address: String,
    pub namespace: String,
    pub api_key: Option<String>,
}

/// The connection arguments every command starts with.
pub open spec fn base_args_of(c: CliTemporalClient) -> Seq<Seq<char>> {
    seq!["--address"@, c.address@, "--namespace"@, c.namespace@] + match c.api_key {
        Some(k) => seq!["--api-key"@, k@],
        None => Seq::empty(),
    }
}

/// `--run-id <id>` when a run is named, else nothing.
pub open spec fn run_args(run_id: Option<Seq<char>>) -> Seq<Seq<char>> {
    match run_id {
        Some(r) => seq!["--run-id"@, r],
        None => Seq::empty(),
    }
}

/// The view of an optional text.
pub open spec fn opt_view(o: Option<&str>) -> Option<Seq<char>> {
    match o {
        Some(s) => Some(s@),
        None => None,
    }
}

/// Appends a text to a list of arguments.
fn push_arg(args: &mut Vec<String>, s: &str)
    ensures
        texts(final(args)@) == texts(old(args)@).push(s@),
{
    args.push(s.to_owned());
    assert(texts(args@) =~= texts(old(args)@).push(s@));
}

/// Appends `--run-id <id>` when a run is named.
fn push_run(args: &mut Vec<String>, run_id: Option<&str>)
    ensures
        texts(final(args)@) == texts(old(args)@) + run_args(opt_view(run_id)),
{
    match run_id {
        Some(r) => {
            push_arg(args, "--run-id");
            push_arg(args, r);
            assert(texts(args@) =~= texts(old(args)@) + run_args(opt_view(run_id)));
        },
        None => {
            assert(texts(args@) =~= texts(old(args)@) + run_args(opt_view(run_id)));
        },
    }
}

impl CliTemporalClient {
    /// A client for the given server, namespace and key.
    pub fn new(address: String, namespace: String, api_key: Option<String>) -> (r: CliTemporalClient)
        ensures
            r == (CliTemporalClient { address, namespace, api_key }),
    {
        CliTemporalClient { address, namespace, api_key }
    }

    /// A client configured from the environment: `TEMPORAL_ADDRESS` and
    /// `TEMPORAL_NAMESPACE` must be set, `TEMPORAL_API_KEY` may be.
    pub fn from_env(env: &EnvVars) -> (r: Result<CliTemporalClient, ClientError>)
        ensures
            match (env.temporal_address, env.temporal_namespace) {
                (Some(a), Some(n)) => r == Ok::<CliTemporalClient, ClientError>(
                    CliTemporalClient { address: a, namespace: n, api_key: env.temporal_api_key },
                ),
                (None, _) => r matches Err(ClientError::ConfigError(m)) && m@ == "TEMPORAL_ADDRESS not set"@,
                (Some(_), None) => r matches Err(ClientError::ConfigError(m)) && m@ == "TEMPORAL_NAMESPACE not set"@,
            },
    {
        let address = match &env.temporal_address {
            Some(a) => a.clone(),
            None => return Err(ClientError::ConfigError("TEMPORAL_ADDRESS not set".to_owned())),
        };
        let namespace = match &env.temporal_namespace {
            Some(n) => n.clone(),
            None => return Err(ClientError::ConfigError("TEMPORAL_NAMESPACE not set".to_owned())),
        };
        let api_key = match &env.temporal_api_key {
            Some(k) => Some(k.clone()),
            None => None,
        };
        Ok(CliTemporalClient::new(address, namespace, api_key))
    }

    /// The connection arguments: server, namespace and, when set, the key.
    pub fn base_args(&self) -> (r: Vec<String>)
        ensures
            texts(r@) == base_args_of(*self),
    {
        let mut args: Vec<String> = Vec::new();
        push_arg(&mut args, "--address");
        push_arg(&mut args, self.address.as_str());
        push_arg(&mut args, "--namespace");
        push_arg(&mut args, self.namespace.as_str());
        match &self.api_key {
            Some(k) => {
                push_arg(&mut args, "--api-key");
                push_arg(&mut args, k.as_str());
            },
            None => {},
        }
        assert(texts(args@) =~= base_args_of(*self));
        args
    }

    /// The arguments that count the workflows matching a query (all when
    /// there is none).
    pub fn count_args(&self, query: Option<&str>) -> (r: Vec<String>)
        ensures
            texts(r@) == base_args_of(*self) + seq!["workflow"@, "count"@] + match query {
                Some(q) => seq!["--query"@, q@],
                None => Seq::<Seq<char>>::empty(),
            },
    {
        let mut args = self.base_args();
        push_arg(&mut args, "workflow");
        push_arg(&mut args, "count");
        match query {
            Some(q) => {
                push_arg(&mut args, "--query");
                push_arg(&mut args, q);
            },
            None => {},
        }
        let ghost expected = base_args_of(*self) + seq!["workflow"@, "count"@] + match query {
            Some(q) => seq!["--query"@, q@],
            None => Seq::<Seq<char>>::empty(),
        };
        assert(texts(args@) =~= expected);
        args
    }

    /// The arguments that list, as JSON, at most `limit` workflows matching
    /// the filter's query.
    pub fn list_args(&self, filter: &WorkflowFilter, limit: u32) -> (r: Vec<String>)
        ensures
            texts(r@) == base_args_of(*self) + seq!["workflow"@, "list"@, "--output"@, "json"@, "--limit"@, dec(limit as nat)]
                + match query_of(*filter) {
                    Some(q) => seq!["--query"@, q],
                    None => Seq::<Seq<char>>::empty(),
                },
    {
        let mut args = self.base_args();
        push_arg(&mut args, "workflow");
        push_arg(&mut args, "list");
        push_arg(&mut args, "--output");
        push_arg(&mut args, "json");
        push_arg(&mut args, "--limit");
        let mut l: Vec<char> = Vec::new();
        push_dec(&mut l, limit as u64);
        let ls = string_of(&l);
        push_arg(&mut args, ls.as_str());
        match filter.to_query() {
            Some(q) => {
                push_arg(&mut args, "--query");
                push_arg(&mut args, q.as_str());
            },
            None => {},
        }
        let ghost expected = base_args_of(*self) + seq!["workflow"@, "list"@, "--output"@, "json"@, "--limit"@, dec(limit as nat)]
            + match query_of(*filter) {
                Some(q) => seq!["--query"@, q],
                None => Seq::<Seq<char>>::empty(),
            };
        assert(texts(args@) =~= expected);
        args
    }

    /// The arguments that describe a workflow, as JSON.
    pub fn describe_args(&self, workflow_id: &str, run_id: Option<&str>) -> (r: Vec<String>)
        ensures
            texts(r@) == base_args_of(*self) + seq!["workflow"@, "describe"@, "--workflow-id"@, workflow_id@, "--output"@, "json"@]
                + run_args(opt_view(run_id)),
    {
        let mut args = self.base_args();
        push_arg(&mut args, "workflow");
        push_arg(&mut args, "describe");
        push_arg(&mut args, "--workflow-id");
        push_arg(&mut args, workflow_id);
        push_arg(&mut args, "--output");
        push_arg(&mut args, "json");
        push_run(&mut args, run_id);
        assert(texts(args@) =~= base_args_of(*self) + seq!["workflow"@, "describe"@, "--workflow-id"@, workflow_id@, "--output"@, "json"@]
            + run_args(opt_view(run_id)));
        args
    }

    /// The arguments that show a workflow's history, as JSON.
    pub fn history_args(&self, workflow_id: &str, run_id: Option<&str>) -> (r: Vec<String>)
        ensures
            texts(r@) == base_args_of(*self) + seq!["workflow"@, "show"@, "--workflow-id"@, workflow_id@, "--output"@, "json"@]
                + run_args(opt_view(run_id)),
    {
        let mut args = self.base_args();
        push_arg(&mut args, "workflow");
        push_arg(&mut args, "show");
        push_arg(&mut args, "--workflow-id");
        push_arg(&mut args, workflow_id);
        push_arg(&mut args, "--output");
        push_arg(&mut args, "json");
        push_run(&mut args, run_id);
        assert(texts(args@) =~= base_args_of(*self) + seq!["workflow"@, "show"@, "--workflow-id"@, workflow_id@, "--output"@, "json"@]
            + run_args(opt_view(run_id)));
        args
    }

    /// The arguments that cancel a workflow.
    pub fn cancel_args(&self, workflow_id: &str, run_id: Option<&str>) -> (r: Vec<String>)
        ensures
            texts(r@) == base_args_of(*self) + seq!["workflow"@, "cancel"@, "--workflow-id"@, workflow_id@]
                + run_args(opt_view(run_id)),
    {
        let mut args = self.base_args();
        push_arg(&mut args, "workflow");
        push_arg(&mut args, "cancel");
        push_arg(&mut args, "--workflow-id");
        push_arg(&mut args, workflow_id);
        push_run(&mut args, run_id);
        assert(texts(args@) =~= base_args_of(*self) + seq!["workflow"@, "cancel"@, "--workflow-id"@, workflow_id@]
            + run_args(opt_view(run_id)));
        args
    }

    /// The arguments that terminate a workflow, giving a reason.
    pub fn terminate_args(&self, workflow_id: &str, run_id: Option<&str>, reason: &str) -> (r: Vec<String>)
        ensures
            texts(r@) == base_args_of(*self)
                + seq!["workflow"@, "terminate"@, "--workflow-id"@, workflow_id@, "--reason"@, reason@]
                + run_args(opt_view(run_id)),
    {
        let mut args = self.base_args();
        push_arg(&mut args, "workflow");
        push_arg(&mut args, "terminate");
        push_arg(&mut args, "--workflow-id");
        push_arg(&mut args, workflow_id);
        push_arg(&mut args, "--reason");
        push_arg(&mut args, reason);
        push_run(&mut args, run_id);
        assert(texts(args@) =~= base_args_of(*self)
            + seq!["workflow"@, "terminate"@, "--workflow-id"@, workflow_id@, "--reason"@, reason@]
            + run_args(opt_view(run_id)));
        args
    }
}

/// An ASCII digit.
pub open spec fn is_digit(c: char) -> bool {
    48 <= c as u32 <= 57
}

/// How many characters at the start of `s` are not digits.
pub open spec fn leading_nondigits(s: Seq<char>) -> nat
    decreases s.len(),
{
    if s.len() == 0 || is_digit(s[0]) { 0 } else { 1 + leading_nondigits(s.drop_first()) }
}

/// How many characters at the end of `s` are not digits.
pub open spec fn trailing_nondigits(s: Seq<char>) -> nat
    decreases s.len(),
{
    if s.len() == 0 || is_digit(s.last()) { 0 } else { 1 + trailing_nondigits(s.drop_last()) }
}

/// `s` without the non-digits at either end (what `trim_matches` with a
/// test for non-digits leaves).
pub open spec fn digit_core(s: Seq<char>) -> Seq<char> {
    let t = s.skip(leading_nondigits(s) as int);
    t.take(t.len() - trailing_nondigits(t))
}

proof fn lemma_leading_le(s: Seq<char>)
    ensures
        leading_nondigits(s) <= s.len(),
    decreases s.len(),
{
    if s.len() > 0 && !is_digit(s[0]) {
        lemma_leading_le(s.drop_first());
    }
}

proof fn lemma_trailing_le(s: Seq<char>)
    ensures
        trailing_nondigits(s) <= s.len(),
    decreases s.len(),
{
    if s.len() > 0 && !is_digit(s.last()) {
        lemma_trailing_le(s.drop_last());
    }
}

/// The word without the non-digits at either end.
fn digit_core_of(w: &Vec<char>) -> (r: Vec<char>)
    ensures
        r@ == digit_core(w@),
{
    let n = w.len();
    let mut a: usize = 0;
    assert(w@.skip(0) =~= w@);
    while a < n && !(48 <= (w[a] as u32) && (w[a] as u32) <= 57)
        invariant
            a <= n,
            n == w@.len(),
            leading_nondigits(w@) == a + leading_nondigits(w@.skip(a as int)),
        decreases n - a,
    {
        assert(w@.skip(a as int).drop_first() =~= w@.skip(a + 1));
        a = a + 1;
    }
    let ghost t = w@.skip(a as int);
    assert(leading_nondigits(t) == 0);
    let mut b: usize = n;
    assert(t.take(t.len() as int) =~= t);
    while b > a && !(48 <= (w[b - 1] as u32) && (w[b - 1] as u32) <= 57)
        invariant
            a <= b <= n,
            n == w@.len(),
            t == w@.skip(a as int),
            trailing_nondigits(t) == (n - b) + trailing_nondigits(t.take(b - a)),
        decreases b - a,
    {
        assert(t.take(b - a).drop_last() =~= t.take(b - 1 - a));
        assert(t.take(b - a).last() == w@[b - 1]);
        b = b - 1;
    }
    assert(trailing_nondigits(t.take(b - a)) == 0);
    let mut r: Vec<char> = Vec::new();
    let mut k: usize = a;
    while k < b
        invariant
            a <= k <= b <= n,
            n == w@.len(),
            r@ == w@.subrange(a as int, k as int),
        decreases b - k,
    {
        r.push(w[k]);
        assert(r@ =~= w@.subrange(a as int, k + 1));
        k = k + 1;
    }
    assert(r@ =~= digit_core(w@));
    r
}

/// The count in the first word whose digits read as a number.
pub open spec fn first_word_count(ws: Seq<Seq<char>>) -> Option<u64>
    decreases ws.len(),
{
    if ws.len() == 0 {
        None
    } else {
        match parse_u64_spec(digit_core(ws[0])) {
            Some(n) => Some(n),
            None => first_word_count(ws.drop_first()),
        }
    }
}

/// The count a line gives: the whole line read as a number, or, in a line
/// that mentions a count or a total (in any case), the first word whose
/// digits read as one.
pub open spec fn line_count(line: Seq<char>) -> Option<u64> {
    match parse_u64_spec(trimmed_text(line)) {
        Some(n) => Some(n),
        None => if contains_seq(lower_of(line), "count"@) || contains_seq(lower_of(line), "total"@) {
            first_word_count(words(line))
        } else {
            None
        },
    }
}

/// The count of the first line that gives one.
pub open spec fn first_line_count(ls: Seq<Seq<char>>) -> Option<u64>
    decreases ls.len(),
{
    if ls.len() == 0 {
        None
    } else {
        match line_count(ls[0]) {
            Some(n) => Some(n),
            None => first_line_count(ls.drop_first()),
        }
    }
}

/// The count that the output of `temporal workflow count` gives: from the
/// first line that gives one, else from the `count` member of the output
/// read as JSON.
pub open spec fn count_in_output(output: Seq<char>) -> Option<u64> {
    match first_line_count(lines_of(output)) {
        Some(n) => Some(n),
        None => match json_read(output) {
            Ok(v) => json_u64(json_get(v, "count"@)),
            Err(_) => None,
        },
    }
}

/// The count that the JSON output of `temporal workflow count` gives: its
/// `count` member, when that is an unsigned integer.
pub fn count_of_json(v: &JsonValue) -> (r: Option<u64>)
    ensures
        r == json_u64(json_get(*v, "count"@)),
{
    match v.get("count") {
        Some(c) => c.as_u64(),
        None => None,
    }
}

/// The count a line gives.
fn count_of_line(line: &Vec<char>) -> (r: Option<u64>)
    ensures
        r == line_count(line@),
{
    let text = string_of(line);
    let t = trim(text.as_str());
    match parse_u64(&chars_of(t.as_str())) {
        Some(n) => return Some(n),
        None => {},
    }
    let lower = chars_of(to_lower(text.as_str()).as_str());
    if !(contains(&lower, &chars_of("count")) || contains(&lower, &chars_of("total"))) {
        return None;
    }
    let ws = split_words(line);
    let ghost all = views(ws@);
    let mut i: usize = 0;
    assert(all.skip(0) =~= all);
    while i < ws.len()
        invariant
            i <= ws@.len(),
            all == views(ws@),
            all == words(line@),
            line_count(line@) == first_word_count(all),
            first_word_count(all) == first_word_count(all.skip(i as int)),
        decreases ws.len() - i,
    {
        assert(all.skip(i as int).drop_first() =~= all.skip(i + 1));
        assert(all.skip(i as int)[0] == ws@[i as int]@);
        match parse_u64(&digit_core_of(&ws[i])) {
            Some(n) => return Some(n),
            None => {},
        }
        i = i + 1;
    }
    None
}

/// Reads the count from the output of `temporal workflow count`.
pub fn parse_count_output(output: &str) -> (r: Result<u64, ClientError>)
    ensures
        match count_in_output(output@) {
            Some(n) => r == Ok::<u64, ClientError>(n),
            None => r matches Err(ClientError::ParseError(m)) && m@ == "Could not parse count from output: "@ + output@,
        },
{
    let ls = split_lines(&chars_of(output));
    let ghost all = views(ls@);
    let mut i: usize = 0;
    assert(all.skip(0) =~= all);
    while i < ls.len()
        invariant
            i <= ls@.len(),
            all == views(ls@),
            all == lines_of(output@),
            first_line_count(all) == first_line_count(all.skip(i as int)),
        decreases ls.len() - i,
    {
        assert(all.skip(i as int).drop_first() =~= all.skip(i + 1));
        assert(all.skip(i as int)[0] == ls@[i as int]@);
        match count_of_line(&ls[i]) {
            Some(n) => return Ok(n),
            None => {},
        }
        i = i + 1;
    }
    match parse_json(output) {
        Ok(v) => match count_of_json(&v) {
            Some(n) => return Ok(n),
            None => {},
        },
        Err(_) => {},
    }
    let mut m: Vec<char> = chars_of("Could not parse count from output: ");
    push_str(&mut m, output);
    Err(ClientError::ParseError(string_of(&m)))
}

/// The text of a string member, or `d`.
pub open spec fn str_or(v: Option<JsonValue>, d: Seq<char>) -> Seq<char> {
    match json_str(v) {
        Some(t) => t,
        None => d,
    }
}

/// The object that describes an execution: the item's `execution` member
/// when it has one, else the item itself.
pub open spec fn execution_of(item: JsonValue) -> JsonValue {
    match json_get(item, "execution"@) {
        Some(e) => e,
        None => item,
    }
}

/// The workflow type an item names: `type.name`, else `workflowType`, else
/// `Unknown`.
pub open spec fn type_name_of(item: JsonValue) -> Seq<char> {
    let named = match json_get(item, "type"@) {
        Some(t) => json_str(json_get(t, "name"@)),
        None => None,
    };
    match named {
        Some(n) => n,
        None => str_or(json_get(item, "workflowType"@), "Unknown"@),
    }
}

/// The status an item names (ignoring case), running when it names none
/// or none that is known.
pub open spec fn status_read(item: JsonValue) -> WorkflowStatus {
    match status_of_upper(upper_of(str_or(json_get(item, "status"@), "RUNNING"@))) {
        Some(st) => st,
        None => WorkflowStatus::Running,
    }
}

/// The instant of an RFC 3339 time member, if it has one that reads.
pub open spec fn time_member(item: JsonValue, key: Seq<char>) -> Option<i64> {
    match json_str(json_get(item, key)) {
        Some(t) => rfc3339_instant(t),
        None => None,
    }
}

/// `r` is the workflow summary that a list item describes, `now` standing
/// in for a missing start time; the item must name the workflow.
pub open spec fn summary_read(item: JsonValue, now: i64, r: Result<WorkflowSummary, ClientError>) -> bool {
    let ex = execution_of(item);
    match json_str(json_get(ex, "workflowId"@)) {
        None => r matches Err(ClientError::ParseError(m)) && m@ == "Missing workflowId"@,
        Some(id) => r matches Ok(w) && {
            &&& w.workflow_id@ == id
            &&& w.run_id@ == str_or(json_get(ex, "runId"@), ""@)
            &&& w.workflow_type@ == type_name_of(item)
            &&& w.status == status_read(item)
            &&& w.start_time == match time_member(item, "startTime"@) {
                Some(t) => t,
                None => now,
            }
            &&& w.close_time == time_member(item, "closeTime"@)
            &&& w.task_queue@ == str_or(json_get(item, "taskQueue"@), "default"@)
        },
    }
}

/// The text of string member `key`, or `d`.
fn get_str_or(v: &JsonValue, key: &str, d: &str) -> (r: String)
    ensures
        r@ == str_or(json_get(*v, key@), d@),
{
    match v.get(key) {
        Some(x) => match x.as_str() {
            Some(t) => t.to_owned(),
            None => d.to_owned(),
        },
        None => d.to_owned(),
    }
}

/// The instant of time member `key`, if it reads as RFC 3339.
fn get_time(v: &JsonValue, key: &str) -> (r: Option<i64>)
    ensures
        r == time_member(*v, key@),
        r matches Some(t) ==> time_ok(t),
{
    match v.get(key) {
        Some(x) => match x.as_str() {
            Some(t) => parse_rfc3339(t),
            None => None,
        },
        None => None,
    }
}

/// Reads the workflow summary that an item of a workflow list describes;
/// `now` stands in for a missing start time.
pub fn parse_workflow_execution_at(item: &JsonValue, now: i64) -> (r: Result<WorkflowSummary, ClientError>)
    requires
        time_ok(now),
    ensures
        summary_read(*item, now, r),
        r matches Ok(w) ==> time_ok(w.start_time),
{
    let ex: &JsonValue = match item.get("execution") {
        Some(e) => e,
        None => item,
    };
    let workflow_id = match ex.get("workflowId") {
        Some(x) => match x.as_str() {
            Some(t) => t.to_owned(),
            None => return Err(ClientError::ParseError("Missing workflowId".to_owned())),
        },
        None => return Err(ClientError::ParseError("Missing workflowId".to_owned())),
    };
    let run_id = get_str_or(ex, "runId", "");
    let named: Option<String> = match item.get("type") {
        Some(t) => match t.get("name") {
            Some(n) => match n.as_str() {
                Some(x) => Some(x.to_owned()),
                None => None,
            },
            None => None,
        },
        None => None,
    };
    let workflow_type = match named {
        Some(n) => n,
        None => get_str_or(item, "workflowType", "Unknown"),
    };
    let status_text = get_str_or(item, "status", "RUNNING");
    let status = match WorkflowStatus::parse(status_text.as_str()) {
        Ok(st) => st,
        Err(_) => WorkflowStatus::Running,
    };
    let start_time = match get_time(item, "startTime") {
        Some(t) => t,
        None => now,
    };
    let close_time = get_time(item, "closeTime");
    let task_queue = get_str_or(item, "taskQueue", "default");
    Ok(WorkflowSummary { workflow_id, run_id, workflow_type, status, start_time, close_time, task_queue })
}

/// The items of a workflow list: the value itself when it is an array,
/// else its `executions` member when that is one.
pub open spec fn executions_of(v: JsonValue) -> Option<Seq<JsonValue>> {
    match v {
        JsonValue::Array(a) => Some(a@),
        _ => match json_get(v, "executions"@) {
            Some(JsonValue::Array(a)) => Some(a@),
            _ => None,
        },
    }
}

/// An item names its workflow.
pub open spec fn names_workflow(item: JsonValue) -> bool {
    json_str(json_get(execution_of(item), "workflowId"@)) is Some
}

/// `r` is what a list of items reads as: the summaries of all items when
/// each names its workflow, else the error for the missing id.
pub open spec fn list_read(items: Seq<JsonValue>, now: i64, r: Result<Vec<WorkflowSummary>, ClientError>) -> bool {
    if forall|k: int| 0 <= k < items.len() ==> #[trigger] names_workflow(items[k]) {
        r matches Ok(ws) && ws@.len() == items.len()
            && forall|k: int| 0 <= k < items.len() ==> summary_read(#[trigger] items[k], now, Ok(ws@[k]))
    } else {
        r matches Err(ClientError::ParseError(m)) && m@ == "Missing workflowId"@
    }
}

/// `m` is the error for a text that is not JSON.
pub open spec fn invalid_json(e: Seq<char>, r_err: ClientError) -> bool {
    r_err matches ClientError::ParseError(m) && m@ == "Invalid JSON: "@ + e
}

/// The error for a text that serde_json rejects.
fn invalid_json_error(e: &String) -> (r: ClientError)
    ensures
        invalid_json(e@, r),
{
    let mut m: Vec<char> = chars_of("Invalid JSON: ");
    push_str(&mut m, e.as_str());
    ClientError::ParseError(string_of(&m))
}

/// `r` is what the JSON output of `temporal workflow list` reads as: the
/// summaries of the items of an array, or of an object's `executions`
/// array, `now` standing in for missing start times.
pub open spec fn list_output(json: Seq<char>, now: i64, r: Result<Vec<WorkflowSummary>, ClientError>) -> bool {
    match json_read(json) {
        Err(e) => r matches Err(x) && invalid_json(e, x),
        Ok(v) => list_value_read(v, now, r),
    }
}

/// `r` is what a parsed list output reads as: the summaries of the items of
/// an array, or of an object's `executions` array.
pub open spec fn list_value_read(v: JsonValue, now: i64, r: Result<Vec<WorkflowSummary>, ClientError>) -> bool {
    match executions_of(v) {
        None => r matches Err(ClientError::ParseError(m))
            && m@ == "Expected array or object with executions field"@,
        Some(items) => list_read(items, now, r),
    }
}

/// Reads the workflow summaries from the JSON output of `temporal workflow
/// list`: an array of items, or an object with an `executions` array.
pub fn parse_workflow_list_at(json: &str, now: i64) -> (r: Result<Vec<WorkflowSummary>, ClientError>)
    requires
        time_ok(now),
    ensures
        list_output(json@, now, r),
        r matches Ok(ws) ==> starts_ok(ws@),
{
    match parse_json(json) {
        Ok(v) => workflow_list_of(&v, now),
        Err(e) => Err(invalid_json_error(&e)),
    }
}

/// Reads the workflow summaries from the parsed output of `temporal
/// workflow list`.
pub fn workflow_list_of(value: &JsonValue, now: i64) -> (r: Result<Vec<WorkflowSummary>, ClientError>)
    requires
        time_ok(now),
    ensures
        list_value_read(*value, now, r),
        r matches Ok(ws) ==> starts_ok(ws@),
{
    let items: &Vec<JsonValue> = match value {
        JsonValue::Array(a) => a,
        _ => match value.get("executions") {
            Some(JsonValue::Array(a)) => a,
            _ => return Err(ClientError::ParseError("Expected array or object with executions field".to_owned())),
        },
    };
    let mut out: Vec<WorkflowSummary> = Vec::new();
    let mut i: usize = 0;
    while i < items.len()
        invariant
            time_ok(now),
            executions_of(*value) == Some(items@),
            i <= items@.len(),
            out@.len() == i,
            forall|k: int| 0 <= k < i ==> #[trigger] names_workflow(items@[k]),
            forall|k: int| 0 <= k < i ==> summary_read(#[trigger] items@[k], now, Ok(out@[k])),
            starts_ok(out@),
        decreases items.len() - i,
    {
        match parse_workflow_execution_at(&items[i], now) {
            Ok(w) => out.push(w),
            Err(e) => {
                assert(!names_workflow(items@[i as int]));
                assert(!(forall|k: int| 0 <= k < items@.len() ==> #[trigger] names_workflow(items@[k])));
                return Err(e);
            },
        }
        i = i + 1;
    }
    Ok(out)
}

/// Reads the workflow summaries from the JSON output of `temporal workflow
/// list`, now standing in for missing start times.
pub fn parse_workflow_list(json: &str) -> (r: Result<Vec<WorkflowSummary>, ClientError>)
    ensures
        exists|now: i64| time_ok(now) && #[trigger] list_output(json@, now, r),
        r matches Ok(ws) ==> starts_ok(ws@),
{
    let now = now_ms();
    parse_workflow_list_at(json, now)
}

/// `f` is the failure that `v` describes: one with a `message`, its type
/// from `failureType` (else `type`, else `Unknown`), its `stackTrace`, and
/// the failure its `cause` describes.
pub open spec fn failure_read(v: JsonValue, f: Option<FailureInfo>) -> bool
    decreases v,
{
    match json_str(json_get(v, "message"@)) {
        None => f is None,
        Some(m) => f matches Some(fi) && {
            let ty = match json_get(v, "failureType"@) {
                Some(t) => json_str(Some(t)),
                None => json_str(json_get(v, "type"@)),
            };
            &&& fi.message@ == m
            &&& fi.failure_type@ == match ty {
                Some(t) => t,
                None => "Unknown"@,
            }
            &&& match (fi.stack_trace, json_str(json_get(v, "stackTrace"@))) {
                (Some(a), Some(b)) => a@ == b,
                (None, None) => true,
                _ => false,
            }
            &&& match json_get(v, "cause"@) {
                Some(c) => {
                    proof {
                        lemma_get_decreases(v, "cause"@);
                    }
                    match fi.cause {
                        Some(b) => failure_read(c, Some(*b)),
                        None => failure_read(c, None),
                    }
                },
                None => fi.cause is None,
            }
        },
    }
}

/// Reads the failure that a JSON value describes, if it has a message.
pub fn parse_failure_info(v: &JsonValue) -> (r: Option<FailureInfo>)
    ensures
        failure_read(*v, r),
    decreases v,
{
    let message = match v.get("message") {
        Some(x) => match x.as_str() {
            Some(t) => t.to_owned(),
            None => return None,
        },
        None => return None,
    };
    let ty: Option<&str> = match v.get("failureType") {
        Some(t) => t.as_str(),
        None => match v.get("type") {
            Some(t) => t.as_str(),
            None => None,
        },
    };
    let failure_type = match ty {
        Some(t) => t.to_owned(),
        None => "Unknown".to_owned(),
    };
    let stack_trace = match v.get("stackTrace") {
        Some(x) => match x.as_str() {
            Some(t) => Some(t.to_owned()),
            None => None,
        },
        None => None,
    };
    let cause = match v.get("cause") {
        Some(c) => {
            proof {
                lemma_get_decreases(*v, "cause"@);
            }
            match parse_failure_info(c) {
                Some(f) => Some(Box::new(f)),
                None => None,
            }
        },
        None => None,
    };
    Some(FailureInfo { message, failure_type, stack_trace, cause })
}

/// The input of a workflow's description: `input`, else
/// `workflowExecutionInfo.input`.
pub open spec fn detail_input(v: JsonValue) -> Option<JsonValue> {
    match json_get(v, "input"@) {
        Some(x) => Some(x),
        None => match json_get(v, "workflowExecutionInfo"@) {
            Some(w) => json_get(w, "input"@),
            None => None,
        },
    }
}

/// The output of a workflow's description: `output`, else `result`.
pub open spec fn detail_output(v: JsonValue) -> Option<JsonValue> {
    match json_get(v, "output"@) {
        Some(x) => Some(x),
        None => json_get(v, "result"@),
    }
}

/// The members of an object member, none when it is absent or no object.
pub open spec fn object_members(v: Option<JsonValue>) -> Seq<(String, JsonValue)> {
    match v {
        Some(JsonValue::Object(m)) => m@,
        _ => Seq::empty(),
    }
}

/// `a` holds the same names and JSON data as `b`, in the same order.
pub open spec fn same_members(a: Seq<(String, JsonValue)>, b: Seq<(String, JsonValue)>) -> bool {
    a.len() == b.len() && forall|i: int| 0 <= i < a.len() ==> a[i].0@ == b[i].0@ && #[trigger] same_json(a[i].1, b[i].1)
}

/// A copy of the members of an object member.
fn copy_members(v: Option<&JsonValue>) -> (r: Vec<(String, JsonValue)>)
    ensures
        same_members(r@, object_members(match v { Some(x) => Some(*x), None => None })),
{
    match v {
        Some(JsonValue::Object(m)) => {
            let mut out: Vec<(String, JsonValue)> = Vec::new();
            let mut i: usize = 0;
            while i < m.len()
                invariant
                    i <= m@.len(),
                    out@.len() == i,
                    forall|k: int| 0 <= k < i ==> (#[trigger] out@[k]).0@ == m@[k].0@,
                    forall|k: int| 0 <= k < i ==> same_json(#[trigger] out@[k].1, m@[k].1),
                decreases m.len() - i,
            {
                let c = clone_json(&m[i].1);
                let name = m[i].0.clone();
                let ghost before = out@;
                out.push((name, c));
                assert forall|k: int| 0 <= k < i + 1 implies same_json(#[trigger] out@[k].1, m@[k].1) by {
                    if k < i {
                        assert(out@[k] == before[k]);
                        assert(same_json(before[k].1, m@[k].1));
                    }
                }
                assert forall|k: int| 0 <= k < i + 1 implies (#[trigger] out@[k]).0@ == m@[k].0@ by {
                    if k < i {
                        assert(out@[k] == before[k]);
                    }
                }
                i = i + 1;
            }
            assert forall|k: int| 0 <= k < out@.len() implies out@[k].0@ == m@[k].0@
                && #[trigger] same_json(out@[k].1, m@[k].1) by {
                assert(out@[k].0@ == m@[k].0@);
                assert(same_json(out@[k].1, m@[k].1));
            }
            assert(object_members(match v { Some(x) => Some(*x), None => None }) == m@);
            out
        },
        _ => Vec::new(),
    }
}

/// A copy of an optional value.
fn copy_opt_json(v: Option<&JsonValue>) -> (r: Option<JsonValue>)
    ensures
        same_json_opt(r, match v { Some(x) => Some(*x), None => None }),
{
    match v {
        Some(x) => Some(clone_json(x)),
        None => None,
    }
}

/// `r` is the workflow detail that the JSON output of `temporal workflow
/// describe` gives, `now` standing in for a missing start time.
pub open spec fn detail_output_read(json: Seq<char>, now: i64, r: Result<WorkflowDetail, ClientError>) -> bool {
    match json_read(json) {
        Err(e) => r matches Err(x) && invalid_json(e, x),
        Ok(v) => detail_value_read(v, now, r),
    }
}

/// `r` is the workflow detail that the parsed output of `temporal workflow
/// describe` gives.
pub open spec fn detail_value_read(v: JsonValue, now: i64, r: Result<WorkflowDetail, ClientError>) -> bool {
    if names_workflow(v) {
            r matches Ok(d) && {
                &&& summary_read(v, now, Ok(d.summary))
                &&& same_json_opt(d.input, detail_input(v))
                &&& same_json_opt(d.output, detail_output(v))
                &&& match json_get(v, "failure"@) {
                    Some(f) => failure_read(f, d.failure),
                    None => d.failure is None,
                }
                &&& d.history_length == match json_u64(json_get(v, "historyLength"@)) {
                    Some(n) => n,
                    None => 0,
                }
                &&& same_members(d.memo@, object_members(json_get(v, "memo"@)))
                &&& same_members(d.search_attributes@, object_members(json_get(v, "searchAttributes"@)))
            }
    } else {
        r matches Err(ClientError::ParseError(m)) && m@ == "Missing workflowId"@
    }
}

/// Reads a workflow's detail from the JSON output of `temporal workflow
/// describe`.
pub fn parse_workflow_detail_at(json: &str, now: i64) -> (r: Result<WorkflowDetail, ClientError>)
    requires
        time_ok(now),
    ensures
        detail_output_read(json@, now, r),
{
    match parse_json(json) {
        Ok(v) => workflow_detail_of(&v, now),
        Err(e) => Err(invalid_json_error(&e)),
    }
}

/// Reads a workflow's detail from the parsed output of `temporal workflow
/// describe`.
pub fn workflow_detail_of(value: &JsonValue, now: i64) -> (r: Result<WorkflowDetail, ClientError>)
    requires
        time_ok(now),
    ensures
        detail_value_read(*value, now, r),
{
    let summary = match parse_workflow_execution_at(value, now) {
        Ok(w) => w,
        Err(e) => return Err(e),
    };
    let input_ref: Option<&JsonValue> = match value.get("input") {
        Some(x) => Some(x),
        None => match value.get("workflowExecutionInfo") {
            Some(w) => w.get("input"),
            None => None,
        },
    };
    let input = copy_opt_json(input_ref);
    let output_ref: Option<&JsonValue> = match value.get("output") {
        Some(x) => Some(x),
        None => value.get("result"),
    };
    let output = copy_opt_json(output_ref);
    let failure = match value.get("failure") {
        Some(f) => parse_failure_info(f),
        None => None,
    };
    let history_length = match value.get("historyLength") {
        Some(x) => match x.as_u64() {
            Some(n) => n,
            None => 0,
        },
        None => 0,
    };
    let memo = copy_members(value.get("memo"));
    let search_attributes = copy_members(value.get("searchAttributes"));
    Ok(WorkflowDetail { summary, input, output, failure, history_length, memo, search_attributes })
}

/// Reads a workflow's detail from the JSON output of `temporal workflow
/// describe`, now standing in for a missing start time.
pub fn parse_workflow_detail(json: &str) -> (r: Result<WorkflowDetail, ClientError>)
    ensures
        exists|now: i64| time_ok(now) && #[trigger] detail_output_read(json@, now, r),
{
    let now = now_ms();
    parse_workflow_detail_at(json, now)
}

/// The events of a history: the `events` member when it is an array, else
/// the value itself when it is one.
pub open spec fn events_of(v: JsonValue) -> Option<Seq<JsonValue>> {
    match json_get(v, "events"@) {
        Some(JsonValue::Array(a)) => Some(a@),
        _ => match v {
            JsonValue::Array(a) => Some(a@),
            _ => None,
        },
    }
}

/// `e` is the history event that an item describes: its `eventId` (else
/// 0), `eventType` (else `Unknown`), `eventTime` (else `now`), and the item
/// itself as details.
pub open spec fn event_read(item: JsonValue, now: i64, e: HistoryEvent) -> bool {
    &&& e.event_id == match json_i64(json_get(item, "eventId"@)) {
        Some(n) => n,
        None => 0,
    }
    &&& e.event_type@ == str_or(json_get(item, "eventType"@), "Unknown"@)
    &&& e.timestamp == match time_member(item, "eventTime"@) {
        Some(t) => t,
        None => now,
    }
    &&& same_json(e.details, item)
}

/// `r` is what the JSON output of `temporal workflow show` reads as.
pub open spec fn history_output_read(json: Seq<char>, now: i64, r: Result<Vec<HistoryEvent>, ClientError>) -> bool {
    match json_read(json) {
        Err(e) => r matches Err(x) && invalid_json(e, x),
        Ok(v) => history_value_read(v, now, r),
    }
}

/// `r` is what the parsed output of `temporal workflow show` reads as: one
/// event per item of its events array.
pub open spec fn history_value_read(v: JsonValue, now: i64, r: Result<Vec<HistoryEvent>, ClientError>) -> bool {
    match events_of(v) {
        None => r matches Err(ClientError::ParseError(m)) && m@ == "Expected events array"@,
        Some(items) => r matches Ok(es) && es@.len() == items.len()
            && forall|k: int| 0 <= k < items.len() ==> event_read(items[k], now, #[trigger] es@[k]),
    }
}

/// Reads the history events from the JSON output of `temporal workflow
/// show`; every event time lies in the supported range.
pub fn parse_history_events_at(json: &str, now: i64) -> (r: Result<Vec<HistoryEvent>, ClientError>)
    requires
        time_ok(now),
    ensures
        history_output_read(json@, now, r),
        r matches Ok(es) ==> events_time_ok(es@),
{
    match parse_json(json) {
        Ok(v) => history_events_of(&v, now),
        Err(e) => Err(invalid_json_error(&e)),
    }
}

/// Reads the history events from the parsed output of `temporal workflow
/// show`; every event time lies in the supported range.
pub fn history_events_of(value: &JsonValue, now: i64) -> (r: Result<Vec<HistoryEvent>, ClientError>)
    requires
        time_ok(now),
    ensures
        history_value_read(*value, now, r),
        r matches Ok(es) ==> events_time_ok(es@),
{
    let items: &Vec<JsonValue> = match value.get("events") {
        Some(JsonValue::Array(a)) => a,
        _ => match value {
            JsonValue::Array(a) => a,
            _ => return Err(ClientError::ParseError("Expected events array".to_owned())),
        },
    };
    let mut out: Vec<HistoryEvent> = Vec::new();
    let mut i: usize = 0;
    while i < items.len()
        invariant
            time_ok(now),
            events_of(*value) == Some(items@),
            i <= items@.len(),
            out@.len() == i,
            forall|k: int| 0 <= k < i ==> event_read(items@[k], now, #[trigger] out@[k]),
            events_time_ok(out@),
        decreases items.len() - i,
    {
        let item = &items[i];
        let event_id = match item.get("eventId") {
            Some(x) => match x.as_i64() {
                Some(n) => n,
                None => 0,
            },
            None => 0,
        };
        let event_type = get_str_or(item, "eventType", "Unknown");
        let timestamp = match get_time(item, "eventTime") {
            Some(t) => t,
            None => now,
        };
        let details = clone_json(item);
        out.push(HistoryEvent { event_id, event_type, timestamp, details });
        i = i + 1;
    }
    Ok(out)
}

/// Reads the history events from the JSON output of `temporal workflow
/// show`, now standing in for missing event times.
pub fn parse_history_events(json: &str) -> (r: Result<Vec<HistoryEvent>, ClientError>)
    ensures
        exists|now: i64| time_ok(now) && #[trigger] history_output_read(json@, now, r),
        r matches Ok(es) ==> events_time_ok(es@),
{
    let now = now_ms();
    parse_history_events_at(json, now)
}

} // verus!
