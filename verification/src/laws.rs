//! Properties of the library that span several calls, or that hold of every
//! result of a function, stated over the specifications the functions
//! themselves ensure.

use vstd::prelude::*;
use crate::config::{find_profile, ConfigFile, ProfileConfig};
use crate::profiles::{profile_added, profile_removed};
use crate::app::{quit_hint, selected_wf, transition, without, Action, App, Effect};
use crate::insights::{rank_keys, ranked_as, InsightFinding};
use crate::mode::{InputMode, View as Screen};
use crate::order::{key_before, stable_order};
use crate::status::{severity_rank, TableColumn};
use crate::text::truncated;
use crate::keys::{key_action_ok, KeyCode, KeyEvent};
use crate::stats::{count_keys_desc, count_status, entries_map, entries_sum, sorted_counts, unique_statuses, StatusCounts};
use crate::status::{is_failed_status, WorkflowStatus};
use crate::model::WorkflowSummary;
use crate::watch::pipe_step;
use crate::findings::sampling;
use crate::insights::{ids_at, phase_positions, pick, running_keys, sample_phase};
use crate::order::lemma_stable_order_onto;
use crate::grouping::{distinct, lemma_distinct, present};
use crate::finding_laws::{lemma_present_from, lemma_present_has};
use crate::json_lines::{covered, highlighted_line, line_matches, line_text, marked, matching_lines, regroup, styled_chars, SpanStyle};
use crate::text::{all_ascii, ascii_lower, lower_of, occurs_at};

verus! {

/// Two quit requests less than two seconds apart end the application,
/// whatever state they start from.
pub proof fn law_double_quit_quits(a: App, b: App, c: App, t1: i64, t2: i64, e1: Seq<Effect>, e2: Seq<Effect>)
    requires
        transition(a, b, Action::Quit, t1, e1),
        transition(b, c, Action::Quit, t2, e2),
        t1 <= t2 < t1 + 2000,
    ensures
        c.should_quit,
        e1.len() == 0 && e2.len() == 0,
{
}

/// A first quit request only warns: it does not end the application and
/// shows the hint to press again.
pub proof fn law_first_quit_warns(a: App, b: App, t: i64, e: Seq<Effect>)
    requires
        transition(a, b, Action::Quit, t, e),
        a.last_quit_attempt is None,
        !a.should_quit,
    ensures
        !b.should_quit,
        b.last_error matches Some(m) && m@ == quit_hint(),
        b.last_quit_attempt == Some(t),
{
}

/// Opening the selected workflow from the list and going back returns to
/// the list with the view stack, the rows, the filter and the selection it
/// had.
pub proof fn law_detail_then_back(a: App, b: App, c: App, t1: i64, t2: i64, e1: Seq<Effect>, e2: Seq<Effect>)
    requires
        a.view == Screen::WorkflowList,
        a.input_mode == InputMode::Normal,
        selected_wf(a) is Some,
        transition(a, b, Action::ViewDetail, t1, e1),
        transition(b, c, Action::GoBack, t2, e2),
    ensures
        b.view == Screen::WorkflowDetail,
        e1.len() == 1,
        c.view == a.view,
        c.view_stack@ == a.view_stack@,
        c.workflows == a.workflows,
        c.filter == a.filter,
        c.table_state == a.table_state,
        c.input_mode == InputMode::Normal,
{
    assert(b.view_stack@.drop_last() =~= a.view_stack@);
}

/// Hiding a shown column and showing it again leaves the same set of shown
/// columns (the column comes back at the end), provided another column was
/// shown.
pub proof fn law_toggle_twice_same_columns(a: App, b: App, c: App, col: TableColumn, t1: i64, t2: i64, e1: Seq<Effect>, e2: Seq<Effect>)
    requires
        a.visible_columns@.no_duplicates(),
        a.visible_columns@.contains(col),
        a.visible_columns@.len() > 1,
        transition(a, b, Action::ToggleColumn(col), t1, e1),
        transition(b, c, Action::ToggleColumn(col), t2, e2),
    ensures
        c.visible_columns@.to_set() == a.visible_columns@.to_set(),
        c.visible_columns@.len() == a.visible_columns@.len(),
        c.visible_columns@.last() == col,
{
    let s = a.visible_columns@;
    let pred = crate::app::other_than(col);
    let w = without(s, col);
    assert(b.visible_columns@ == w);
    assert(c.visible_columns@ == w.push(col));
    let v = w.push(col);
    assert forall|k: int| 0 <= k < w.len() implies #[trigger] w[k] != col by {
        s.lemma_filter_pred(pred, k);
    }
    assert forall|x: TableColumn| #[trigger] s.contains(x) == v.contains(x) by {
        if s.contains(x) && x != col {
            let k = choose|k: int| 0 <= k < s.len() && s[k] == x;
            s.lemma_filter_contains(pred, k);
            let m = choose|m: int| 0 <= m < w.len() && w[m] == x;
            assert(v[m] == x);
        }
        if v.contains(x) && x != col {
            let k = choose|k: int| 0 <= k < v.len() && v[k] == x;
            assert(k < w.len());
            assert(w.contains(x));
            s.lemma_filter_contains_rev(pred, x);
        }
        if x == col {
            assert(v[w.len() as int] == col);
        }
    }
    assert(v.to_set() =~= s.to_set());
    crate::app::lemma_filter_no_duplicates(s, pred);
    assert(v.no_duplicates()) by {
        assert forall|i: int, j: int| 0 <= i < v.len() && 0 <= j < v.len() && i != j implies v[i] != v[j] by {
            if i < w.len() && j < w.len() {
                assert(w[i] != w[j]);
            } else if i < w.len() {
                assert(w[i] != col);
            } else if j < w.len() {
                assert(w[j] != col);
            }
        }
    }
    s.unique_seq_to_set();
    v.unique_seq_to_set();
}

/// Ranked findings come in order of severity, highest first, and within a
/// severity with the most affected entities first; none is lost or added.
pub proof fn law_ranked_by_severity(findings: Seq<InsightFinding>, r: Seq<InsightFinding>)
    requires
        ranked_as(findings, r),
    ensures
        r.len() == findings.len(),
        forall|i: int, j: int| 0 <= i < j < r.len() ==> {
            let si = severity_rank(#[trigger] r[i].severity);
            let sj = severity_rank(#[trigger] r[j].severity);
            si > sj || (si == sj && r[i].affected_entities@.len() >= r[j].affected_entities@.len())
        },
{
    let p = choose|p: Seq<usize>| #[trigger] stable_order(rank_keys(findings), p) && r.len() == p.len()
        && forall|j: int| 0 <= j < p.len() ==> r[j] == findings[p[j] as int];
    assert forall|i: int, j: int| 0 <= i < j < r.len() implies {
        let si = severity_rank(#[trigger] r[i].severity);
        let sj = severity_rank(#[trigger] r[j].severity);
        si > sj || (si == sj && r[i].affected_entities@.len() >= r[j].affected_entities@.len())
    } by {
        let fi = findings[p[i] as int];
        let fj = findings[p[j] as int];
        assert(r[i] == fi && r[j] == fj);
        vstd::std_specs::vec::axiom_spec_len(&fi.affected_entities);
        vstd::std_specs::vec::axiom_spec_len(&fj.affected_entities);
        let keys = rank_keys(findings);
        assert(key_before(keys[p[i] as int] as int, p[i] as int, keys[p[j] as int] as int, p[j] as int));
        assert(keys[p[i] as int] as int == -(severity_rank(fi.severity) * 0x1_0000_0000_0000_0000int + fi.affected_entities@.len()));
        assert(keys[p[j] as int] as int == -(severity_rank(fj.severity) * 0x1_0000_0000_0000_0000int + fj.affected_entities@.len()));
    }
}

/// A cut text is never longer than the limit, when the limit leaves room
/// for the `...` mark; a text within the limit is left as it is.
pub proof fn law_truncated_fits(s: Seq<char>, max_len: nat)
    ensures
        max_len >= 3 ==> truncated(s, max_len).len() <= max_len,
        s.len() <= max_len ==> truncated(s, max_len) == s,
{
}

/// A profile that was just added is found under its name with the settings
/// given, and every other profile is found as before.
pub proof fn law_added_profile_is_found(a: ConfigFile, b: ConfigFile, name: Seq<char>, p: ProfileConfig, made_default: bool, other: Seq<char>)
    requires
        profile_added(a, b, name, p, made_default),
    ensures
        find_profile(b.profiles@, name) == Some(p),
        other != name ==> find_profile(b.profiles@, other) == find_profile(a.profiles@, other),
{
    assert(find_profile(b.profiles@, name) == Some(p));
    assert(find_profile(b.profiles@, other) == if other == name { Some(p) } else { find_profile(a.profiles@, other) });
}

/// Removing a profile just added removes it, and leaves every other
/// profile as it was before the addition.
pub proof fn law_remove_undoes_add(
    a: ConfigFile,
    b: ConfigFile,
    c: ConfigFile,
    name: Seq<char>,
    p: ProfileConfig,
    made_default: bool,
    removed: bool,
    other: Seq<char>,
)
    requires
        profile_added(a, b, name, p, made_default),
        profile_removed(b, c, name, removed),
    ensures
        removed,
        find_profile(c.profiles@, name) is None,
        other != name ==> find_profile(c.profiles@, other) == find_profile(a.profiles@, other),
        made_default ==> c.default_profile is None,
{
    assert(find_profile(b.profiles@, name) == Some(p));
    assert(find_profile(c.profiles@, name) == if name == name { None::<ProfileConfig> } else { find_profile(b.profiles@, name) });
    assert(find_profile(b.profiles@, other) == if other == name { Some(p) } else { find_profile(a.profiles@, other) });
    assert(find_profile(c.profiles@, other) == if other == name { None } else { find_profile(b.profiles@, other) });
}

/// In the filter input every character typed is added to the filter text,
/// `q` and the digits included: the key maps to appending it, and the
/// state machine appends it.
pub proof fn law_filter_input_takes_every_char(
    key: KeyEvent,
    c: char,
    act: Option<Action>,
    a: App,
    b: App,
    now: i64,
    e: Seq<Effect>,
)
    requires
        key.code == KeyCode::Char(c),
        a.input_mode == InputMode::FilterInput,
        key_action_ok(key, a.view, a.input_mode, act),
        act matches Some(x) && transition(a, b, x, now, e),
    ensures
        act == Some(Action::AppendFilterChar(c)),
        b.filter_input@ == a.filter_input@.push(c),
        b.input_mode == InputMode::FilterInput,
        e.len() == 0,
{
}

/// Counts sorted by count come largest first, every entry kept.
pub proof fn law_sorted_counts_descend(e: Seq<(WorkflowStatus, u64)>, r: Seq<(WorkflowStatus, u64)>)
    requires
        sorted_counts(e, r),
    ensures
        r.len() == e.len(),
        forall|i: int, j: int| 0 <= i < j < r.len() ==> #[trigger] r[i].1 >= #[trigger] r[j].1,
{
    let p = choose|p: Seq<usize>| #[trigger] stable_order(count_keys_desc(e), p) && r.len() == p.len()
        && forall|j: int| 0 <= j < p.len() ==> r[j] == e[p[j] as int];
    assert forall|i: int, j: int| 0 <= i < j < r.len() implies #[trigger] r[i].1 >= #[trigger] r[j].1 by {
        let keys = count_keys_desc(e);
        assert(key_before(keys[p[i] as int] as int, p[i] as int, keys[p[j] as int] as int, p[j] as int));
        assert(r[i] == e[p[i] as int] && r[j] == e[p[j] as int]);
    }
}

/// The seven counts of a status-indexed function, added up.
pub open spec fn sum_over_statuses(f: spec_fn(WorkflowStatus) -> int) -> int {
    f(WorkflowStatus::Running) + f(WorkflowStatus::Completed) + f(WorkflowStatus::Failed)
        + f(WorkflowStatus::Canceled) + f(WorkflowStatus::Terminated) + f(WorkflowStatus::TimedOut)
        + f(WorkflowStatus::ContinuedAsNew)
}

/// Every workflow has exactly one status, so the status counts add up to
/// the number of workflows.
proof fn lemma_status_counts_add_up(ws: Seq<WorkflowSummary>)
    ensures
        sum_over_statuses(|s: WorkflowStatus| count_status(ws, s) as int) == ws.len(),
    decreases ws.len(),
{
    if ws.len() > 0 {
        lemma_status_counts_add_up(ws.drop_last());
    }
}

/// The entries of a count list with each status at most once add up to
/// the sum of the counts the map gives.
proof fn lemma_entries_add_up(e: Seq<(WorkflowStatus, u64)>)
    requires
        unique_statuses(e),
    ensures
        entries_sum(e) == sum_over_statuses(|s: WorkflowStatus| if entries_map(e).dom().contains(s) { entries_map(e)[s] as int } else { 0 }),
    decreases e.len(),
{
    if e.len() > 0 {
        let d = e.drop_last();
        assert(unique_statuses(d));
        lemma_entries_add_up(d);
        lemma_not_in_map(d, e.last().0);
    }
}

/// A status that no entry names is not in the map.
proof fn lemma_not_in_map(e: Seq<(WorkflowStatus, u64)>, s: WorkflowStatus)
    requires
        forall|i: int| 0 <= i < e.len() ==> e[i].0 != s,
    ensures
        !entries_map(e).dom().contains(s),
    decreases e.len(),
{
    if e.len() > 0 {
        lemma_not_in_map(e.drop_last(), s);
    }
}

/// Counts taken from a list of workflows add up to the number of
/// workflows.
pub proof fn law_counts_add_up(ws: Seq<WorkflowSummary>, c: StatusCounts)
    requires
        c.wf(),
        forall|s: WorkflowStatus| #[trigger] c.count_of(s) == count_status(ws, s),
    ensures
        c.sum() == ws.len(),
{
    lemma_entries_add_up(c.entries());
    lemma_status_counts_add_up(ws);
    assert(c.count_of(WorkflowStatus::Running) == count_status(ws, WorkflowStatus::Running));
    assert(c.count_of(WorkflowStatus::Completed) == count_status(ws, WorkflowStatus::Completed));
    assert(c.count_of(WorkflowStatus::Failed) == count_status(ws, WorkflowStatus::Failed));
    assert(c.count_of(WorkflowStatus::Canceled) == count_status(ws, WorkflowStatus::Canceled));
    assert(c.count_of(WorkflowStatus::Terminated) == count_status(ws, WorkflowStatus::Terminated));
    assert(c.count_of(WorkflowStatus::TimedOut) == count_status(ws, WorkflowStatus::TimedOut));
    assert(c.count_of(WorkflowStatus::ContinuedAsNew) == count_status(ws, WorkflowStatus::ContinuedAsNew));
}

/// In a pipe, an output equal to the last one passed on is not passed on
/// again, and the first output always is.
pub proof fn law_pipe_passes_changes_only(prev: Option<Seq<u8>>, out: Seq<u8>)
    ensures
        pipe_step(None, Ok(out)).0 == Some(out),
        ({
            let (e1, s1) = pipe_step(prev, Ok(out));
            let (e2, s2) = pipe_step(s1, Ok(out));
            e2 is None && s2 == s1 && s1 == Some(out)
        }),
        prev != Some(out) ==> pipe_step(prev, Ok(out)).0 == Some(out),
{
}

/// Adding candidates to a selection keeps it within `max` and free of
/// repeated workflow ids.
proof fn lemma_pick_bounded(ws: Seq<WorkflowSummary>, cand: Seq<int>, acc: Seq<int>, max: nat)
    requires
        acc.len() <= max,
        ids_at(ws, acc).no_duplicates(),
    ensures
        pick(ws, cand, acc, max).len() <= max,
        ids_at(ws, pick(ws, cand, acc, max)).no_duplicates(),
    decreases cand.len(),
{
    if cand.len() > 0 {
        lemma_pick_bounded(ws, cand.drop_last(), acc, max);
        let prev = pick(ws, cand.drop_last(), acc, max);
        let c = cand.last();
        if prev.len() < max && !ids_at(ws, prev).contains(ws[c].workflow_id@) {
            assert(ids_at(ws, prev.push(c)) =~= ids_at(ws, prev).push(ws[c].workflow_id@));
        }
    }
}

/// The workflows chosen for history sampling are never more than asked
/// for, and no workflow id is chosen twice.
pub proof fn law_sampling_bounded_and_distinct(ws: Seq<WorkflowSummary>, max: nat, order: Seq<usize>)
    ensures
        sampling(ws, max, order).len() <= max,
        ids_at(ws, sampling(ws, max, order)).no_duplicates(),
{
    let run = crate::insights::phase_positions(ws, 1, ws.len() as int);
    let e: Seq<int> = Seq::empty();
    assert(ids_at(ws, e) =~= Seq::<Seq<char>>::empty());
    let a1 = pick(ws, crate::insights::phase_positions(ws, 0, ws.len() as int), e, max);
    lemma_pick_bounded(ws, crate::insights::phase_positions(ws, 0, ws.len() as int), e, max);
    let a2 = pick(ws, order.map_values(|k: usize| run[k as int]), a1, max);
    lemma_pick_bounded(ws, order.map_values(|k: usize| run[k as int]), a1, max);
    lemma_pick_bounded(ws, crate::insights::phase_positions(ws, 2, ws.len() as int), a2, max);
}

/// The pieces that marked characters form are never empty when there is a
/// character.
proof fn lemma_regroup_nonempty(cs: Seq<(char, SpanStyle, bool)>)
    requires
        cs.len() > 0,
    ensures
        regroup(cs).len() > 0,
    decreases cs.len(),
{
    if cs.len() >= 2 {
        lemma_regroup_nonempty(cs.drop_last());
    }
}

/// The pieces that marked characters form hold exactly those characters.
proof fn lemma_regroup_text(cs: Seq<(char, SpanStyle, bool)>)
    ensures
        line_text(regroup(cs)) == cs.map_values(|x: (char, SpanStyle, bool)| x.0),
    decreases cs.len(),
{
    if cs.len() > 0 {
        let d = cs.drop_last();
        lemma_regroup_text(d);
        let g = regroup(d);
        let x = cs.last();
        assert(d.map_values(|y: (char, SpanStyle, bool)| y.0).push(x.0) =~= cs.map_values(|y: (char, SpanStyle, bool)| y.0));
        if cs.len() >= 2 && crate::json_lines::same_group(cs[cs.len() - 2], x) {
            lemma_regroup_nonempty(d);
            let u = g.update(g.len() - 1, (g.last().0.push(x.0), g.last().1));
            assert(u.drop_last() =~= g.drop_last());
            assert(line_text(g) == line_text(g.drop_last()) + g.last().0);
            assert(line_text(u) =~= line_text(g).push(x.0));
        } else {
            let u = g.push((seq![x.0], if x.2 { SpanStyle::Highlight } else { x.1 }));
            assert(u.drop_last() =~= g);
            assert(line_text(u) =~= line_text(g).push(x.0));
        }
    }
}

/// The characters of a line, with their styles dropped, are its text.
proof fn lemma_styled_text(l: Seq<(Seq<char>, SpanStyle)>)
    ensures
        styled_chars(l).map_values(|x: (char, SpanStyle)| x.0) == line_text(l),
    decreases l.len(),
{
    if l.len() > 0 {
        lemma_styled_text(l.drop_last());
        let t = l.last();
        assert(t.0.map_values(|c: char| (c, t.1)).map_values(|x: (char, SpanStyle)| x.0) =~= t.0);
        assert((styled_chars(l.drop_last()) + t.0.map_values(|c: char| (c, t.1))).map_values(|x: (char, SpanStyle)| x.0)
            =~= styled_chars(l.drop_last()).map_values(|x: (char, SpanStyle)| x.0) + t.0.map_values(|c: char| (c, t.1)).map_values(|x: (char, SpanStyle)| x.0));
    }
}

/// Search highlighting only restyles a line: its text stays as it was.
pub proof fn law_highlight_keeps_text(l: Seq<(Seq<char>, SpanStyle)>, q: Seq<char>)
    ensures
        line_text(highlighted_line(l, q)) == line_text(l),
{
    let m = marked(l, q);
    lemma_regroup_text(m);
    lemma_styled_text(l);
    assert(m.map_values(|x: (char, SpanStyle, bool)| x.0) =~= styled_chars(l).map_values(|x: (char, SpanStyle)| x.0));
}


/// `q` occurs at position `i` of `t` when letters are compared regardless
/// of ASCII case.
pub open spec fn occurs_ignoring_case_at(t: Seq<char>, q: Seq<char>, i: int) -> bool {
    0 <= i && i + q.len() <= t.len() && forall|k: int| 0 <= k < q.len() ==> ascii_lower(#[trigger] t[i + k]) == ascii_lower(q[k])
}

/// For ASCII text, a line matches a search exactly when the query occurs in
/// the line's text with letters compared regardless of case.
pub proof fn law_search_ignores_ascii_case(l: Seq<(Seq<char>, SpanStyle)>, q: Seq<char>)
    requires
        all_ascii(line_text(l)),
        all_ascii(q),
    ensures
        line_matches(l, lower_of(q)) <==> exists|i: int| #[trigger] occurs_ignoring_case_at(line_text(l), q, i),
{
    let t = line_text(l);
    let lt = t.map_values(|c: char| ascii_lower(c));
    let lq = q.map_values(|c: char| ascii_lower(c));
    assert(lower_of(t) == lt);
    assert(lower_of(q) == lq);
    if line_matches(l, lower_of(q)) {
        let i = choose|i: int| occurs_at(lt, lq, i);
        assert forall|k: int| 0 <= k < q.len() implies ascii_lower(#[trigger] t[i + k]) == ascii_lower(q[k]) by {
            assert(lt.subrange(i, i + lq.len())[k] == lq[k]);
        }
        assert(occurs_ignoring_case_at(t, q, i));
    }
    if exists|i: int| #[trigger] occurs_ignoring_case_at(t, q, i) {
        let i = choose|i: int| #[trigger] occurs_ignoring_case_at(t, q, i);
        assert forall|k: int| 0 <= k < lq.len() implies lt.subrange(i, i + lq.len())[k] == lq[k] by {
            assert(ascii_lower(t[i + k]) == ascii_lower(q[k]));
        }
        assert(lt.subrange(i, i + lq.len()) =~= lq);
        assert(occurs_at(lt, lq, i));
    }
}


/// Adding candidates only extends a selection.
proof fn lemma_pick_extends(ws: Seq<WorkflowSummary>, cand: Seq<int>, acc: Seq<int>, max: nat)
    ensures
        pick(ws, cand, acc, max).len() >= acc.len(),
        pick(ws, cand, acc, max).take(acc.len() as int) == acc,
    decreases cand.len(),
{
    if cand.len() > 0 {
        lemma_pick_extends(ws, cand.drop_last(), acc, max);
        let prev = pick(ws, cand.drop_last(), acc, max);
        assert(prev.push(cand.last()).take(acc.len() as int) =~= prev.take(acc.len() as int));
    }
}

/// Every id of a selection is still among the ids once candidates are added.
proof fn lemma_pick_keeps_ids(ws: Seq<WorkflowSummary>, cand: Seq<int>, acc: Seq<int>, max: nat, x: Seq<char>)
    requires
        ids_at(ws, acc).contains(x),
    ensures
        ids_at(ws, pick(ws, cand, acc, max)).contains(x),
{
    lemma_pick_extends(ws, cand, acc, max);
    let r = pick(ws, cand, acc, max);
    let k = choose|k: int| 0 <= k < ids_at(ws, acc).len() && ids_at(ws, acc)[k] == x;
    assert(r.take(acc.len() as int)[k] == acc[k]);
    assert(ids_at(ws, r)[k] == x);
}

/// A selection that stays below `max` holds the id of every candidate.
proof fn lemma_pick_fills(ws: Seq<WorkflowSummary>, cand: Seq<int>, acc: Seq<int>, max: nat)
    ensures
        pick(ws, cand, acc, max).len() < max ==> forall|k: int| 0 <= k < cand.len()
            ==> ids_at(ws, pick(ws, cand, acc, max)).contains(ws[#[trigger] cand[k]].workflow_id@),
    decreases cand.len(),
{
    if cand.len() > 0 {
        lemma_pick_fills(ws, cand.drop_last(), acc, max);
        let prev = pick(ws, cand.drop_last(), acc, max);
        let cur = pick(ws, cand, acc, max);
        let c = cand.last();
        if cur.len() < max {
            assert(prev.len() <= cur.len());
            assert forall|k: int| 0 <= k < cand.len() implies ids_at(ws, cur).contains(ws[#[trigger] cand[k]].workflow_id@) by {
                if k < cand.len() - 1 {
                    assert(cand.drop_last()[k] == cand[k]);
                    let x = ws[cand[k]].workflow_id@;
                    let m = choose|m: int| 0 <= m < ids_at(ws, prev).len() && ids_at(ws, prev)[m] == x;
                    if cur != prev {
                        assert(cur == prev.push(c));
                        assert(ids_at(ws, cur)[m] == x);
                    }
                } else if cur != prev {
                    assert(cur == prev.push(c));
                    assert(ids_at(ws, cur)[prev.len() as int] == ws[c].workflow_id@);
                }
            }
        }
    }
}

/// Every workflow in a phase is among that phase's positions.
proof fn lemma_phase_has(ws: Seq<WorkflowSummary>, phase: int, n: int, j: int)
    requires
        0 <= j < n,
        sample_phase(ws[j], phase),
    ensures
        exists|k: int| 0 <= k < phase_positions(ws, phase, n).len() && phase_positions(ws, phase, n)[k] == j,
    decreases n,
{
    let prev = phase_positions(ws, phase, n - 1);
    if j == n - 1 {
        assert(phase_positions(ws, phase, n) == prev.push(n - 1));
        assert(phase_positions(ws, phase, n)[prev.len() as int] == j);
    } else {
        lemma_phase_has(ws, phase, n - 1, j);
        let k = choose|k: int| 0 <= k < prev.len() && prev[k] == j;
        if sample_phase(ws[n - 1], phase) {
            assert(phase_positions(ws, phase, n) == prev.push(n - 1));
            assert(phase_positions(ws, phase, n)[k] == j);
        } else {
            assert(phase_positions(ws, phase, n) == prev);
        }
    }
}

/// When fewer workflows than asked for are chosen for history sampling,
/// none was left out: every failed, running and completed workflow has its
/// id among those chosen.
pub proof fn law_sampling_takes_all_when_short(ws: Seq<WorkflowSummary>, max: nat, order: Seq<usize>, j: int)
    requires
        stable_order(running_keys(ws, phase_positions(ws, 1, ws.len() as int)), order),
        sampling(ws, max, order).len() < max,
        0 <= j < ws.len(),
        is_failed_status(ws[j].status) || ws[j].status == WorkflowStatus::Running
            || ws[j].status == WorkflowStatus::Completed,
    ensures
        ids_at(ws, sampling(ws, max, order)).contains(ws[j].workflow_id@),
{
    let n = ws.len() as int;
    let run = phase_positions(ws, 1, n);
    let c1 = phase_positions(ws, 0, n);
    let c2 = order.map_values(|k: usize| run[k as int]);
    let c3 = phase_positions(ws, 2, n);
    let a1 = pick(ws, c1, Seq::empty(), max);
    let a2 = pick(ws, c2, a1, max);
    let a3 = pick(ws, c3, a2, max);
    let x = ws[j].workflow_id@;
    lemma_pick_extends(ws, c2, a1, max);
    lemma_pick_extends(ws, c3, a2, max);
    lemma_pick_fills(ws, c1, Seq::empty(), max);
    lemma_pick_fills(ws, c2, a1, max);
    lemma_pick_fills(ws, c3, a2, max);
    if is_failed_status(ws[j].status) {
        lemma_phase_has(ws, 0, n, j);
        let k = choose|k: int| 0 <= k < c1.len() && c1[k] == j;
        assert(ids_at(ws, a1).contains(ws[c1[k]].workflow_id@));
        lemma_pick_keeps_ids(ws, c2, a1, max, x);
        lemma_pick_keeps_ids(ws, c3, a2, max, x);
    } else if ws[j].status == WorkflowStatus::Running {
        lemma_phase_has(ws, 1, n, j);
        let r = choose|r: int| 0 <= r < run.len() && run[r] == j;
        lemma_stable_order_onto(running_keys(ws, run), order, r);
        let q = choose|q: int| 0 <= q < order.len() && order[q] as int == r;
        assert(c2[q] == j);
        assert(ids_at(ws, a2).contains(ws[c2[q]].workflow_id@));
        lemma_pick_keeps_ids(ws, c3, a2, max, x);
    } else {
        lemma_phase_has(ws, 2, n, j);
        let k = choose|k: int| 0 <= k < c3.len() && c3[k] == j;
        assert(ids_at(ws, a3).contains(ws[c3[k]].workflow_id@));
    }
}


/// The class of a workflow for history sampling: failed first, then
/// running, then completed.
pub open spec fn sample_class(w: WorkflowSummary) -> int {
    if is_failed_status(w.status) { 0 } else if w.status == WorkflowStatus::Running { 1 } else { 2 }
}

/// A workflow that history sampling may choose: failed, running or completed.
pub open spec fn sample_eligible(w: WorkflowSummary) -> bool {
    is_failed_status(w.status) || w.status == WorkflowStatus::Running || w.status == WorkflowStatus::Completed
}

/// The positions of a phase lie below `n`, increase, and are in the phase.
proof fn lemma_phase_sorted(ws: Seq<WorkflowSummary>, phase: int, n: int)
    ensures
        forall|k: int| 0 <= k < phase_positions(ws, phase, n).len() ==> 0 <= #[trigger] phase_positions(ws, phase, n)[k] < n
            && sample_phase(ws[phase_positions(ws, phase, n)[k]], phase),
        forall|a: int, b: int| 0 <= a < b < phase_positions(ws, phase, n).len()
            ==> phase_positions(ws, phase, n)[a] < phase_positions(ws, phase, n)[b],
    decreases n,
{
    if n > 0 {
        lemma_phase_sorted(ws, phase, n - 1);
        let prev = phase_positions(ws, phase, n - 1);
        if sample_phase(ws[n - 1], phase) {
            assert(phase_positions(ws, phase, n) == prev.push(n - 1));
        } else {
            assert(phase_positions(ws, phase, n) == prev);
        }
    }
}

/// The workflows `pick` adds come from the candidates, and keep an order
/// of a key that the candidates follow.
proof fn lemma_pick_sorted(ws: Seq<WorkflowSummary>, cand: Seq<int>, acc: Seq<int>, max: nat, key: spec_fn(int) -> int)
    requires
        forall|a: int, b: int| 0 <= a < b < cand.len() ==> key(cand[a]) <= key(cand[b]),
    ensures
        forall|k: int| acc.len() <= k < pick(ws, cand, acc, max).len() ==> cand.contains(#[trigger] pick(ws, cand, acc, max)[k]),
        forall|a: int, b: int| acc.len() <= a < b < pick(ws, cand, acc, max).len()
            ==> key(pick(ws, cand, acc, max)[a]) <= key(pick(ws, cand, acc, max)[b]),
    decreases cand.len(),
{
    if cand.len() > 0 {
        let c2 = cand.drop_last();
        lemma_pick_sorted(ws, c2, acc, max, key);
        lemma_pick_extends(ws, c2, acc, max);
        let prev = pick(ws, c2, acc, max);
        let r = pick(ws, cand, acc, max);
        let c = cand.last();
        assert forall|k: int| acc.len() <= k < prev.len() implies cand.contains(#[trigger] prev[k]) by {
            assert(c2.contains(prev[k]));
            let i = choose|i: int| 0 <= i < c2.len() && c2[i] == prev[k];
            assert(cand[i] == prev[k]);
        }
        if r != prev {
            assert(r == prev.push(c));
            assert forall|k: int| acc.len() <= k < r.len() implies cand.contains(#[trigger] r[k]) by {
                if k < prev.len() {
                    assert(r[k] == prev[k]);
                } else {
                    assert(cand[cand.len() - 1] == r[k]);
                }
            }
            assert forall|a: int, b: int| acc.len() <= a < b < r.len() implies key(r[a]) <= key(r[b]) by {
                if b == prev.len() {
                    assert(r[a] == prev[a]);
                    assert(c2.contains(prev[a]));
                    let i = choose|i: int| 0 <= i < c2.len() && c2[i] == prev[a];
                    assert(cand[i] == prev[a]);
                } else {
                    assert(r[a] == prev[a] && r[b] == prev[b]);
                }
            }
        }
    }
}

/// The workflows chosen for history sampling come failed ones first, in
/// list order; then running ones, oldest start first; then completed
/// ones, in list order. Each chosen one is failed, running or completed.
pub proof fn law_sampling_class_order(ws: Seq<WorkflowSummary>, max: nat, order: Seq<usize>)
    requires
        stable_order(running_keys(ws, phase_positions(ws, 1, ws.len() as int)), order),
    ensures
        ({
            let s = sampling(ws, max, order);
            &&& forall|k: int| 0 <= k < s.len() ==> 0 <= #[trigger] s[k] < ws.len() && sample_eligible(ws[s[k]])
            &&& forall|a: int, b: int| #![trigger s[a], s[b]] 0 <= a < b < s.len() ==> {
                let x = ws[s[a]];
                let y = ws[s[b]];
                &&& sample_class(x) <= sample_class(y)
                &&& sample_class(x) == sample_class(y) && sample_class(x) != 1 ==> s[a] < s[b]
                &&& sample_class(x) == 1 && sample_class(y) == 1 ==> x.start_time <= y.start_time
            }
        }),
{
    let n = ws.len() as int;
    let run = phase_positions(ws, 1, n);
    let c1 = phase_positions(ws, 0, n);
    let c2 = order.map_values(|k: usize| run[k as int]);
    let c3 = phase_positions(ws, 2, n);
    let e: Seq<int> = Seq::empty();
    let a1 = pick(ws, c1, e, max);
    let a2 = pick(ws, c2, a1, max);
    let a3 = pick(ws, c3, a2, max);
    lemma_phase_sorted(ws, 0, n);
    lemma_phase_sorted(ws, 1, n);
    lemma_phase_sorted(ws, 2, n);
    let by_index = |i: int| i;
    let by_start = |i: int| ws[i].start_time as int;
    assert forall|a: int, b: int| 0 <= a < b < c2.len() implies by_start(c2[a]) <= by_start(c2[b]) by {
        assert(key_before(running_keys(ws, run)[order[a] as int] as int, order[a] as int,
            running_keys(ws, run)[order[b] as int] as int, order[b] as int));
    }
    assert forall|q: int| 0 <= q < c2.len() implies 0 <= #[trigger] c2[q] < n && sample_phase(ws[c2[q]], 1) by {
        assert((order[q] as int) < run.len());
    }
    lemma_pick_sorted(ws, c1, e, max, by_index);
    lemma_pick_sorted(ws, c2, a1, max, by_start);
    lemma_pick_sorted(ws, c3, a2, max, by_index);
    lemma_pick_extends(ws, c2, a1, max);
    lemma_pick_extends(ws, c3, a2, max);
    assert forall|k: int| 0 <= k < a3.len() implies {
        &&& 0 <= #[trigger] a3[k] < n
        &&& (k < a1.len() ==> a3[k] == a1[k] && sample_phase(ws[a3[k]], 0))
        &&& (a1.len() <= k < a2.len() ==> a3[k] == a2[k] && sample_phase(ws[a3[k]], 1))
        &&& (a2.len() <= k ==> sample_phase(ws[a3[k]], 2))
    } by {
        if k < a2.len() {
            assert(a3.take(a2.len() as int)[k] == a3[k]);
            if k < a1.len() {
                assert(a2.take(a1.len() as int)[k] == a2[k]);
                assert(c1.contains(a1[k]));
                let i = choose|i: int| 0 <= i < c1.len() && c1[i] == a1[k];
            } else {
                assert(c2.contains(a2[k]));
                let i = choose|i: int| 0 <= i < c2.len() && c2[i] == a2[k];
            }
        } else {
            assert(c3.contains(a3[k]));
            let i = choose|i: int| 0 <= i < c3.len() && c3[i] == a3[k];
        }
    }
    assert forall|a: int, b: int| #![trigger a3[a], a3[b]] 0 <= a < b < a3.len() implies {
        let x = ws[a3[a]];
        let y = ws[a3[b]];
        &&& sample_class(x) <= sample_class(y)
        &&& sample_class(x) == sample_class(y) && sample_class(x) != 1 ==> a3[a] < a3[b]
        &&& sample_class(x) == 1 && sample_class(y) == 1 ==> x.start_time <= y.start_time
    } by {
        if b < a1.len() {
            assert(by_index(a1[a]) <= by_index(a1[b]));
            assert(a1[a] != a1[b]) by {
                assert(a1[a] == a1[b] ==> false) by {
                    if a1[a] == a1[b] {
                        lemma_pick_bounded(ws, c1, e, max);
                        assert(ids_at(ws, e) =~= Seq::<Seq<char>>::empty());
                        assert(ids_at(ws, a1)[a] == ids_at(ws, a1)[b]);
                    }
                }
            }
        } else if a1.len() <= a && b < a2.len() {
            assert(by_start(a2[a]) <= by_start(a2[b]));
        } else if a2.len() <= a {
            assert(by_index(a3[a]) <= by_index(a3[b]));
            assert(a3[a] != a3[b]) by {
                if a3[a] == a3[b] {
                    assert(ids_at(ws, e) =~= Seq::<Seq<char>>::empty());
                    lemma_pick_bounded(ws, c1, e, max);
                    lemma_pick_bounded(ws, c2, a1, max);
                    lemma_pick_bounded(ws, c3, a2, max);
                    assert(ids_at(ws, a3)[a] == ids_at(ws, a3)[b]);
                }
            }
        }
    }
}


/// The ids of the workflows that history sampling may choose (failed,
/// running or completed), each once, in order of first appearance.
pub open spec fn eligible_ids(ws: Seq<WorkflowSummary>) -> Seq<Seq<char>> {
    distinct(present(Seq::new(ws.len(), |i: int|
        if sample_eligible(ws[i]) { Some(ws[i].workflow_id@) } else { None })))
}

/// A sequence without repeats whose elements all lie in another one
/// without repeats is no longer than it.
proof fn lemma_nodup_within(a: Seq<Seq<char>>, b: Seq<Seq<char>>)
    requires
        a.no_duplicates(),
        b.no_duplicates(),
        forall|x: Seq<char>| a.contains(x) ==> b.contains(x),
    ensures
        a.len() <= b.len(),
{
    broadcast use vstd::seq_lib::seq_to_set_is_finite;
    a.unique_seq_to_set();
    b.unique_seq_to_set();
    assert(a.to_set().subset_of(b.to_set()));
    vstd::set_lib::lemma_len_subset(a.to_set(), b.to_set());
}

/// History sampling chooses as many workflows as asked for, or every
/// eligible workflow id when there are fewer: `min(max, |E|)` of them,
/// where `E` is the set of ids of failed, running and completed workflows.
pub proof fn law_sampling_count(ws: Seq<WorkflowSummary>, max: nat, order: Seq<usize>)
    requires
        stable_order(running_keys(ws, phase_positions(ws, 1, ws.len() as int)), order),
    ensures
        sampling(ws, max, order).len() == if max <= eligible_ids(ws).len() { max } else { eligible_ids(ws).len() },
{
    let s = sampling(ws, max, order);
    let ids = ids_at(ws, s);
    let keys = Seq::new(ws.len(), |i: int| if sample_eligible(ws[i]) { Some(ws[i].workflow_id@) } else { None });
    let e = eligible_ids(ws);
    law_sampling_bounded_and_distinct(ws, max, order);
    law_sampling_class_order(ws, max, order);
    lemma_distinct(present(keys));
    assert forall|x: Seq<char>| ids.contains(x) implies e.contains(x) by {
        let k = choose|k: int| 0 <= k < ids.len() && ids[k] == x;
        assert(0 <= s[k] < ws.len() && sample_eligible(ws[s[k]]));
        assert(keys[s[k]] == Some(x));
        lemma_present_has(keys, s[k]);
    }
    lemma_nodup_within(ids, e);
    if s.len() < max {
        assert forall|x: Seq<char>| e.contains(x) implies ids.contains(x) by {
            lemma_present_from(keys, x);
            let j = choose|j: int| 0 <= j < keys.len() && keys[j] == Some(x);
            law_sampling_takes_all_when_short(ws, max, order, j);
        }
        lemma_nodup_within(e, ids);
    }
}


/// The style a marked character shows: the highlight when marked, else its own.
pub open spec fn shown_style(x: (char, SpanStyle, bool)) -> (char, SpanStyle) {
    (x.0, if x.2 { SpanStyle::Highlight } else { x.1 })
}

/// The pieces that marked characters form show each character in its
/// shown style.
proof fn lemma_regroup_styles(cs: Seq<(char, SpanStyle, bool)>)
    ensures
        styled_chars(regroup(cs)) == cs.map_values(|x: (char, SpanStyle, bool)| shown_style(x)),
        cs.len() > 0 ==> regroup(cs).len() > 0 && regroup(cs).last().1 == shown_style(cs.last()).1,
    decreases cs.len(),
{
    if cs.len() > 0 {
        let d = cs.drop_last();
        lemma_regroup_styles(d);
        let g = regroup(d);
        let x = cs.last();
        assert(d.map_values(|y: (char, SpanStyle, bool)| shown_style(y)).push(shown_style(x))
            =~= cs.map_values(|y: (char, SpanStyle, bool)| shown_style(y)));
        if cs.len() >= 2 && crate::json_lines::same_group(cs[cs.len() - 2], x) {
            let t = g.last().0;
            let st = g.last().1;
            let u = g.update(g.len() - 1, (t.push(x.0), st));
            assert(u.drop_last() =~= g.drop_last());
            assert(d.last() == cs[cs.len() - 2]);
            assert(st == shown_style(x).1);
            assert(styled_chars(g) == styled_chars(g.drop_last()) + t.map_values(|c: char| (c, st)));
            assert(styled_chars(u) == styled_chars(u.drop_last()) + t.push(x.0).map_values(|c: char| (c, st)));
            assert(t.push(x.0).map_values(|c: char| (c, st)) =~= t.map_values(|c: char| (c, st)).push((x.0, st)));
            assert(styled_chars(u) =~= styled_chars(g).push(shown_style(x)));
        } else {
            let u = g.push((seq![x.0], shown_style(x).1));
            assert(u.drop_last() =~= g);
            assert(seq![x.0].map_values(|c: char| (c, shown_style(x).1)) =~= seq![shown_style(x)]);
            assert(styled_chars(u) =~= styled_chars(g).push(shown_style(x)));
        }
    }
}

/// Search highlighting shows exactly the characters that an occurrence of
/// the query covers (in the line's lower-cased text) in the highlight
/// style; every other character keeps its style. A line without a match is
/// left as it is.
pub proof fn law_highlight_styles(l: Seq<(Seq<char>, SpanStyle)>, q: Seq<char>)
    ensures
        line_matches(l, q) ==> styled_chars(highlighted_line(l, q)) == Seq::new(styled_chars(l).len(), |i: int|
            (styled_chars(l)[i].0, if covered(lower_of(line_text(l)), q, i) { SpanStyle::Highlight } else { styled_chars(l)[i].1 })),
        !line_matches(l, q) ==> highlighted_line(l, q) == l,
{
    let m = marked(l, q);
    lemma_regroup_styles(m);
    assert(m.map_values(|x: (char, SpanStyle, bool)| shown_style(x)) =~= Seq::new(styled_chars(l).len(), |i: int|
        (styled_chars(l)[i].0, if covered(lower_of(line_text(l)), q, i) { SpanStyle::Highlight } else { styled_chars(l)[i].1 })));
}

/// The lines a search lists are exactly the lines that match, in
/// increasing order.
pub proof fn law_match_indices(ls: Seq<Seq<(Seq<char>, SpanStyle)>>, q: Seq<char>)
    requires
        ls.len() <= usize::MAX,
    ensures
        forall|k: int| 0 <= k < matching_lines(ls, q).len() ==> (#[trigger] matching_lines(ls, q)[k]) < ls.len()
            && line_matches(ls[matching_lines(ls, q)[k] as int], q),
        forall|j: int| 0 <= j < ls.len() && line_matches(ls[j], q) ==> matching_lines(ls, q).contains(j as usize),
        forall|a: int, b: int| 0 <= a < b < matching_lines(ls, q).len() ==> matching_lines(ls, q)[a] < matching_lines(ls, q)[b],
    decreases ls.len(),
{
    if ls.len() > 0 {
        let d = ls.drop_last();
        law_match_indices(d, q);
        let p = matching_lines(d, q);
        let r = matching_lines(ls, q);
        let n = ls.len() - 1;
        if line_matches(ls.last(), q) {
            assert(r =~= p.push(n as usize));
        } else {
            assert(r =~= p);
        }
        assert forall|k: int| 0 <= k < r.len() implies (#[trigger] r[k]) < ls.len() && line_matches(ls[r[k] as int], q) by {
            if k < p.len() {
                assert(r[k] == p[k]);
                assert(d[p[k] as int] == ls[p[k] as int]);
            }
        }
        assert forall|j: int| 0 <= j < ls.len() && line_matches(ls[j], q) implies r.contains(j as usize) by {
            if j < n {
                assert(d[j] == ls[j]);
                let k = choose|k: int| 0 <= k < p.len() && p[k] == j as usize;
                assert(r[k] == j as usize);
            } else {
                assert(r[p.len() as int] == j as usize);
            }
        }
    }
}

} // verus!
