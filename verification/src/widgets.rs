//! What the terminal widgets show, apart from drawing: their settings, the
//! texts they format and the key hints of each view.

use vstd::prelude::*;
use crate::app::{LoadState, TypeStat};
use crate::mode::{InputMode, View as Screen};
use crate::picker::PickerState;
use crate::sampled::{one_decimal, push_one_decimal};
use crate::stats::StatusCounts;
use crate::status::{query_value_text, SortDirection, TypeListColumn, WorkflowStatus};
use crate::model::WorkflowDetail;
use crate::clock::{rfc3339_of, rfc3339_text};
use crate::text::{chars_of, dec, idec, push_chars, push_dec, push_idec, push_str, string_of, truncate_chars, truncated};

verus! {

/// A count as shown on the dashboard: in millions with one decimal and `M`
/// from a million on, in thousands with one decimal and `K` from a
/// thousand on, else in full.
pub open spec fn count_text(count: u64) -> Seq<char> {
    if count >= 1_000_000 {
        one_decimal(count as int, 1_000_000) + "M"@
    } else if count >= 1_000 {
        one_decimal(count as int, 1_000) + "K"@
    } else {
        dec(count as nat)
    }
}

/// Formats a count for display.
pub fn format_count(count: u64) -> (r: String)
    ensures
        r@ == count_text(count),
{
    let mut out: Vec<char> = Vec::new();
    if count >= 1_000_000 {
        push_one_decimal(&mut out, count as i128, 1_000_000);
        push_str(&mut out, "M");
    } else if count >= 1_000 {
        push_one_decimal(&mut out, count as i128, 1_000);
        push_str(&mut out, "K");
    } else {
        push_dec(&mut out, count);
    }
    assert(out@ =~= count_text(count));
    string_of(&out)
}

/// Cuts a text to `max_len` characters, marking a cut with `...`.
pub fn truncate_string(s: &str, max_len: usize) -> (r: String)
    ensures
        r@ == truncated(s@, max_len as nat),
{
    let cs = chars_of(s);
    string_of(&truncate_chars(&cs, max_len))
}

/// A title cut to `max_len` characters: when longer, its first
/// `max_len - 3` characters and `...` if there is room for them, else its
/// first `max_len` characters.
pub open spec fn title_cut(s: Seq<char>, max_len: nat) -> Seq<char> {
    if s.len() <= max_len {
        s
    } else if max_len > 3 {
        s.take(max_len - 3) + "..."@
    } else {
        s.take(max_len as int)
    }
}

/// Cuts a title to `max_len` characters.
pub fn truncate_title(s: &str, max_len: usize) -> (r: String)
    ensures
        r@ == title_cut(s@, max_len as nat),
{
    let cs = chars_of(s);
    if cs.len() <= max_len {
        return string_of(&cs);
    }
    let keep: usize = if max_len > 3 { max_len - 3 } else { max_len };
    let mut out: Vec<char> = Vec::new();
    let mut i: usize = 0;
    while i < keep
        invariant
            keep <= cs@.len(),
            i <= keep,
            out@ == cs@.take(i as int),
        decreases keep - i,
    {
        out.push(cs[i]);
        assert(out@ =~= cs@.take(i + 1));
        i = i + 1;
    }
    if max_len > 3 {
        push_str(&mut out, "...");
    }
    assert(out@ =~= title_cut(s@, max_len as nat));
    string_of(&out)
}

/// A duration in milliseconds as a short text: milliseconds below a
/// second, seconds with tenths below a minute, minutes and seconds below
/// an hour, else hours and minutes (zero parts left out).
pub open spec fn duration_text(ms: int) -> Seq<char> {
    let secs = if ms >= 0 { ms / 1000 } else { -((-ms) / 1000) };
    let millis = ms - secs * 1000;
    if secs == 0 {
        idec(millis) + "ms"@
    } else if secs < 60 {
        if millis > 0 { idec(secs) + "."@ + idec(millis / 100) + "s"@ } else { idec(secs) + "s"@ }
    } else if secs < 3600 {
        let m = secs / 60;
        let s = secs % 60;
        if s > 0 { idec(m) + "m "@ + idec(s) + "s"@ } else { idec(m) + "m"@ }
    } else {
        let h = secs / 3600;
        let m = (secs % 3600) / 60;
        if m > 0 { idec(h) + "h "@ + idec(m) + "m"@ } else { idec(h) + "h"@ }
    }
}

/// Formats a duration given in milliseconds.
pub fn format_duration(ms: i64) -> (r: String)
    ensures
        r@ == duration_text(ms as int),
{
    let wide: i128 = ms as i128;
    let secs_w: i128 = if wide >= 0 { wide / 1000 } else { -((-wide) / 1000) };
    let millis_w: i128 = wide - secs_w * 1000;
    assert(-10_000_000_000_000_000 < secs_w < 10_000_000_000_000_000);
    assert(-1000 < millis_w < 1000);
    let secs: i64 = secs_w as i64;
    let millis: i64 = millis_w as i64;
    let mut out: Vec<char> = Vec::new();
    if secs == 0 {
        push_idec(&mut out, millis);
        push_str(&mut out, "ms");
    } else if secs < 60 {
        push_idec(&mut out, secs);
        if millis > 0 {
            push_str(&mut out, ".");
            push_idec(&mut out, millis / 100);
        }
        push_str(&mut out, "s");
    } else if secs < 3600 {
        push_idec(&mut out, secs / 60);
        if secs % 60 > 0 {
            push_str(&mut out, "m ");
            push_idec(&mut out, secs % 60);
            push_str(&mut out, "s");
        } else {
            push_str(&mut out, "m");
        }
    } else {
        push_idec(&mut out, secs / 3600);
        if (secs % 3600) / 60 > 0 {
            push_str(&mut out, "h ");
            push_idec(&mut out, (secs % 3600) / 60);
            push_str(&mut out, "m");
        } else {
            push_str(&mut out, "h");
        }
    }
    assert(out@ =~= duration_text(ms as int));
    string_of(&out)
}

/// How long ago `start` was at `now`: `future`, whole days, hours or
/// minutes with ` ago`, or `just now`.
pub open spec fn since_text(start: i64, now: i64) -> Seq<char> {
    if start > now {
        "future"@
    } else {
        let d = now - start;
        if d / 86_400_000 > 0 {
            dec((d / 86_400_000) as nat) + "d ago"@
        } else if d / 3_600_000 > 0 {
            dec((d / 3_600_000) as nat) + "h ago"@
        } else if d / 60_000 > 0 {
            dec((d / 60_000) as nat) + "m ago"@
        } else {
            "just now"@
        }
    }
}

/// Formats how long ago `start` was at time `now`.
pub fn format_duration_since_at(start: i64, now: i64) -> (r: String)
    requires
        crate::model::time_ok(start),
        crate::model::time_ok(now),
    ensures
        r@ == since_text(start, now),
{
    if start > now {
        return "future".to_owned();
    }
    let d = now - start;
    let mut out: Vec<char> = Vec::new();
    if d / 86_400_000 > 0 {
        push_dec(&mut out, (d / 86_400_000) as u64);
        push_str(&mut out, "d ago");
    } else if d / 3_600_000 > 0 {
        push_dec(&mut out, (d / 3_600_000) as u64);
        push_str(&mut out, "h ago");
    } else if d / 60_000 > 0 {
        push_dec(&mut out, (d / 60_000) as u64);
        push_str(&mut out, "m ago");
    } else {
        return "just now".to_owned();
    }
    assert(out@ =~= since_text(start, now));
    string_of(&out)
}

/// Formats how long ago `start` was, now.
pub fn format_duration_since(start: i64) -> (r: String)
    requires
        crate::model::time_ok(start),
    ensures
        exists|now: i64| crate::model::time_ok(now) && r@ == #[trigger] since_text(start, now),
{
    let now = crate::clock::now_ms();
    let r = format_duration_since_at(start, now);
    assert(r@ == since_text(start, now));
    r
}

/// The filter input bar: what was typed, whether it has the focus,
/// whether it takes a date, and the active date range's label.
pub struct FilterInput<'a> {
    pub input: &'a str,
    pub is_active: bool,
    pub is_date_mode: bool,
    pub date_label: Option<&'a str>,
}

impl<'a> FilterInput<'a> {
    /// An inactive bar showing `input`.
    pub fn new(input: &'a str) -> (r: FilterInput<'a>)
        ensures
            r.input == input && !r.is_active && !r.is_date_mode && r.date_label is None,
    {
        FilterInput { input, is_active: false, is_date_mode: false, date_label: None }
    }

    /// The bar with the focus set.
    pub fn active(self, is_active: bool) -> (r: FilterInput<'a>)
        ensures
            r == (FilterInput { is_active, ..self }),
    {
        FilterInput { is_active, ..self }
    }

    /// The bar taking a date or not.
    pub fn date_mode(self, is_date_mode: bool) -> (r: FilterInput<'a>)
        ensures
            r == (FilterInput { is_date_mode, ..self }),
    {
        FilterInput { is_date_mode, ..self }
    }

    /// The bar with a date-range label.
    pub fn date_label(self, label: Option<&'a str>) -> (r: FilterInput<'a>)
        ensures
            r == (FilterInput { date_label: label, ..self }),
    {
        FilterInput { date_label: label, ..self }
    }
}

/// The key hints shown at the bottom of the screen.
pub struct HelpBar {
    pub shortcuts: Vec<(&'static str, &'static str)>,
}

/// The key hints of a view in an input mode, as (key, meaning) texts.
pub open spec fn hints(view: Screen, mode: InputMode) -> Seq<(Seq<char>, Seq<char>)> {
    match (view, mode) {
        (_, InputMode::FilterInput) | (_, InputMode::DateRangeCustom) =>
            seq![("Enter"@, "Apply"@), ("Esc"@, "Cancel"@)],
        (_, InputMode::DateRangeSelect) => seq![
            ("1"@, "1h"@), ("2"@, "6h"@), ("3"@, "24h"@), ("4"@, "3d"@), ("5"@, "7d"@), ("6"@, "30d"@),
            ("0"@, "Clear"@), ("c"@, "Custom"@), ("Esc"@, "Cancel"@),
        ],
        (Screen::WorkflowList, InputMode::SortSelect) => seq![
            ("s"@, "Status"@), ("t"@, "Type"@), ("w"@, "Workflow ID"@), ("d"@, "Date"@), ("Esc"@, "Cancel"@),
        ],
        (Screen::TypeList, InputMode::SortSelect) => seq![
            ("t"@, "Type"@), ("n"@, "Total"@), ("1-7"@, "Status col"@), ("Esc"@, "Cancel"@),
        ],
        (Screen::WorkflowList, _) => seq![
            ("j/k"@, "Navigate"@), ("Enter"@, "Details"@), ("d"@, "Date"@), ("s"@, "Sort"@), ("T"@, "Types"@),
            ("/"@, "Filter"@), ("1-7"@, "Status"@), ("r"@, "Refresh"@), ("?"@, "Help"@),
        ],
        (Screen::TypeList, _) => seq![
            ("j/k"@, "Navigate"@), ("Enter"@, "Select"@), ("d"@, "Date"@), ("s"@, "Sort"@), ("/"@, "Search"@),
            ("Esc"@, "Back"@), ("?"@, "Help"@),
        ],
        (Screen::WorkflowDetail, _) => seq![
            ("Esc"@, "Back"@), ("c"@, "Cancel"@), ("t"@, "Terminate"@), ("r"@, "Refresh"@), ("q"@, "Quit"@),
        ],
        _ => seq![("j/k"@, "Navigate"@), ("Esc"@, "Back"@), ("r"@, "Refresh"@), ("?"@, "Help"@)],
    }
}

/// The hint texts of a list of shortcuts.
pub open spec fn hint_texts(v: Seq<(&'static str, &'static str)>) -> Seq<(Seq<char>, Seq<char>)> {
    v.map_values(|p: (&'static str, &'static str)| (p.0@, p.1@))
}

impl HelpBar {
    /// The key hints of a view in an input mode.
    pub fn for_view(view: Screen, input_mode: InputMode) -> (r: HelpBar)
        ensures
            hint_texts(r.shortcuts@) == hints(view, input_mode),
    {
        let shortcuts: Vec<(&'static str, &'static str)> = match (view, input_mode) {
            (_, InputMode::FilterInput) | (_, InputMode::DateRangeCustom) =>
                vec![("Enter", "Apply"), ("Esc", "Cancel")],
            (_, InputMode::DateRangeSelect) => vec![
                ("1", "1h"), ("2", "6h"), ("3", "24h"), ("4", "3d"), ("5", "7d"), ("6", "30d"),
                ("0", "Clear"), ("c", "Custom"), ("Esc", "Cancel"),
            ],
            (Screen::WorkflowList, InputMode::SortSelect) => vec![
                ("s", "Status"), ("t", "Type"), ("w", "Workflow ID"), ("d", "Date"), ("Esc", "Cancel"),
            ],
            (Screen::TypeList, InputMode::SortSelect) => vec![
                ("t", "Type"), ("n", "Total"), ("1-7", "Status col"), ("Esc", "Cancel"),
            ],
            (Screen::WorkflowList, _) => vec![
                ("j/k", "Navigate"), ("Enter", "Details"), ("d", "Date"), ("s", "Sort"), ("T", "Types"),
                ("/", "Filter"), ("1-7", "Status"), ("r", "Refresh"), ("?", "Help"),
            ],
            (Screen::TypeList, _) => vec![
                ("j/k", "Navigate"), ("Enter", "Select"), ("d", "Date"), ("s", "Sort"), ("/", "Search"),
                ("Esc", "Back"), ("?", "Help"),
            ],
            (Screen::WorkflowDetail, _) => vec![
                ("Esc", "Back"), ("c", "Cancel"), ("t", "Terminate"), ("r", "Refresh"), ("q", "Quit"),
            ],
            _ => vec![("j/k", "Navigate"), ("Esc", "Back"), ("r", "Refresh"), ("?", "Help")],
        };
        assert(hint_texts(shortcuts@) =~= hints(view, input_mode));
        HelpBar { shortcuts }
    }
}

/// The full help screen.
pub struct HelpOverlay;

/// The picker overlay of a picker state.
pub struct PickerWidget<'a> {
    pub state: &'a PickerState,
}

impl<'a> PickerWidget<'a> {
    /// The overlay of `state`.
    pub fn new(state: &'a PickerState) -> (r: PickerWidget<'a>)
        ensures
            r.state == state,
    {
        PickerWidget { state }
    }
}

/// The status dashboard: the counts, the selected status, and the count of
/// workflows with failed activities (with whether it is selected and
/// whether the scan for it runs).
pub struct StatusDashboard<'a> {
    pub counts: &'a LoadState<StatusCounts>,
    pub selected_status: Option<WorkflowStatus>,
    pub activity_fail_count: Option<u64>,
    pub activity_fail_selected: bool,
    pub activity_fail_scanning: bool,
}

impl<'a> StatusDashboard<'a> {
    /// A dashboard of `counts` with nothing selected.
    pub fn new(counts: &'a LoadState<StatusCounts>) -> (r: StatusDashboard<'a>)
        ensures
            r.counts == counts && r.selected_status is None && r.activity_fail_count is None
                && !r.activity_fail_selected && !r.activity_fail_scanning,
    {
        StatusDashboard {
            counts,
            selected_status: None,
            activity_fail_count: None,
            activity_fail_selected: false,
            activity_fail_scanning: false,
        }
    }

    /// The dashboard with a status selected.
    pub fn selected(self, status: Option<WorkflowStatus>) -> (r: StatusDashboard<'a>)
        ensures
            r == (StatusDashboard { selected_status: status, ..self }),
    {
        StatusDashboard { selected_status: status, ..self }
    }

    /// The dashboard with the failed-activity count set.
    pub fn activity_fail(self, count: Option<u64>, selected: bool, scanning: bool) -> (r: StatusDashboard<'a>)
        ensures
            r == (StatusDashboard {
                activity_fail_count: count,
                activity_fail_selected: selected,
                activity_fail_scanning: scanning,
                ..self
            }),
    {
        StatusDashboard {
            activity_fail_count: count,
            activity_fail_selected: selected,
            activity_fail_scanning: scanning,
            ..self
        }
    }
}

/// The table of workflow types: the rows, the sort order, the date-range
/// label, the type-name filter and the rows a search keeps.
pub struct TypeListWidget<'a> {
    pub type_stats: &'a LoadState<Vec<TypeStat>>,
    pub sort: &'a Option<(TypeListColumn, SortDirection)>,
    pub date_label: Option<&'a str>,
    pub name_filter: Option<&'a str>,
    pub filtered_indices: Option<&'a [usize]>,
}

/// The title of the type table with `n` rows shown.
pub open spec fn type_list_title(n: nat, date_label: Option<Seq<char>>, name_filter: Option<Seq<char>>) -> Seq<char> {
    let parts: Seq<Seq<char>> = (match date_label {
        Some(l) => seq!["since:"@ + l],
        None => Seq::empty(),
    }) + (match name_filter {
        Some(f) => if f.len() > 0 { seq!["name:"@ + f + "*"@] } else { Seq::empty() },
        None => Seq::empty(),
    });
    let head = "Workflow Types ("@ + dec(n) + ")"@;
    if parts.len() == 0 { head } else { head + " - "@ + crate::text::join_seq(parts, ", "@) }
}

impl<'a> TypeListWidget<'a> {
    /// A table of `type_stats` in the sort order `sort`.
    pub fn new(type_stats: &'a LoadState<Vec<TypeStat>>, sort: &'a Option<(TypeListColumn, SortDirection)>) -> (r: TypeListWidget<'a>)
        ensures
            r.type_stats == type_stats && r.sort == sort && r.date_label is None && r.name_filter is None
                && r.filtered_indices is None,
    {
        TypeListWidget { type_stats, sort, date_label: None, name_filter: None, filtered_indices: None }
    }

    /// The table with a date-range label.
    pub fn date_label(self, label: Option<&'a str>) -> (r: TypeListWidget<'a>)
        ensures
            r == (TypeListWidget { date_label: label, ..self }),
    {
        TypeListWidget { date_label: label, ..self }
    }

    /// The table with a type-name filter.
    pub fn name_filter(self, filter: Option<&'a str>) -> (r: TypeListWidget<'a>)
        ensures
            r == (TypeListWidget { name_filter: filter, ..self }),
    {
        TypeListWidget { name_filter: filter, ..self }
    }

    /// The table keeping only the given rows.
    pub fn filtered_indices(self, indices: Option<&'a [usize]>) -> (r: TypeListWidget<'a>)
        ensures
            r == (TypeListWidget { filtered_indices: indices, ..self }),
    {
        TypeListWidget { filtered_indices: indices, ..self }
    }

    /// The title with `display_count` rows shown.
    pub fn build_title(&self, display_count: usize) -> (r: String)
        ensures
            r@ == type_list_title(display_count as nat,
                match self.date_label { Some(l) => Some(l@), None => None },
                match self.name_filter { Some(f) => Some(f@), None => None }),
    {
        let mut parts: Vec<Vec<char>> = Vec::new();
        match self.date_label {
            Some(l) => {
                let mut p: Vec<char> = chars_of("since:");
                push_str(&mut p, l);
                parts.push(p);
            },
            None => {},
        }
        match self.name_filter {
            Some(f) => {
                if !f.is_empty() {
                    let mut p: Vec<char> = chars_of("name:");
                    push_str(&mut p, f);
                    push_str(&mut p, "*");
                    parts.push(p);
                }
            },
            None => {},
        }
        let mut title: Vec<char> = chars_of("Workflow Types (");
        push_dec(&mut title, display_count as u64);
        push_str(&mut title, ")");
        if parts.len() > 0 {
            push_str(&mut title, " - ");
            let joined = crate::text::join(&parts, ", ");
            push_chars(&mut title, &joined);
        }
        let ghost dl = match self.date_label { Some(l) => Some(l@), None => None };
        let ghost nf = match self.name_filter { Some(f) => Some(f@), None => None };
        let ghost expected: Seq<Seq<char>> = (match dl {
            Some(l) => seq!["since:"@ + l],
            None => Seq::empty(),
        }) + (match nf {
            Some(f) => if f.len() > 0 { seq!["name:"@ + f + "*"@] } else { Seq::empty() },
            None => Seq::empty(),
        });
        assert(parts@.map_values(|p: Vec<char>| p@) =~= expected);
        assert(title@ =~= type_list_title(display_count as nat, dl, nf));
        string_of(&title)
    }
}

/// The metadata rows of a workflow's detail view: id, run, type, status,
/// task queue, start and close times (RFC 3339; `(running)` while open) and
/// the history length.
pub open spec fn metadata_of(d: WorkflowDetail) -> Seq<(Seq<char>, Seq<char>)> {
    seq![
        ("Workflow ID"@, d.summary.workflow_id@),
        ("Run ID"@, d.summary.run_id@),
        ("Type"@, d.summary.workflow_type@),
        ("Status"@, query_value_text(d.summary.status)),
        ("Task Queue"@, d.summary.task_queue@),
        ("Started"@, rfc3339_text(d.summary.start_time)),
        ("Closed"@, match d.summary.close_time {
            Some(t) => rfc3339_text(t),
            None => "(running)"@,
        }),
        ("History Events"@, dec(d.history_length as nat)),
    ]
}

/// The metadata rows of a workflow's detail view.
pub fn format_metadata(detail: &WorkflowDetail) -> (r: Vec<(String, String)>)
    ensures
        r@.map_values(|p: (String, String)| (p.0@, p.1@)) == metadata_of(*detail),
{
    let mut h: Vec<char> = Vec::new();
    push_dec(&mut h, detail.history_length);
    let r = vec![
        ("Workflow ID".to_owned(), detail.summary.workflow_id.clone()),
        ("Run ID".to_owned(), detail.summary.run_id.clone()),
        ("Type".to_owned(), detail.summary.workflow_type.clone()),
        ("Status".to_owned(), detail.summary.status.as_query_value().to_owned()),
        ("Task Queue".to_owned(), detail.summary.task_queue.clone()),
        ("Started".to_owned(), rfc3339_of(detail.summary.start_time)),
        ("Closed".to_owned(), match detail.summary.close_time {
            Some(t) => rfc3339_of(t),
            None => "(running)".to_owned(),
        }),
        ("History Events".to_owned(), string_of(&h)),
    ];
    assert(r@.map_values(|p: (String, String)| (p.0@, p.1@)) =~= metadata_of(*detail));
    r
}


/// The first row a table shows in a viewport of `height` rows, given the
/// first row it showed before and the selected row: the view scrolls just
/// enough to bring the selection into it.
pub fn viewport_offset(selected: usize, offset: usize, height: usize) -> (r: usize)
    ensures
        r == (if selected < offset {
            selected as int
        } else if height > 0 && selected >= offset + height {
            selected - (height - 1)
        } else {
            offset as int
        }),
        height > 0 ==> r <= selected < r + height,
{
    if selected < offset {
        selected
    } else if height > 0 && selected - offset >= height {
        selected - (height - 1)
    } else {
        offset
    }
}

} // verus!
