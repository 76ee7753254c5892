//! Where the log files live: under `.tempurview/logs` in the home
//! directory, which the caller looks up.

use vstd::prelude::*;
use crate::order::{stable_order, stable_order_asc};
use crate::text::{chars_of, contains, contains_seq, dec, lines_of, occurs_at_exec, push_chars, push_dec, push_str, split_lines, starts_with_seq, ends_with_seq, string_of, views};

verus! {

/// Why logging could not be set up.
#[derive(Debug, Clone)]
pub enum LoggingError {
    NoHomeDir,
    CreateDir(String),
}

/// The configuration directory under a home directory.
pub open spec fn config_dir_text(home: Seq<char>) -> Seq<char> {
    home + "/.tempurview"@
}

/// The configuration directory, `.tempurview` in the home directory.
pub fn config_dir(home: Option<&str>) -> (r: Option<String>)
    ensures
        match home {
            Some(h) => r matches Some(d) && d@ == config_dir_text(h@),
            None => r is None,
        },
{
    match home {
        Some(h) => {
            let mut p = chars_of(h);
            push_str(&mut p, "/.tempurview");
            Some(string_of(&p))
        },
        None => None,
    }
}

/// The logs directory, `logs` in the configuration directory.
pub fn logs_dir(home: Option<&str>) -> (r: Option<String>)
    ensures
        match home {
            Some(h) => r matches Some(d) && d@ == config_dir_text(h@) + "/logs"@,
            None => r is None,
        },
{
    match config_dir(home) {
        Some(c) => {
            let mut p = chars_of(c.as_str());
            push_str(&mut p, "/logs");
            Some(string_of(&p))
        },
        None => None,
    }
}

/// The name of the log file of a run started at the given time stamp.
pub fn log_file_name(timestamp: &str) -> (r: String)
    ensures
        r@ == "tempurview."@ + timestamp@ + ".log"@,
{
    let mut p = chars_of("tempurview.");
    push_str(&mut p, timestamp);
    push_str(&mut p, ".log");
    string_of(&p)
}

/// The log file of the run started at `timestamp` (the local start time
/// written `%Y-%m-%dT%H-%M-%S`): `tempurview.<timestamp>.log` in the logs
/// directory. Each run writes its own file.
pub fn current_log_file(home: Option<&str>, timestamp: &str) -> (r: Option<String>)
    ensures
        match home {
            Some(h) => r matches Some(d) && d@ == config_dir_text(h@) + "/logs"@ + "/"@
                + ("tempurview."@ + timestamp@ + ".log"@),
            None => r is None,
        },
{
    match logs_dir(home) {
        Some(l) => {
            let mut p = chars_of(l.as_str());
            push_str(&mut p, "/");
            push_str(&mut p, log_file_name(timestamp).as_str());
            Some(string_of(&p))
        },
        None => None,
    }
}

/// A file found in the logs directory: its name, when it was last changed
/// (milliseconds since the epoch, when known) and its size in bytes.
#[derive(Debug)]
pub struct LogFile {
    pub name: String,
    pub modified: Option<i64>,
    pub size: u64,
}

/// The file is a log file of this program: `tempurview.` followed by the
/// run's time stamp and `.log`.
pub open spec fn is_log_file(f: LogFile) -> bool {
    starts_with_seq(f.name@, "tempurview."@) && ends_with_seq(f.name@, ".log"@)
}

/// The log files among directory entries, in their order.
pub open spec fn log_entries(es: Seq<LogFile>) -> Seq<LogFile> {
    es.filter(|f: LogFile| is_log_file(f))
}

/// The sort key of a log file: the newest first, files of unknown age last.
pub open spec fn log_key(f: LogFile) -> i128 {
    match f.modified {
        Some(t) => -(t as int) as i128,
        None => i128::MAX,
    }
}

/// The sort keys of files.
pub open spec fn log_keys(fs: Seq<LogFile>) -> Seq<i128> {
    fs.map_values(|f: LogFile| log_key(f))
}

/// A copy of a log file entry.
fn copy_log_file(f: &LogFile) -> (r: LogFile)
    ensures
        r == *f,
{
    LogFile { name: f.name.clone(), modified: f.modified, size: f.size }
}

/// The log files among the entries of the logs directory, newest first;
/// files whose age is unknown come last, and files of equal age keep their
/// order.
pub fn log_files(entries: &Vec<LogFile>) -> (r: Vec<LogFile>)
    ensures
        exists|p: Seq<usize>| #[trigger] stable_order(log_keys(log_entries(entries@)), p)
            && r@.len() == p.len()
            && forall|k: int| 0 <= k < p.len() ==> r@[k] == log_entries(entries@)[p[k] as int],
{
    let ghost keep = |f: LogFile| is_log_file(f);
    let prefix = chars_of("tempurview.");
    let mut kept: Vec<LogFile> = Vec::new();
    let mut i: usize = 0;
    while i < entries.len()
        invariant
            keep == (|f: LogFile| is_log_file(f)),
            prefix@ == "tempurview."@,
            i <= entries@.len(),
            kept@ == entries@.take(i as int).filter(keep),
        decreases entries.len() - i,
    {
        proof {
            assert(entries@.take(i + 1).drop_last() =~= entries@.take(i as int));
            assert(entries@.take(i + 1).last() == entries@[i as int]);
            reveal(Seq::filter);
        }
        let name = chars_of(entries[i].name.as_str());
        if occurs_at_exec(&name, &prefix, 0) && crate::text::ends_with(&name, ".log") {
            kept.push(copy_log_file(&entries[i]));
        }
        i = i + 1;
    }
    assert(entries@.take(entries@.len() as int) =~= entries@);
    assert(kept@ == log_entries(entries@));
    let mut keys: Vec<i128> = Vec::new();
    let mut k: usize = 0;
    while k < kept.len()
        invariant
            k <= kept@.len(),
            keys@ == log_keys(kept@.take(k as int)),
        decreases kept.len() - k,
    {
        let key: i128 = match kept[k].modified {
            Some(t) => -(t as i128),
            None => i128::MAX,
        };
        keys.push(key);
        assert(log_keys(kept@.take(k + 1)) =~= log_keys(kept@.take(k as int)).push(log_key(kept@[k as int])));
        k = k + 1;
    }
    assert(kept@.take(kept@.len() as int) =~= kept@);
    let p = stable_order_asc(&keys);
    let mut r: Vec<LogFile> = Vec::new();
    let mut j: usize = 0;
    while j < p.len()
        invariant
            stable_order(keys@, p@),
            keys@.len() == kept@.len(),
            j <= p@.len(),
            r@.len() == j,
            forall|x: int| 0 <= x < j ==> r@[x] == kept@[p@[x] as int],
        decreases p.len() - j,
    {
        r.push(copy_log_file(&kept[p[j]]));
        j = j + 1;
    }
    r
}

/// The lines listing log files: at most five, each with its size, and how
/// many more there are; a note when there is none.
pub open spec fn listing_text(fs: Seq<LogFile>) -> Seq<Seq<char>> {
    if fs.len() == 0 {
        seq!["  (no log files yet)"@]
    } else {
        Seq::new(if fs.len() < 5 { fs.len() } else { 5 }, |i: int| "  "@ + fs[i].name@ + " ("@ + dec(fs[i].size as nat) + " bytes)"@)
            + if fs.len() > 5 { seq!["  ... and "@ + dec((fs.len() - 5) as nat) + " more"@] } else { Seq::empty() }
    }
}

/// Lists log files (newest first, as `log_files` gives them).
pub fn log_listing(files: &Vec<LogFile>) -> (r: Vec<String>)
    ensures
        r@.map_values(|s: String| s@) == listing_text(files@),
{
    let ghost want = listing_text(files@);
    let mut r: Vec<String> = Vec::new();
    if files.len() == 0 {
        r.push("  (no log files yet)".to_owned());
        assert(r@.map_values(|s: String| s@) =~= want);
        return r;
    }
    let shown: usize = if files.len() < 5 { files.len() } else { 5 };
    let mut i: usize = 0;
    while i < shown
        invariant
            shown == (if files@.len() < 5 { files@.len() } else { 5 }),
            files@.len() > 0,
            i <= shown,
            r@.map_values(|s: String| s@) == Seq::new(i as nat, |k: int| "  "@ + files@[k].name@ + " ("@
                + dec(files@[k].size as nat) + " bytes)"@),
        decreases shown - i,
    {
        let mut t: Vec<char> = Vec::new();
        push_str(&mut t, "  ");
        push_str(&mut t, files[i].name.as_str());
        push_str(&mut t, " (");
        push_dec(&mut t, files[i].size);
        push_str(&mut t, " bytes)");
        let ghost before = r@;
        let line = string_of(&t);
        assert(line@ == "  "@ + files@[i as int].name@ + " ("@ + dec(files@[i as int].size as nat) + " bytes)"@);
        r.push(line);
        assert(r@.map_values(|s: String| s@) =~= before.map_values(|s: String| s@).push(line@));
        assert(r@.map_values(|s: String| s@) =~= Seq::new((i + 1) as nat, |k: int| "  "@ + files@[k].name@ + " ("@
            + dec(files@[k].size as nat) + " bytes)"@));
        i = i + 1;
    }
    if files.len() > 5 {
        let mut t: Vec<char> = Vec::new();
        push_str(&mut t, "  ... and ");
        push_dec(&mut t, (files.len() - 5) as u64);
        push_str(&mut t, " more");
        r.push(string_of(&t));
    }
    assert(r@.map_values(|s: String| s@) =~= want);
    r
}

/// The error lines of a log's text: its lines that contain `ERROR`, the
/// last ten of them, the latest first.
pub open spec fn error_lines_text(content: Seq<char>) -> Seq<Seq<char>> {
    let errs = lines_of(content).filter(|l: Seq<char>| contains_seq(l, "ERROR"@));
    let n = if errs.len() < 10 { errs.len() as int } else { 10 };
    Seq::new(n as nat, |i: int| errs[errs.len() - 1 - i])
}

/// The recent errors of a log: its last ten lines that contain `ERROR`,
/// the latest first.
pub fn error_lines(content: &str) -> (r: Vec<String>)
    ensures
        r@.map_values(|s: String| s@) == error_lines_text(content@),
{
    let ls = split_lines(&chars_of(content));
    let word = chars_of("ERROR");
    let ghost has = |l: Seq<char>| contains_seq(l, "ERROR"@);
    let mut errs: Vec<Vec<char>> = Vec::new();
    let mut i: usize = 0;
    while i < ls.len()
        invariant
            has == (|l: Seq<char>| contains_seq(l, "ERROR"@)),
            word@ == "ERROR"@,
            views(ls@) == lines_of(content@),
            i <= ls@.len(),
            views(errs@) == views(ls@).take(i as int).filter(has),
        decreases ls.len() - i,
    {
        proof {
            assert(views(ls@).take(i + 1).drop_last() =~= views(ls@).take(i as int));
            assert(views(ls@).take(i + 1).last() == ls@[i as int]@);
            reveal(Seq::filter);
        }
        if contains(&ls[i], &word) {
            let ghost before = errs@;
            let mut copy: Vec<char> = Vec::new();
            push_chars(&mut copy, &ls[i]);
            errs.push(copy);
            assert(views(errs@) =~= views(before).push(ls@[i as int]@));
        }
        i = i + 1;
    }
    assert(views(ls@).take(ls@.len() as int) =~= views(ls@));
    let ghost ev = views(errs@);
    let n: usize = if errs.len() < 10 { errs.len() } else { 10 };
    let mut r: Vec<String> = Vec::new();
    let mut k: usize = 0;
    while k < n
        invariant
            ev == views(errs@),
            n == (if errs@.len() < 10 { errs@.len() } else { 10 }),
            k <= n,
            r@.map_values(|s: String| s@) == Seq::new(k as nat, |x: int| ev[ev.len() - 1 - x]),
        decreases n - k,
    {
        let line = string_of(&errs[errs.len() - 1 - k]);
        assert(line@ == ev[ev.len() - 1 - k]);
        let ghost before = r@;
        r.push(line);
        assert(r@.map_values(|s: String| s@) =~= before.map_values(|s: String| s@).push(line@));
        assert(r@.map_values(|s: String| s@) =~= Seq::new((k + 1) as nat, |x: int| ev[ev.len() - 1 - x]));
        k = k + 1;
    }
    assert(r@.map_values(|s: String| s@) =~= error_lines_text(content@));
    r
}

} // verus!
