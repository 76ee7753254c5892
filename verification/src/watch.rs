//! Watch mode: a command re-run on an interval. On a terminal every run is
//! shown; in a pipe a run's output is passed on only when it differs from
//! the last output passed on. The caller runs the command, sleeps and
//! writes; this module decides what to write.

use vstd::prelude::*;
use crate::status::OutputFormat;

verus! {

/// How watch mode polls.
#[derive(Debug, Clone, Copy)]
pub struct WatchConfig {
    /// Seconds between runs.
    pub interval_secs: u64,
    /// The output format of the command.
    pub format: OutputFormat,
    /// Whether the output goes to a terminal.
    pub is_tty: bool,
}

/// What to do with the outcome of one run.
#[derive(Debug, Clone, PartialEq, Eq)]
pub enum WatchAction {
    /// Write these bytes.
    Emit(Vec<u8>),
    /// Report the run's error.
    ReportError(String),
    /// Write nothing.
    Skip,
}

/// What pipe mode remembers between runs: the output it last passed on.
#[derive(Debug, Clone)]
pub struct PipeDiff {
    pub previous: Option<Vec<u8>>,
}

/// The action for a run's outcome given the last output passed on, and what
/// is remembered after it: an error is reported and changes nothing; an
/// output is passed on, and remembered, unless it equals the last one.
pub open spec fn pipe_step(previous: Option<Seq<u8>>, outcome: Result<Seq<u8>, Seq<char>>) -> (Option<Seq<u8>>, Option<Seq<u8>>) {
    match outcome {
        Err(_) => (None, previous),
        Ok(out) => if previous == Some(out) { (None, previous) } else { (Some(out), Some(out)) },
    }
}

/// The view of remembered output.
pub open spec fn bytes_view(o: Option<Vec<u8>>) -> Option<Seq<u8>> {
    match o {
        Some(v) => Some(v@),
        None => None,
    }
}

/// Whether two outputs are the same bytes.
fn same_bytes(a: &Vec<u8>, b: &Vec<u8>) -> (r: bool)
    ensures
        r == (a@ == b@),
{
    if a.len() != b.len() {
        return false;
    }
    let mut i: usize = 0;
    while i < a.len()
        invariant
            a@.len() == b@.len(),
            i <= a@.len(),
            forall|k: int| 0 <= k < i ==> a@[k] == b@[k],
        decreases a.len() - i,
    {
        if a[i] != b[i] {
            return false;
        }
        i = i + 1;
    }
    assert(a@ =~= b@);
    true
}

impl PipeDiff {
    /// Nothing passed on yet.
    pub fn new() -> (r: PipeDiff)
        ensures
            r.previous is None,
    {
        PipeDiff { previous: None }
    }

    /// Decides what pipe mode does with a run's outcome, and remembers what
    /// it passes on.
    pub fn step(&mut self, outcome: Result<Vec<u8>, String>) -> (action: WatchAction)
        ensures
            ({
                let (emit, next) = pipe_step(bytes_view(old(self).previous), match outcome {
                    Ok(o) => Ok(o@),
                    Err(e) => Err(e@),
                });
                &&& bytes_view(final(self).previous) == next
                &&& match outcome {
                    Err(e) => action == WatchAction::ReportError(e),
                    Ok(_) => match emit {
                        Some(b) => action matches WatchAction::Emit(x) && x@ == b,
                        None => action == WatchAction::Skip,
                    },
                }
            }),
    {
        match outcome {
            Err(e) => WatchAction::ReportError(e),
            Ok(out) => {
                let unchanged = match &self.previous {
                    Some(p) => same_bytes(p, &out),
                    None => false,
                };
                if unchanged {
                    WatchAction::Skip
                } else {
                    let copy = out.clone();
                    self.previous = Some(out);
                    WatchAction::Emit(copy)
                }
            },
        }
    }
}

} // verus!
