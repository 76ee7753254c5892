//! The command line: global flags, subcommands and their arguments.

use vstd::prelude::*;

verus! {

/// The whole command line.
#[derive(Debug, Clone)]
pub struct Cli {
    pub global: GlobalArgs,
    pub command: Option<Commands>,
}

/// The flags that every subcommand takes.
#[derive(Debug, Clone)]
pub struct GlobalArgs {
    pub address: Option<String>,
    pub namespace: Option<String>,
    pub mock: bool,
    pub mock_count: usize,
    pub limit: u32,
    pub output: Option<OutputFormatArg>,
    pub logs: bool,
    pub profile: Option<String>,
}

/// The output format asked for on the command line.
#[derive(Debug, Clone, Copy, PartialEq, Eq, Structural)]
pub enum OutputFormatArg {
    Json,
    Table,
}

/// The subcommands.
#[derive(Debug, Clone)]
pub enum Commands {
    Workflow { action: WorkflowAction },
    Activity { action: ActivityAction },
    Event { action: EventAction },
    Insight { action: InsightAction },
    Config { action: ConfigAction },
    TestConnection,
    Serve { port: u16, bind: String },
}

/// What to do with workflows.
#[derive(Debug, Clone)]
pub enum WorkflowAction {
    List { status: Option<String>, workflow_type: Option<String>, since: Option<String>, before: Option<String> },
    Get { workflow_id: String, run_id: Option<String> },
    Count { status: Option<String>, query: Option<String> },
    Cancel { workflow_id: String, run_id: Option<String> },
    Terminate { workflow_id: String, run_id: Option<String>, reason: String },
}

/// What to do with activities.
#[derive(Debug, Clone)]
pub enum ActivityAction {
    List { workflow_id: String, run_id: Option<String> },
}

/// What to do with history events.
#[derive(Debug, Clone)]
pub enum EventAction {
    List { workflow_id: String, run_id: Option<String> },
}

/// What to do with insights.
#[derive(Debug, Clone)]
pub enum InsightAction {
    Scan { since: Option<String>, before: Option<String> },
}

/// What to do with the configuration.
#[derive(Debug, Clone)]
pub enum ConfigAction {
    Show,
    ProfileAdd { name: String, address: String, namespace: String, api_key: Option<String> },
    ProfileList,
    ProfileRemove { name: String },
    SetDefault { name: String },
}

} // verus!
