//! Core logic of a terminal viewer for Temporal workflows: the domain model,
//! query building, insight detection, history correlation and the
//! application state machine, each with a verified contract.

pub mod activity;
pub mod activity_findings;
pub mod app;
pub mod child;
pub mod client;
pub mod cli;
pub mod clock;
pub mod config;
pub mod detail_lines;
pub mod filter;
pub mod finding_laws;
pub mod findings;
pub mod fixtures;
pub mod grouping;
pub mod insights;
pub mod json;
pub mod json_lines;
pub mod keys;
pub mod laws;
pub mod logging;
pub mod mode;
pub mod mock;
pub mod model;
pub mod order;
pub mod picker;
pub mod profiles;
pub mod rows;
pub mod sampled;
pub mod scan;
pub mod stats;
pub mod status;
pub mod tables;
pub mod text;
pub mod type_stats;
pub mod watch;
pub mod web;
pub mod widgets;
