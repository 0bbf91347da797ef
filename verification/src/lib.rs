//! Call-tree tracing: per-thread stacks of open calls, completed records,
//! and the text of the trace file, with the tools that prepare a project
//! for tracing.

pub mod auto_save;
pub mod call_events;
pub mod cargo;
pub mod clean;
pub mod config;
pub mod fs;
pub mod instrument;
pub mod interface;
pub mod json;
pub mod list_traced;
pub mod main_rs;
pub mod paths;
pub mod run_flow;
pub mod rust_parser;
pub mod setup;
pub mod suggestions;
pub mod text;
pub mod trace_common;
pub mod trace_data;
pub mod trace_display;
pub mod trace_macro;
pub mod tracer;
