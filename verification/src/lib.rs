//! Build, deploy and reconcile orchestration for a midstream promotion
//! workflow: the decisions of the workflow as verified functions over plain
//! values, for a thin program around them to carry out.

pub mod batch;
pub mod bundle;
pub mod callback;
pub mod check;
pub mod component;
pub mod config;
pub mod coordinator;
pub mod deploy;
pub mod document;
pub mod dryrun;
pub mod exec;
pub mod github;
pub mod incluster;
pub mod konflux;
pub mod numeral;
pub mod perf;
pub mod pipeline;
pub mod profile;
pub mod publish;
pub mod registry;
pub mod results;
pub mod setup;
pub mod snapshot;
pub mod testrun;
pub mod text;
pub mod types;
