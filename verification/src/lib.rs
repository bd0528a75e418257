//! Modelling, planning and checking for multi-pod `docker-compose`
//! projects: command-line argument construction, pods and targets,
//! source trees, hooks, runtime state and the transformations applied to
//! each service before it is handed to `docker-compose`.

pub mod text;
pub mod strmap;
pub mod args;
pub mod exec;
pub mod ovr;
pub mod paths;
pub mod errors;
pub mod compose;
pub mod pod;
pub mod runtime_state;
pub mod cmd;
pub mod act_on;
pub mod project;
pub mod plan;
pub mod cli;
pub mod sources;
pub mod mounts;
pub mod hook;
pub mod status;
pub mod default_tags;
pub mod transform;
pub mod vault;
pub mod secrets;
pub mod git_url;
pub mod config;
pub mod create_project;
