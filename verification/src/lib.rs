//! The decisions behind a small GitHub pull request helper: what `gh` and `gdbus` are asked,
//! what their answers mean, and what is shown to the user.

pub mod calendar;
pub mod ci;
pub mod cli;
pub mod create;
pub mod merge;
pub mod notification;
pub mod number;
pub mod process;
pub mod pull_request;
pub mod query;
pub mod rerun;
pub mod table;
pub mod text;
pub mod time;
pub mod url;
pub mod wait;
