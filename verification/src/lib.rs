//! SARIF handling of the prek hook runner: how a hook's SARIF output is
//! obtained (native flags, an adapter program, or an adaptor embedded in the
//! build), how the runs that hooks print are gathered into one report, and
//! how the findings of built-in hooks are written as a SARIF run.

pub mod diagnostic;
pub mod env;
pub mod error;
pub mod hook;
pub mod json;
pub mod laws;
pub mod report;
pub mod strategy;
pub mod text;
