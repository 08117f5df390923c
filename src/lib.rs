//! A policy engine for server-side Git hooks: rules and conditions evaluated
//! against ref changes, with the Git facts they read supplied on demand.

pub mod change;
pub mod configuration;
pub mod envelope;
pub mod git;
pub mod gitlab;
pub mod laws;
pub mod rule;
pub mod text;
pub mod webhook;

pub use git::FileStatus;
