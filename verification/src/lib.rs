//! Privacy-preserving usage-reporting client library.
//!
//! Once per invocation the client decides whether a new reporting window has
//! opened since the last successful report; if so it selects the repositories
//! that opted into counting, builds one counting URL per repository, and
//! records success only when at least one request went through.  The window
//! state machine, repository selection, URL construction and outcome rules
//! live here, verified; file and network access stay with the caller.

pub mod agent;
pub mod cookie;
pub mod numfmt;
pub mod reporter;
pub mod repo;
pub mod strutil;
