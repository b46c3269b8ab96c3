//! Verified core of a load-test harness: scenario planning, concurrent-batch
//! accounting, process-readiness scanning, status-table parsing, and the
//! run-lifecycle state machine. Process spawning, signals and HTTP live in the
//! surrounding application, which drives these verified components.

pub mod dto;
pub mod executor;
pub mod namegen;
pub mod readiness;
pub mod runner;
pub mod scenario;
pub mod session;
pub mod status;
pub mod text;
