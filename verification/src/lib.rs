//! A dynamic malware-analysis sandbox library: a container lifecycle
//! supervisor that drives an isolated guest through
//! create/start/execute/stop/destroy with a bounded executor for every
//! privileged external operation, and a telemetry ingestion and detection
//! engine that decodes the guest's forwarded structured log and evaluates
//! behavioral signature rules over it.
//!
//! The library plans external operations and absorbs their outcomes; the
//! spawning, file handling and reporting around it are left to an
//! unverified driver.

pub mod analysis;
pub mod args;
pub mod container;
pub mod executor;
pub mod rule;
pub mod syslog;
pub mod sysmon;
pub mod text;
