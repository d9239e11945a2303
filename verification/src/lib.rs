//! A small benchmark harness: the decisions behind running a fixed number of
//! CPU-bound or I/O-bound work units and reporting on them.

pub mod cli;
pub mod codec;
pub mod content;
pub mod delay;
pub mod digest;
pub mod error;
pub mod naming;
pub mod record;
pub mod report;
pub mod retry;
pub mod runner;
pub mod schedule;
pub mod stats;
pub mod text;
pub mod timing;
pub mod unit;
