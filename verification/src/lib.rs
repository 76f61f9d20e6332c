//! Sampling core of a terminal resource monitor: rolling histories, CPU and
//! memory samplers, the process table with its stable sort, the selection and
//! scroll cursor, and the decisions of the sampler and input loops.
//!
//! Every usage value is a fixed-point integer in hundredths of a percent.

pub mod cpu;
pub mod cursor;
pub mod fixed;
pub mod history;
pub mod input;
pub mod memory;
mod merge;
pub mod percent;
pub mod process;
pub mod schedule;
pub mod sort;
pub mod state;
pub mod table;
pub mod text;
