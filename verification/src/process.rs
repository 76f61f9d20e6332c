//! One row of the process table.

use crate::fixed::{mib_hundredths, to_mib_hundredths};
use crate::percent::{percent_label, percent_text, usage_label, usage_text};
use crate::text::{decimal, decimal_text, pad, padded, two_decimals, two_decimals_text};
use vstd::prelude::*;
use vstd::string::*;

pub use crate::sort::{_sort_by_cpu, sort_by_memory};

verus! {

/// Scheduling state of a process.
#[derive(Clone, Copy, Debug, PartialEq, Eq, Structural)]
pub enum ProcessStatus {
    Running,
    Sleeping,
    Idle,
    Zombie,
    Dead,
    Stopped,
    Unknown,
}

/// Metrics of one process as of the current sampling cycle.
///
/// `cpu_usage` counts hundredths of a percent and may exceed 100% on a
/// machine with several cores; `memory_bytes` is the resident memory.
#[derive(Clone, Debug, PartialEq, Eq)]
pub struct Process {
    pub pid: u32,
    pub name: String,
    pub cpu_usage: u32,
    pub memory_bytes: u64,
    pub status: ProcessStatus,
    pub parent_pid: Option<u32>,
}

/// The word for a status.
pub open spec fn status_label(status: ProcessStatus) -> Seq<char> {
    match status {
        ProcessStatus::Running => "Running"@,
        ProcessStatus::Sleeping => "Sleeping"@,
        ProcessStatus::Idle => "Idle"@,
        ProcessStatus::Zombie => "Zombie"@,
        ProcessStatus::Dead => "Dead"@,
        ProcessStatus::Stopped => "Stopped"@,
        ProcessStatus::Unknown => "Unknown"@,
    }
}

impl ProcessStatus {
    /// The word for this status.
    pub fn label(self) -> (r: &'static str)
        ensures
            r@ == status_label(self),
    {
        match self {
            ProcessStatus::Running => "Running",
            ProcessStatus::Sleeping => "Sleeping",
            ProcessStatus::Idle => "Idle",
            ProcessStatus::Zombie => "Zombie",
            ProcessStatus::Dead => "Dead",
            ProcessStatus::Stopped => "Stopped",
            ProcessStatus::Unknown => "Unknown",
        }
    }
}

/// Longest name that a table row shows in full.
pub const NAME_WIDTH: usize = 15;

/// Characters kept of a name that is too long for a table row.
pub const NAME_KEPT: usize = 12;

/// A parent pid as shown: its number, or "None" for a process without one.
pub open spec fn parent_label(parent_pid: Option<u32>) -> Seq<char> {
    match parent_pid {
        Some(pid) => decimal(pid as nat),
        None => "None"@,
    }
}

/// A name as shown in a table row: in full if it has at most [`NAME_WIDTH`]
/// characters, else its first [`NAME_KEPT`] characters and an ellipsis.
pub open spec fn short_name(name: Seq<char>) -> Seq<char> {
    if name.len() > NAME_WIDTH {
        name.subrange(0, NAME_KEPT as int) + "..."@
    } else {
        name
    }
}

/// A memory size as shown: mebibytes with two decimal places.
pub open spec fn memory_label(bytes: u64) -> Seq<char> {
    two_decimals(mib_hundredths(bytes)) + "MB"@
}

/// One line that describes `process`: every field with its caption, the
/// fields but the last filled to a fixed width.
pub open spec fn description(process: Process) -> Seq<char> {
    "PID: "@ + padded(decimal(process.pid as nat), 6) + " | Name: "@ + padded(process.name@, 20)
        + " | CPU: "@ + padded(usage_label(process.cpu_usage), 5) + "% | Mem: "@ + padded(
        two_decimals(mib_hundredths(process.memory_bytes)),
        6,
    ) + "MB | Status: "@ + padded(status_label(process.status), 8) + " | Parent: "@
        + parent_label(process.parent_pid)
}

impl Process {
    /// The parent pid as shown (see [`parent_label`]).
    pub fn parent_text(&self) -> (r: String)
        ensures
            r@ == parent_label(self.parent_pid),
    {
        match self.parent_pid {
            Some(pid) => decimal_text(pid as u128),
            None => String::from_str("None"),
        }
    }

    /// The name as shown in a table row (see [`short_name`]).
    pub fn display_name(&self) -> (r: String)
        ensures
            r@ == short_name(self.name@),
    {
        let name = self.name.as_str();
        if name.unicode_len() > NAME_WIDTH {
            let mut text = String::from_str(name.substring_char(0, NAME_KEPT));
            text.append("...");
            text
        } else {
            String::from_str(name)
        }
    }

    /// The CPU usage as shown: one decimal place and a percent sign.
    pub fn cpu_text(&self) -> (r: String)
        ensures
            r@ == percent_label(self.cpu_usage),
    {
        percent_text(self.cpu_usage)
    }

    /// The memory as shown (see [`memory_label`]).
    pub fn memory_text(&self) -> (r: String)
        ensures
            r@ == memory_label(self.memory_bytes),
    {
        let mut text = two_decimals_text(to_mib_hundredths(self.memory_bytes) as u128);
        text.append("MB");
        text
    }

    /// One line that describes the process (see [`description`]).
    pub fn describe(&self) -> (r: String)
        ensures
            r@ == description(*self),
    {
        let mut text = String::from_str("PID: ");
        text.append(pad(decimal_text(self.pid as u128), 6).as_str());
        text.append(" | Name: ");
        text.append(pad(String::from_str(self.name.as_str()), 20).as_str());
        text.append(" | CPU: ");
        text.append(pad(usage_text(self.cpu_usage), 5).as_str());
        text.append("% | Mem: ");
        text.append(pad(two_decimals_text(to_mib_hundredths(self.memory_bytes) as u128), 6).as_str());
        text.append("MB | Status: ");
        text.append(pad(String::from_str(self.status.label()), 8).as_str());
        text.append(" | Parent: ");
        text.append(self.parent_text().as_str());
        text
    }
}

} // verus!
