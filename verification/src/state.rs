//! The one state that the sampler loop and the foreground loop share.
//!
//! Every method is one transition. Whoever calls it holds the state
//! exclusively for the length of the call, so a reader sees each transition
//! whole or not at all: a reading never shows in the usage but not yet in
//! the history.

use crate::cpu::{CpuInfo, CpuInfoView, CpuReading};
use crate::cursor::CursorView;
use crate::input::Command;
use crate::memory::{MemoryInfo, MemoryInfoView, MemoryReading};
use crate::process::Process;
use crate::sort::{is_stable_sort, SortKey};
use crate::table::{ProcessTable, ProcessTableView};
use vstd::prelude::*;

verus! {

/// Mathematical model of an [`AppState`].
pub struct AppStateView {
    pub cpu: CpuInfoView,
    pub memory: MemoryInfoView,
    pub table: ProcessTableView,
}

impl AppStateView {
    /// Every part is well-formed.
    pub open spec fn wf(self) -> bool {
        &&& self.cpu.wf()
        &&& self.memory.wf()
        &&& self.table.wf()
    }

    /// The cursor after `command`; quitting and ignored keys leave it as it
    /// is.
    pub open spec fn cursor_after(self, command: Command) -> CursorView {
        match command {
            Command::MoveDown => self.table.cursor.moved_down(
                self.table.processes.len(),
                self.table.visible_height,
            ),
            Command::MoveUp => self.table.cursor.moved_up(),
            Command::Quit => self.table.cursor,
            Command::Ignore => self.table.cursor,
        }
    }
}

/// The CPU sampler, the memory sampler and the process table.
#[derive(Debug)]
pub struct AppState {
    pub cpu_info: CpuInfo,
    pub memory_info: MemoryInfo,
    pub table: ProcessTable,
}

impl View for AppState {
    type V = AppStateView;

    open spec fn view(&self) -> AppStateView {
        AppStateView { cpu: self.cpu_info@, memory: self.memory_info@, table: self.table@ }
    }
}

impl AppState {
    /// The state at startup, made from a first sample so that the first
    /// frame has something to show: the process list sorted by memory with
    /// its first entry selected, the memory counters, and one idle core for
    /// each core of the machine.
    pub fn new(
        core_count: usize,
        memory: MemoryReading,
        processes: Vec<Process>,
        visible_height: usize,
    ) -> (r: Self)
        ensures
            r@.cpu == CpuInfoView::initial(core_count as nat),
            r@.memory == MemoryInfoView::initial(memory),
            is_stable_sort(r@.table.processes, processes@, SortKey::Memory),
            r@.table.processes.to_multiset() == processes@.to_multiset(),
            r@.table.cursor == (CursorView { selected: 0, scroll_offset: 0 }),
            r@.table.visible_height == visible_height,
            r@.table.sort_key == SortKey::Memory,
            r@.wf(),
    {
        AppState {
            cpu_info: CpuInfo::new(core_count),
            memory_info: MemoryInfo::new(memory),
            table: ProcessTable::new(processes, visible_height),
        }
    }

    /// The processes in descending order of the current sort key.
    pub fn processes(&self) -> (r: &Vec<Process>)
        ensures
            r@ == self@.table.processes,
            self@.table.wf(),
    {
        self.table.processes()
    }

    /// Index of the selected process: less than the length of a list that is
    /// not empty, and 0 for an empty one.
    pub fn selected_process(&self) -> (r: usize)
        ensures
            r == self@.table.cursor.selected,
            self@.table.processes.len() > 0 ==> r < self@.table.processes.len(),
            self@.table.processes.len() == 0 ==> r == 0,
    {
        self.table.selected()
    }

    /// Index of the first visible process.
    pub fn scroll_offset(&self) -> (r: usize)
        ensures
            r == self@.table.cursor.scroll_offset,
            self@.table.visible_height > 0 ==> r <= self@.table.cursor.selected < r
                + self@.table.visible_height,
    {
        self.table.scroll_offset()
    }

    /// Replaces the process list by a new snapshot (see
    /// [`ProcessTable::refresh`]). The samplers are not touched.
    pub fn update_processes(&mut self, processes: Vec<Process>)
        ensures
            is_stable_sort(final(self)@.table.processes, processes@, old(self)@.table.sort_key),
            final(self)@.table.processes.to_multiset() == processes@.to_multiset(),
            final(self)@.table.cursor == old(self)@.table.cursor.resized(
                processes@.len(),
                old(self)@.table.visible_height,
            ),
            final(self)@.table.visible_height == old(self)@.table.visible_height,
            final(self)@.table.sort_key == old(self)@.table.sort_key,
            final(self)@.cpu == old(self)@.cpu,
            final(self)@.memory == old(self)@.memory,
            final(self)@.wf(),
    {
        self.table.refresh(processes);
        proof {
            use_type_invariant(&self.cpu_info);
            use_type_invariant(&self.memory_info);
            use_type_invariant(&self.table);
            self.cpu_info.lemma_inv_wf();
            self.memory_info.lemma_inv_wf();
        }
    }

    /// Takes one reading of the CPU counters and one of the memory counters.
    /// The process table is not touched.
    pub fn update_metrics(&mut self, cpu: &CpuReading, memory: MemoryReading)
        ensures
            final(self)@.cpu == old(self)@.cpu.updated(cpu.global, cpu.cores@),
            final(self)@.memory == old(self)@.memory.updated(memory),
            final(self)@.table == old(self)@.table,
            final(self)@.wf(),
    {
        self.cpu_info.update(cpu);
        self.memory_info.update(memory);
        proof {
            use_type_invariant(&self.cpu_info);
            use_type_invariant(&self.memory_info);
            use_type_invariant(&self.table);
            self.cpu_info.lemma_inv_wf();
            self.memory_info.lemma_inv_wf();
        }
    }

    /// Carries out `command` and says whether the program goes on: a move
    /// changes the cursor, and only quitting ends the program.
    pub fn apply(&mut self, command: Command) -> (running: bool)
        ensures
            running == (command != Command::Quit),
            final(self)@.table.cursor == old(self)@.cursor_after(command),
            final(self)@.table.processes == old(self)@.table.processes,
            final(self)@.table.visible_height == old(self)@.table.visible_height,
            final(self)@.table.sort_key == old(self)@.table.sort_key,
            final(self)@.cpu == old(self)@.cpu,
            final(self)@.memory == old(self)@.memory,
            final(self)@.wf(),
    {
        let running = match command {
            Command::MoveDown => {
                self.table.move_down();
                true
            },
            Command::MoveUp => {
                self.table.move_up();
                true
            },
            Command::Quit => false,
            Command::Ignore => true,
        };
        proof {
            use_type_invariant(&self.cpu_info);
            use_type_invariant(&self.memory_info);
            use_type_invariant(&self.table);
            self.cpu_info.lemma_inv_wf();
            self.memory_info.lemma_inv_wf();
        }
        running
    }
}

} // verus!
