//! The process table: the current snapshot of the process list, kept sorted,
//! and the cursor over it.
//!
//! Each refresh replaces the list wholesale. Nothing identifies a process
//! across refreshes, so the cursor keeps its position and is re-validated
//! against the new length.

use crate::cursor::{Cursor, CursorView};
use crate::process::Process;
use crate::sort::{is_sorted, is_stable_sort, sort_processes, SortKey};
use vstd::prelude::*;

verus! {

/// Rows that the table spends on its header and the margin below it.
pub const HEADER_ROWS: u16 = 2;

/// Number of processes that fit into a table whose inside, between its
/// borders, is `inner_height` rows high: what the header leaves, and none
/// where the header does not fit.
pub fn visible_rows(inner_height: u16) -> (r: usize)
    ensures
        r == if inner_height >= HEADER_ROWS {
            inner_height - HEADER_ROWS
        } else {
            0
        },
{
    if inner_height >= HEADER_ROWS {
        (inner_height - HEADER_ROWS) as usize
    } else {
        0
    }
}

/// Mathematical model of a [`ProcessTable`].
pub struct ProcessTableView {
    pub processes: Seq<Process>,
    pub cursor: CursorView,
    pub visible_height: nat,
    pub sort_key: SortKey,
}

impl ProcessTableView {
    /// What holds of every table: the list is in descending order of the
    /// current sort key, the selection points into the list (at 0 if it is
    /// empty), and unless the window has no rows the selection lies in it.
    pub open spec fn wf(self) -> bool {
        &&& is_sorted(self.processes, self.sort_key)
        &&& self.cursor.valid(self.processes.len(), self.visible_height)
    }

    /// Index of the first visible entry; the list length if none is visible.
    pub open spec fn window_start(self) -> nat {
        if self.cursor.scroll_offset <= self.processes.len() {
            self.cursor.scroll_offset
        } else {
            self.processes.len()
        }
    }

    /// Index one past the last visible entry.
    pub open spec fn window_end(self) -> nat {
        if self.cursor.scroll_offset + self.visible_height <= self.processes.len() {
            self.cursor.scroll_offset + self.visible_height
        } else {
            self.processes.len()
        }
    }

    /// Row of the window that shows the selected entry, if it shows it.
    pub open spec fn selected_row(self) -> Option<nat> {
        if self.window_start() <= self.cursor.selected < self.window_end() {
            Some((self.cursor.selected - self.cursor.scroll_offset) as nat)
        } else {
            None
        }
    }
}

/// In a table that holds processes and has rows to show them in, the
/// selected entry is always among the visible ones.
pub proof fn lemma_selection_visible(table: ProcessTableView)
    requires
        table.wf(),
        table.processes.len() > 0,
        table.visible_height > 0,
    ensures
        table.selected_row() is Some,
        table.window_start() <= table.cursor.selected < table.window_end(),
{
}

/// The sorted process list with the selection and scroll cursor over it.
#[derive(Debug)]
pub struct ProcessTable {
    processes: Vec<Process>,
    cursor: Cursor,
    visible_height: usize,
    sort_key: SortKey,
}

impl View for ProcessTable {
    type V = ProcessTableView;

    closed spec fn view(&self) -> ProcessTableView {
        ProcessTableView {
            processes: self.processes@,
            cursor: self.cursor@,
            visible_height: self.visible_height as nat,
            sort_key: self.sort_key,
        }
    }
}

impl ProcessTable {
    /// Every table is well-formed.
    #[verifier::type_invariant]
    pub open spec fn inv(self) -> bool {
        self@.wf()
    }

    /// A table over a first snapshot, sorted by memory, with the first entry
    /// selected and nothing scrolled.
    pub fn new(processes: Vec<Process>, visible_height: usize) -> (r: Self)
        ensures
            is_stable_sort(r@.processes, processes@, SortKey::Memory),
            r@.processes.to_multiset() == processes@.to_multiset(),
            r@.cursor == (CursorView { selected: 0, scroll_offset: 0 }),
            r@.visible_height == visible_height,
            r@.sort_key == SortKey::Memory,
            r@.wf(),
    {
        let mut list = processes;
        sort_processes(&mut list, SortKey::Memory);
        ProcessTable {
            processes: list,
            cursor: Cursor::new(),
            visible_height,
            sort_key: SortKey::Memory,
        }
    }

    /// Replaces the list by a new snapshot, sorted by the current key, and
    /// re-validates the cursor against the new length.
    pub fn refresh(&mut self, processes: Vec<Process>)
        ensures
            is_stable_sort(final(self)@.processes, processes@, old(self)@.sort_key),
            final(self)@.processes.to_multiset() == processes@.to_multiset(),
            final(self)@.cursor == old(self)@.cursor.resized(
                processes@.len(),
                old(self)@.visible_height,
            ),
            final(self)@.visible_height == old(self)@.visible_height,
            final(self)@.sort_key == old(self)@.sort_key,
            final(self)@.wf(),
    {
        proof {
            use_type_invariant(&*self);
        }
        let mut list = processes;
        sort_processes(&mut list, self.sort_key);
        let cursor = self.cursor.resize(list.len(), self.visible_height);
        self.cursor = Cursor::new();
        core::mem::swap(&mut self.processes, &mut list);
        self.cursor = cursor;
    }

    /// Sorts the list by `key`, which becomes the current sort key. The
    /// cursor keeps its position.
    pub fn sort(&mut self, key: SortKey)
        ensures
            is_stable_sort(final(self)@.processes, old(self)@.processes, key),
            final(self)@.processes.to_multiset() == old(self)@.processes.to_multiset(),
            final(self)@.sort_key == key,
            final(self)@.cursor == old(self)@.cursor,
            final(self)@.visible_height == old(self)@.visible_height,
            final(self)@.wf(),
    {
        proof {
            use_type_invariant(&*self);
        }
        let cursor = self.cursor;
        let mut list: Vec<Process> = Vec::new();
        self.cursor = Cursor::new();
        core::mem::swap(&mut self.processes, &mut list);
        self.sort_key = key;
        sort_processes(&mut list, key);
        core::mem::swap(&mut self.processes, &mut list);
        self.cursor = cursor;
    }

    /// Moves the selection one entry down (see [`CursorView::moved_down`]).
    pub fn move_down(&mut self)
        ensures
            final(self)@.cursor == old(self)@.cursor.moved_down(
                old(self)@.processes.len(),
                old(self)@.visible_height,
            ),
            final(self)@.processes == old(self)@.processes,
            final(self)@.visible_height == old(self)@.visible_height,
            final(self)@.sort_key == old(self)@.sort_key,
            final(self)@.wf(),
    {
        proof {
            use_type_invariant(&*self);
        }
        self.cursor = self.cursor.move_down(self.processes.len(), self.visible_height);
    }

    /// Moves the selection one entry up (see [`CursorView::moved_up`]).
    pub fn move_up(&mut self)
        ensures
            final(self)@.cursor == old(self)@.cursor.moved_up(),
            final(self)@.processes == old(self)@.processes,
            final(self)@.visible_height == old(self)@.visible_height,
            final(self)@.sort_key == old(self)@.sort_key,
            final(self)@.wf(),
    {
        proof {
            use_type_invariant(&*self);
        }
        self.cursor = self.cursor.move_up();
    }

    /// Sets the number of rows in which the list is shown and re-validates
    /// the cursor (see [`CursorView::resized`]).
    pub fn resize(&mut self, visible_height: usize)
        ensures
            final(self)@.cursor == old(self)@.cursor.resized(
                old(self)@.processes.len(),
                visible_height as nat,
            ),
            final(self)@.visible_height == visible_height,
            final(self)@.processes == old(self)@.processes,
            final(self)@.sort_key == old(self)@.sort_key,
            final(self)@.wf(),
    {
        proof {
            use_type_invariant(&*self);
        }
        let cursor = self.cursor.resize(self.processes.len(), visible_height);
        self.cursor = Cursor::new();
        self.visible_height = visible_height;
        self.cursor = cursor;
    }

    /// The processes in descending order of the current sort key.
    pub fn processes(&self) -> (r: &Vec<Process>)
        ensures
            r@ == self@.processes,
            self@.wf(),
    {
        proof {
            use_type_invariant(self);
        }
        &self.processes
    }

    /// Number of processes in the list.
    pub fn len(&self) -> (r: usize)
        ensures
            r == self@.processes.len(),
    {
        self.processes.len()
    }

    /// Whether the list holds no process.
    pub fn is_empty(&self) -> (r: bool)
        ensures
            r == (self@.processes.len() == 0),
    {
        self.processes.len() == 0
    }

    /// The cursor; it is valid for the current list and window height.
    pub fn cursor(&self) -> (r: Cursor)
        ensures
            r@ == self@.cursor,
            self@.wf(),
    {
        proof {
            use_type_invariant(self);
        }
        self.cursor
    }

    /// Index of the selected entry: less than the length of a list that is
    /// not empty, and 0 for an empty one.
    pub fn selected(&self) -> (r: usize)
        ensures
            r == self@.cursor.selected,
            self@.processes.len() > 0 ==> r < self@.processes.len(),
            self@.processes.len() == 0 ==> r == 0,
    {
        proof {
            use_type_invariant(self);
        }
        self.cursor.selected
    }

    /// Index of the first visible entry.
    pub fn scroll_offset(&self) -> (r: usize)
        ensures
            r == self@.cursor.scroll_offset,
            self@.visible_height > 0 ==> r <= self@.cursor.selected < r + self@.visible_height,
    {
        proof {
            use_type_invariant(self);
        }
        self.cursor.scroll_offset
    }

    /// Number of rows in which the list is shown.
    pub fn visible_height(&self) -> (r: usize)
        ensures
            r == self@.visible_height,
    {
        self.visible_height
    }

    /// The key by which the list is currently sorted.
    pub fn sort_key(&self) -> (r: SortKey)
        ensures
            r == self@.sort_key,
    {
        self.sort_key
    }

    /// The selected process; `None` only if the list is empty.
    pub fn selected_entry(&self) -> (r: Option<&Process>)
        ensures
            self@.processes.len() > 0 ==> r == Some(&self@.processes[self@.cursor.selected as int]),
            self@.processes.len() == 0 ==> r is None,
    {
        proof {
            use_type_invariant(self);
        }
        if self.processes.len() > 0 {
            Some(&self.processes[self.cursor.selected])
        } else {
            None
        }
    }

    /// The range of entries to show: from the first visible entry up to, but
    /// not including, the entry at the second index.
    pub fn visible_range(&self) -> (r: (usize, usize))
        ensures
            r.0 == self@.window_start(),
            r.1 == self@.window_end(),
            r.0 <= r.1 <= self@.processes.len(),
    {
        let length = self.processes.len();
        let start = if self.cursor.scroll_offset <= length {
            self.cursor.scroll_offset
        } else {
            length
        };
        let end = if length - start >= self.visible_height
            && self.cursor.scroll_offset <= length {
            start + self.visible_height
        } else {
            length
        };
        (start, end)
    }

    /// Row of the window that shows the selected entry; `None` if the window
    /// does not show it, which is the case only for an empty list or a window
    /// without rows.
    pub fn selected_row(&self) -> (r: Option<usize>)
        ensures
            match r {
                Some(row) => self@.selected_row() == Some(row as nat),
                None => self@.selected_row() is None,
            },
            self@.processes.len() > 0 && self@.visible_height > 0 ==> r is Some,
    {
        proof {
            use_type_invariant(self);
        }
        let (start, end) = self.visible_range();
        if start <= self.cursor.selected && self.cursor.selected < end {
            Some(self.cursor.selected - self.cursor.scroll_offset)
        } else {
            None
        }
    }
}

} // verus!
