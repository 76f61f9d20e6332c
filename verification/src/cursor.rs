//! Selection and scroll cursor over a list that is replaced underneath it.
//!
//! The cursor tracks positions, not identities: `selected` is the index of the
//! highlighted entry and `scroll_offset` the index of the first visible one.
//! Every transition is total; whatever would point past the list is clamped.

use vstd::prelude::*;

verus! {

/// Index of the last entry of a list of `length` entries, and 0 for an empty
/// list.
pub open spec fn last_index(length: nat) -> nat {
    if length == 0 {
        0
    } else {
        (length - 1) as nat
    }
}

/// Mathematical model of a [`Cursor`].
pub struct CursorView {
    pub selected: nat,
    pub scroll_offset: nat,
}

impl CursorView {
    /// The selection points into a list of `length` entries (at 0 if the list
    /// is empty).
    pub open spec fn in_bounds(self, length: nat) -> bool {
        self.selected <= last_index(length)
    }

    /// The selection lies among the `height` rows that start at the scroll
    /// offset.
    pub open spec fn in_window(self, height: nat) -> bool {
        self.scroll_offset <= self.selected < self.scroll_offset + height
    }

    /// The cursor is consistent with a list of `length` entries shown in
    /// `height` rows. With no rows at all nothing can be visible, so only the
    /// bound on the selection remains.
    pub open spec fn valid(self, length: nat, height: nat) -> bool {
        &&& self.in_bounds(length)
        &&& height > 0 ==> self.in_window(height)
    }

    /// The scroll offset moved by the least amount that brings the selection
    /// into the window: up to the selection if it lies above, else down until
    /// the selection is the last visible row if it lies below.
    pub open spec fn following(self, height: nat) -> CursorView {
        if self.selected < self.scroll_offset {
            CursorView { selected: self.selected, scroll_offset: self.selected }
        } else if self.selected >= self.scroll_offset + height {
            CursorView {
                selected: self.selected,
                scroll_offset: (self.selected - height + 1) as nat,
            }
        } else {
            self
        }
    }

    /// One step towards the end of the list.
    pub open spec fn moved_down(self, length: nat, height: nat) -> CursorView {
        let selected = if self.selected + 1 <= last_index(length) {
            self.selected + 1
        } else {
            last_index(length)
        };
        if selected >= self.scroll_offset + height {
            CursorView { selected, scroll_offset: (selected - height + 1) as nat }
        } else {
            CursorView { selected, scroll_offset: self.scroll_offset }
        }
    }

    /// One step towards the start of the list.
    pub open spec fn moved_up(self) -> CursorView {
        let selected = if self.selected == 0 {
            0
        } else {
            (self.selected - 1) as nat
        };
        if selected < self.scroll_offset {
            CursorView { selected, scroll_offset: selected }
        } else {
            CursorView { selected, scroll_offset: self.scroll_offset }
        }
    }

    /// The cursor re-validated against a list of `length` entries shown in
    /// `height` rows: the scroll offset is capped so that no row past the end
    /// is shown while earlier entries are hidden, the selection is capped at
    /// the last entry, and the window then follows the selection.
    pub open spec fn resized(self, length: nat, height: nat) -> CursorView {
        let limit = if length > height {
            (length - height) as nat
        } else {
            0
        };
        let scroll_offset = if self.scroll_offset <= limit {
            self.scroll_offset
        } else {
            limit
        };
        let selected = if self.selected >= length {
            last_index(length)
        } else {
            self.selected
        };
        CursorView { selected, scroll_offset }.following(height)
    }
}

/// Re-validating twice against the same list length and window height
/// changes nothing the second time, provided the window has a row or the
/// list is empty. In a window without rows over a list with entries no
/// offset shows the selection, and each re-validation moves the offset to
/// the other side of it.
pub proof fn lemma_resize_idempotent(cursor: CursorView, length: nat, height: nat)
    requires
        height > 0 || length == 0,
    ensures
        cursor.resized(length, height).resized(length, height) == cursor.resized(length, height),
{
}

/// In a window without rows over a list with entries, re-validating a second
/// time never leaves the cursor as the first time left it.
pub proof fn lemma_resize_without_rows_alternates(cursor: CursorView, length: nat)
    requires
        length > 0,
    ensures
        cursor.resized(length, 0).resized(length, 0) != cursor.resized(length, 0),
        cursor.resized(length, 0).resized(length, 0).resized(length, 0) == cursor.resized(
            length,
            0,
        ),
{
}

/// A window without rows leaves no trace: once the window has rows again,
/// the cursor is the same however often it was re-validated without rows.
pub proof fn lemma_resize_without_rows_leaves_no_trace(
    cursor: CursorView,
    length: nat,
    height: nat,
)
    requires
        height > 0,
    ensures
        cursor.resized(length, 0).resized(length, 0).resized(length, height) == cursor.resized(
            length,
            0,
        ).resized(length, height),
{
}

/// Re-validating yields a valid cursor whatever the cursor was before, and a
/// cursor that is valid and shows no row past the end is left as it is.
pub proof fn lemma_resize_validates(cursor: CursorView, length: nat, height: nat)
    ensures
        cursor.resized(length, height).valid(length, height),
        height > 0 && cursor.valid(length, height) && cursor.scroll_offset + height <= length
            ==> cursor.resized(length, height) == cursor,
{
}

/// Position of the highlighted entry and of the first visible entry.
#[derive(Clone, Copy, Debug, PartialEq, Eq, Structural)]
pub struct Cursor {
    pub selected: usize,
    pub scroll_offset: usize,
}

impl View for Cursor {
    type V = CursorView;

    open spec fn view(&self) -> CursorView {
        CursorView { selected: self.selected as nat, scroll_offset: self.scroll_offset as nat }
    }
}

impl Cursor {
    /// The initial cursor: first entry selected, nothing scrolled.
    pub fn new() -> (r: Cursor)
        ensures
            r.selected == 0,
            r.scroll_offset == 0,
            forall|length: nat, height: nat| r@.valid(length, height),
    {
        Cursor { selected: 0, scroll_offset: 0 }
    }

    /// Moves the selection one entry down, stopping at the last entry, and
    /// scrolls just far enough to keep it visible.
    pub fn move_down(self, length: usize, height: usize) -> (r: Cursor)
        ensures
            r@ == self@.moved_down(length as nat, height as nat),
            self@.valid(length as nat, height as nat) ==> r@.valid(length as nat, height as nat),
    {
        let last = if length == 0 {
            0
        } else {
            length - 1
        };
        let selected = if self.selected < last {
            self.selected + 1
        } else {
            last
        };
        if selected >= self.scroll_offset && selected - self.scroll_offset >= height {
            Cursor { selected, scroll_offset: selected - height + 1 }
        } else {
            Cursor { selected, scroll_offset: self.scroll_offset }
        }
    }

    /// Moves the selection one entry up, stopping at the first entry, and
    /// scrolls up with it when it leaves the window.
    pub fn move_up(self) -> (r: Cursor)
        ensures
            r@ == self@.moved_up(),
            forall|length: nat, height: nat|
                self@.valid(length, height) ==> #[trigger] r@.valid(length, height),
    {
        let selected = if self.selected > 0 {
            self.selected - 1
        } else {
            0
        };
        if selected < self.scroll_offset {
            Cursor { selected, scroll_offset: selected }
        } else {
            Cursor { selected, scroll_offset: self.scroll_offset }
        }
    }

    /// Re-validates the cursor after the list length or the window height
    /// changed.
    pub fn resize(self, length: usize, height: usize) -> (r: Cursor)
        ensures
            r@ == self@.resized(length as nat, height as nat),
            r@.valid(length as nat, height as nat),
    {
        let limit = if length > height {
            length - height
        } else {
            0
        };
        let scroll_offset = if self.scroll_offset <= limit {
            self.scroll_offset
        } else {
            limit
        };
        let selected = if self.selected >= length {
            if length == 0 {
                0
            } else {
                length - 1
            }
        } else {
            self.selected
        };
        if selected < scroll_offset {
            Cursor { selected, scroll_offset: selected }
        } else if selected - scroll_offset >= height {
            Cursor { selected, scroll_offset: selected - height + 1 }
        } else {
            Cursor { selected, scroll_offset }
        }
    }
}

} // verus!
