//! The state of a picker overlay: items with shortcut keys and the
//! highlighted one.

use vstd::prelude::*;

verus! {

/// An item of a picker: its shortcut key and the text shown.
#[derive(Debug, Clone)]
pub struct PickerItem {
    pub key: char,
    pub label: String,
}

/// The highlighted position after one move among `n` items: down to the
/// next item, staying on the last, or up to the one before, staying on the
/// first.
pub open spec fn moved(sel: int, n: int, down: bool) -> int {
    if down {
        if sel + 1 < n { sel + 1 } else { sel }
    } else {
        if sel > 0 { sel - 1 } else { 0 }
    }
}

/// The highlighted position of a new picker of `n` items after the moves
/// (`true` for down, `false` for up), in order.
pub open spec fn selected_after(n: int, moves: Seq<bool>) -> int
    decreases moves.len(),
{
    if moves.len() == 0 { 0 } else { moved(selected_after(n, moves.drop_last()), n, moves.last()) }
}

/// Whatever moves a new picker makes, its highlighted item exists exactly
/// when it has items: `selected_key` gives a key then, and nothing for a
/// picker without items.
pub proof fn law_picker_key_iff_items(n: int, moves: Seq<bool>)
    requires
        n >= 0,
    ensures
        0 <= selected_after(n, moves),
        selected_after(n, moves) < n <==> n > 0,
    decreases moves.len(),
{
    if moves.len() > 0 {
        law_picker_key_iff_items(n, moves.drop_last());
    }
}

/// A picker: its items, the highlighted item and the title.
#[derive(Debug)]
pub struct PickerState {
    pub items: Vec<PickerItem>,
    pub selected: usize,
    pub title: String,
}

impl PickerState {
    /// A picker with the first item highlighted.
    pub fn new(title: String, items: Vec<PickerItem>) -> (r: PickerState)
        ensures
            r.items@ == items@,
            r.selected == 0,
            r.title == title,
    {
        PickerState { items, selected: 0, title }
    }

    /// Highlights the item above, staying on the first.
    pub fn move_up(&mut self)
        ensures
            final(self).selected == moved(old(self).selected as int, old(self).items@.len() as int, false),
            final(self).items@ == old(self).items@,
            final(self).title == old(self).title,
    {
        if self.selected > 0 {
            self.selected = self.selected - 1;
        }
    }

    /// Highlights the item below, staying on the last.
    pub fn move_down(&mut self)
        ensures
            final(self).selected == moved(old(self).selected as int, old(self).items@.len() as int, true),
            final(self).items@ == old(self).items@,
            final(self).title == old(self).title,
    {
        if self.selected < self.items.len() && self.selected + 1 < self.items.len() {
            self.selected = self.selected + 1;
        }
    }

    /// The shortcut key of the highlighted item, if it exists.
    pub fn selected_key(&self) -> (r: Option<char>)
        ensures
            r == if self.selected < self.items@.len() { Some(self.items@[self.selected as int].key) } else { None },
    {
        if self.selected < self.items.len() {
            Some(self.items[self.selected].key)
        } else {
            None
        }
    }
}

} // verus!
