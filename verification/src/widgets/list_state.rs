//! Which item of a list is selected.
use vstd::prelude::*;

verus! {

/// The selected item of a list, as ratatui's `ListState` keeps it: an index, which may
/// lie past the end of the list until the list is drawn, or none.
#[derive(Debug, Clone, Copy, PartialEq, Eq, Structural)]
pub struct ListSelection {
    pub selected: Option<usize>,
}

impl ListSelection {
    /// Selects the first item.
    pub fn first() -> (r: Self)
        ensures
            r.selected == Some(0usize),
    {
        ListSelection { selected: Some(0) }
    }

    /// The selected index, if any.
    pub fn selected(&self) -> (r: Option<usize>)
        ensures
            r == self.selected,
    {
        self.selected
    }

    /// Selects `index`, or nothing.
    pub fn select(&mut self, index: Option<usize>)
        ensures
            final(self).selected == index,
    {
        self.selected = index;
    }

    /// Selects the item after the selected one, or the first where none is.
    pub fn select_next(&mut self)
        ensures
            final(self).selected == Some(
                match old(self).selected {
                    Some(i) => if i == usize::MAX {
                        usize::MAX
                    } else {
                        (i + 1) as usize
                    },
                    None => 0usize,
                },
            ),
    {
        let next = match self.selected {
            Some(i) => i.saturating_add(1),
            None => 0,
        };
        self.select(Some(next));
    }

    /// Selects the item before the selected one, or the last where none is (`usize::MAX`,
    /// which drawing the list brings back to its last item).
    pub fn select_previous(&mut self)
        ensures
            final(self).selected == Some(
                match old(self).selected {
                    Some(i) => if i == 0 {
                        0usize
                    } else {
                        (i - 1) as usize
                    },
                    None => usize::MAX,
                },
            ),
    {
        let previous = match self.selected {
            Some(i) => i.saturating_sub(1),
            None => usize::MAX,
        };
        self.select(Some(previous));
    }
}

} // verus!
