//! The selection state of a list widget, and moving the selection with
//! wrap-around.

use vstd::prelude::*;

verus! {

/// Which item of a list is selected, and the first item shown.  The widget
/// clamps an out-of-range selection to the last item when it draws.
#[derive(Debug, Default, Clone, Copy, PartialEq, Eq)]
pub struct ListState {
    pub offset: usize,
    pub selected: Option<usize>,
}

impl ListState {
    /// Nothing selected, showing from the first item.
    pub fn new() -> (r: ListState)
        ensures
            r.offset == 0,
            r.selected is None,
    {
        ListState { offset: 0, selected: None }
    }

    pub fn selected(&self) -> (r: Option<usize>)
        ensures
            r == self.selected,
    {
        self.selected
    }

    pub fn offset(&self) -> (r: usize)
        ensures
            r == self.offset,
    {
        self.offset
    }

    /// Selects `index`; clearing the selection also scrolls back to the top.
    pub fn select(&mut self, index: Option<usize>)
        ensures
            final(self).selected == index,
            final(self).offset == if index is None {
                0
            } else {
                old(self).offset
            },
    {
        self.selected = index;
        if index.is_none() {
            self.offset = 0;
        }
    }

    /// Selects the item after the selected one, or the first.
    pub fn select_next(&mut self)
        ensures
            final(self).selected == Some(
                match old(self).selected {
                    Some(i) => if i == usize::MAX {
                        usize::MAX
                    } else {
                        (i + 1) as usize
                    },
                    None => 0usize,
                },
            ),
            final(self).offset == old(self).offset,
    {
        let next = match self.selected {
            Some(i) => i.saturating_add(1),
            None => 0,
        };
        self.select(Some(next));
    }

    /// Selects the item before the selected one, or the last.
    pub fn select_previous(&mut self)
        ensures
            final(self).selected == Some(
                match old(self).selected {
                    Some(i) => if i == 0 {
                        0
                    } else {
                        (i - 1) as usize
                    },
                    None => usize::MAX,
                },
            ),
            final(self).offset == old(self).offset,
    {
        let previous = match self.selected {
            Some(i) => i.saturating_sub(1),
            None => usize::MAX,
        };
        self.select(Some(previous));
    }

    /// Selects the first item.
    pub fn select_first(&mut self)
        ensures
            final(self).selected == Some(0usize),
            final(self).offset == old(self).offset,
    {
        self.select(Some(0));
    }

    /// Selects the last item: the largest index, which drawing clamps.
    pub fn select_last(&mut self)
        ensures
            final(self).selected == Some(usize::MAX),
            final(self).offset == old(self).offset,
    {
        self.select(Some(usize::MAX));
    }
}

/// The state after moving the selection up with wrap-around.
pub open spec fn prev_or_last(s: ListState) -> ListState {
    ListState {
        selected: Some(
            match s.selected {
                Some(i) => if i == 0 {
                    usize::MAX
                } else {
                    (i - 1) as usize
                },
                None => usize::MAX,
            },
        ),
        ..s
    }
}

/// The state after moving the selection down among `count` items with
/// wrap-around.
pub open spec fn next_or_first(s: ListState, count: usize) -> ListState {
    ListState {
        selected: Some(
            match s.selected {
                Some(i) => if i >= count - 1 {
                    0usize
                } else {
                    (i + 1) as usize
                },
                None => 0usize,
            },
        ),
        ..s
    }
}

/// Moving the selection with wrap-around.
pub trait ListStateExt {
    spec fn selection(&self) -> Option<usize>;

    spec fn first_shown(&self) -> usize;

    /// Selects the previous item; from the first item, or with nothing
    /// selected, selects the last.
    fn select_prev_or_last(&mut self)
        ensures
            final(self).selection() == Some(
                match old(self).selection() {
                    Some(s) => if s == 0 {
                        usize::MAX
                    } else {
                        (s - 1) as usize
                    },
                    None => usize::MAX,
                },
            ),
            final(self).first_shown() == old(self).first_shown(),
    ;

    /// Selects the next item of `count`; from the last one, selects the
    /// first, and with nothing selected, the first too.
    fn select_next_or_first(&mut self, count: usize)
        requires
            old(self).selection() is Some ==> count > 0,
        ensures
            final(self).selection() == Some(
                match old(self).selection() {
                    Some(s) => if s >= count - 1 {
                        0usize
                    } else {
                        (s + 1) as usize
                    },
                    None => 0usize,
                },
            ),
            final(self).first_shown() == old(self).first_shown(),
    ;
}

impl ListStateExt for ListState {
    open spec fn selection(&self) -> Option<usize> {
        self.selected
    }

    open spec fn first_shown(&self) -> usize {
        self.offset
    }

    fn select_prev_or_last(&mut self) {
        match self.selected() {
            None => self.select_last(),
            Some(s) => {
                if s == 0 {
                    self.select_last();
                } else {
                    self.select_previous();
                }
            },
        }
    }

    fn select_next_or_first(&mut self, count: usize) {
        match self.selected() {
            Some(s) => {
                if s >= count - 1 {
                    self.select_first();
                } else {
                    self.select_next();
                }
            },
            None => self.select_next(),
        }
    }
}

} // verus!
