//! Moving the selection of a list.

use vstd::prelude::*;

verus! {

/// The selected row of a list, if any.
#[derive(Debug, Clone, Copy, PartialEq, Eq, Structural)]
pub struct ListState {
    pub selected: Option<usize>,
}

impl Default for ListState {
    fn default() -> (r: Self)
        ensures
            r == (ListState { selected: None }),
    {
        ListState { selected: None }
    }
}

impl ListState {
    /// The selected row.
    pub fn selected(&self) -> (r: Option<usize>)
        ensures
            r == self.selected,
    {
        self.selected
    }

    /// Selects a row, or none.
    pub fn select(&mut self, index: Option<usize>)
        ensures
            *final(self) == (ListState { selected: index }),
    {
        self.selected = index;
    }
}

/// The row after (or before) the selected one, going round at the ends. With
/// nothing selected the walk starts at the near end; an empty list has no row.
pub open spec fn stepped(len: nat, selected: Option<usize>, forward: bool) -> Option<usize> {
    if len == 0 {
        None
    } else {
        match selected {
            None => Some(if forward { 0 } else { (len - 1) as usize }),
            Some(i) => Some(
                if forward {
                    if i + 1 < len {
                        (i + 1) as usize
                    } else {
                        0
                    }
                } else {
                    if 0 < i <= len {
                        (i - 1) as usize
                    } else {
                        (len - 1) as usize
                    }
                },
            ),
        }
    }
}

/// The selection after one step in a list of `len` rows.
pub fn step_selection(len: usize, selected: Option<usize>, forward: bool) -> (r: Option<usize>)
    ensures
        r == stepped(len as nat, selected, forward),
{
    if len == 0 {
        return None;
    }
    match selected {
        None => Some(if forward { 0 } else { len - 1 }),
        Some(i) => Some(
            if forward {
                if i < len - 1 {
                    i + 1
                } else {
                    0
                }
            } else {
                if i > 0 && i <= len {
                    i - 1
                } else {
                    len - 1
                }
            },
        ),
    }
}

/// A list with one selected row.
pub trait ListSelection: Sized {
    /// Number of rows.
    spec fn rows(&self) -> nat;

    /// The selected row.
    spec fn chosen(&self) -> Option<usize>;

    /// The same list with another selected row.
    spec fn with_chosen(&self, index: Option<usize>) -> Self;

    fn list_len(&self) -> (r: usize)
        ensures
            r == self.rows(),
    ;

    fn cursor(&self) -> (r: Option<usize>)
        ensures
            r == self.chosen(),
    ;

    fn set_cursor(&mut self, index: Option<usize>)
        ensures
            *final(self) == old(self).with_chosen(index),
    ;

    /// Moves the selection one row down (`forward`) or up.
    fn step(&mut self, forward: bool)
        ensures
            *final(self) == old(self).with_chosen(
                stepped(old(self).rows(), old(self).chosen(), forward),
            ),
    {
        let next = step_selection(self.list_len(), self.cursor(), forward);
        self.set_cursor(next);
    }
}

/// A step always lands on a row of the list, and selects something exactly
/// when there is something to select.
pub proof fn law_step_stays_in_the_list(len: nat, selected: Option<usize>, forward: bool)
    requires
        len <= usize::MAX,
    ensures
        stepped(len, selected, forward) is None <==> len == 0,
        stepped(len, selected, forward) is Some ==> stepped(len, selected, forward)->0 < len,
{
}

/// A step back undoes a step forward, and the other way round.
pub proof fn law_steps_undo_each_other(len: nat, i: usize, forward: bool)
    requires
        i < len <= usize::MAX,
    ensures
        stepped(len, stepped(len, Some(i), forward), !forward) == Some(i),
{
}

/// A step goes to the neighbour of the selected row; from the last row forward to
/// the first, from the first back to the last. With nothing selected it goes to
/// the first row forward and to the last one back.
pub proof fn law_step_goes_to_the_neighbour(
    len: usize,
    selected: Option<usize>,
    next: Option<usize>,
    previous: Option<usize>,
)
    requires
        len > 0,
        selected is Some ==> selected->0 < len,
        call_ensures(step_selection, (len, selected, true), next),
        call_ensures(step_selection, (len, selected, false), previous),
    ensures
        next is Some && previous is Some,
        selected is None ==> next->0 == 0 && previous->0 == len - 1,
        selected is Some && selected->0 + 1 < len ==> next->0 == selected->0 + 1,
        selected is Some && selected->0 + 1 == len ==> next->0 == 0,
        selected is Some && selected->0 > 0 ==> previous->0 == selected->0 - 1,
        selected is Some && selected->0 == 0 ==> previous->0 == len - 1,
{
}

} // verus!
