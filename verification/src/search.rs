//! The search screen: the query being edited and its results.
//!
//! The query is kept as a list of characters, so the cursor always stands
//! between two of them.

use vstd::prelude::*;

use crate::domain::Track;
use crate::navigation::{ListSelection, ListState};
use crate::text::from_chars;

verus! {

#[derive(Debug)]
pub struct SearchState {
    pub input: Vec<char>,
    pub cursor: usize,
    /// Whether the query was edited since the last search.
    pub editing: bool,
    pub results: Vec<Track>,
    /// Where the related songs begin in `results`.
    pub related_from: usize,
    pub list_state: ListState,
    pub searching: bool,
    pub last_query: Option<String>,
}

impl Default for SearchState {
    fn default() -> (r: Self)
        ensures
            r.wf(),
            r.input@ == Seq::<char>::empty(),
            r.cursor == 0,
            !r.editing,
            r.results@ == Seq::<Track>::empty(),
            r.related_from == 0,
            r.list_state.selected is None,
            !r.searching,
            r.last_query is None,
    {
        SearchState {
            input: Vec::new(),
            cursor: 0,
            editing: false,
            results: Vec::new(),
            related_from: 0,
            list_state: ListState { selected: None },
            searching: false,
            last_query: None,
        }
    }
}

impl SearchState {
    /// The cursor stands inside the query or at its end.
    pub open spec fn wf(&self) -> bool {
        self.cursor <= self.input@.len()
    }

    /// Only the query, the cursor and the editing mark differ.
    pub open spec fn edited_from(&self, before: SearchState) -> bool {
        *self == (SearchState {
            input: self.input,
            cursor: self.cursor,
            editing: self.editing,
            ..before
        })
    }

    /// Types a character at the cursor.
    pub fn insert_char(&mut self, c: char)
        requires
            old(self).wf(),
            old(self).input@.len() < usize::MAX,
        ensures
            final(self).wf(),
            final(self).edited_from(*old(self)),
            final(self).input@ == old(self).input@.insert(old(self).cursor as int, c),
            final(self).cursor == old(self).cursor + 1,
            final(self).editing,
    {
        self.input.insert(self.cursor, c);
        self.cursor = self.cursor + 1;
        self.editing = true;
    }

    /// Deletes the character before the cursor.
    pub fn backspace(&mut self)
        requires
            old(self).wf(),
        ensures
            final(self).wf(),
            final(self).edited_from(*old(self)),
            old(self).cursor > 0 ==> {
                &&& final(self).input@ == old(self).input@.remove(old(self).cursor - 1)
                &&& final(self).cursor == old(self).cursor - 1
                &&& final(self).editing
            },
            old(self).cursor == 0 ==> *final(self) == *old(self),
    {
        if self.cursor > 0 {
            let _ = self.input.remove(self.cursor - 1);
            self.cursor = self.cursor - 1;
            self.editing = true;
        }
    }

    /// Deletes the character under the cursor.
    pub fn delete(&mut self)
        requires
            old(self).wf(),
        ensures
            final(self).wf(),
            final(self).edited_from(*old(self)),
            final(self).cursor == old(self).cursor,
            old(self).cursor < old(self).input@.len() ==> {
                &&& final(self).input@ == old(self).input@.remove(old(self).cursor as int)
                &&& final(self).editing
            },
            old(self).cursor == old(self).input@.len() ==> *final(self) == *old(self),
    {
        if self.cursor < self.input.len() {
            let _ = self.input.remove(self.cursor);
            self.editing = true;
        }
    }

    /// Empties the query.
    pub fn clear(&mut self)
        ensures
            final(self).wf(),
            final(self).edited_from(*old(self)),
            final(self).input@ == Seq::<char>::empty(),
            final(self).cursor == 0,
            final(self).editing,
    {
        self.input.clear();
        self.cursor = 0;
        self.editing = true;
    }

    pub fn move_cursor_left(&mut self)
        requires
            old(self).wf(),
        ensures
            final(self).wf(),
            *final(self) == (SearchState {
                cursor: if old(self).cursor > 0 {
                    (old(self).cursor - 1) as usize
                } else {
                    0
                },
                ..*old(self)
            }),
    {
        self.cursor = self.cursor.saturating_sub(1);
    }

    pub fn move_cursor_right(&mut self)
        requires
            old(self).wf(),
        ensures
            final(self).wf(),
            *final(self) == (SearchState {
                cursor: if old(self).cursor < old(self).input@.len() {
                    (old(self).cursor + 1) as usize
                } else {
                    old(self).cursor
                },
                ..*old(self)
            }),
    {
        if self.cursor < self.input.len() {
            self.cursor = self.cursor + 1;
        }
    }

    pub fn move_cursor_home(&mut self)
        ensures
            final(self).wf(),
            *final(self) == (SearchState { cursor: 0, ..*old(self) }),
    {
        self.cursor = 0;
    }

    pub fn move_cursor_end(&mut self)
        ensures
            final(self).wf(),
            *final(self) == (SearchState {
                cursor: old(self).input@.len() as usize,
                ..*old(self)
            }),
    {
        self.cursor = self.input.len();
    }

    /// The query as it is shown.
    pub fn text(&self) -> (r: String)
        ensures
            r@ == self.input@,
    {
        from_chars(&self.input)
    }

    /// The selected result.
    pub open spec fn picked(&self) -> Option<Track> {
        match self.list_state.selected {
            Some(i) => if i < self.results@.len() {
                Some(self.results@[i as int])
            } else {
                None
            },
            None => None,
        }
    }

    /// The selected result.
    pub fn selected(&self) -> (r: Option<&Track>)
        ensures
            match self.picked() {
                Some(t) => r == Some(&t),
                None => r is None,
            },
    {
        match self.list_state.selected() {
            Some(i) => if i < self.results.len() {
                Some(&self.results[i])
            } else {
                None
            },
            None => None,
        }
    }

    pub fn select_next(&mut self)
        ensures
            *final(self) == old(self).with_chosen(
                crate::navigation::stepped(old(self).rows(), old(self).chosen(), true),
            ),
    {
        self.step(true);
    }

    pub fn select_prev(&mut self)
        ensures
            *final(self) == old(self).with_chosen(
                crate::navigation::stepped(old(self).rows(), old(self).chosen(), false),
            ),
    {
        self.step(false);
    }
}

impl ListSelection for SearchState {
    open spec fn rows(&self) -> nat {
        self.results@.len()
    }

    open spec fn chosen(&self) -> Option<usize> {
        self.list_state.selected
    }

    open spec fn with_chosen(&self, index: Option<usize>) -> Self {
        SearchState { list_state: ListState { selected: index }, ..*self }
    }

    fn list_len(&self) -> usize {
        self.results.len()
    }

    fn cursor(&self) -> Option<usize> {
        self.list_state.selected()
    }

    fn set_cursor(&mut self, index: Option<usize>) {
        self.list_state.select(index);
    }
}

/// The code points that take two cells.
pub open spec fn is_wide(n: int) -> bool {
    ||| 0x1100 <= n <= 0x115F
    ||| 0x2E80 <= n <= 0xA4CF
    ||| 0xAC00 <= n <= 0xD7A3
    ||| 0xF900 <= n <= 0xFAFF
    ||| 0xFE30 <= n <= 0xFE4F
    ||| 0xFF00 <= n <= 0xFF60
    ||| 0xFFE0 <= n <= 0xFFE6
    ||| 0x1F300 <= n <= 0x1F64F
    ||| 0x1F900 <= n <= 0x1F9FF
    ||| 0x20000 <= n <= 0x2FFFD
    ||| 0x30000 <= n <= 0x3FFFD
}

/// Cells that a character takes: two for the wide East Asian ranges and emoji.
pub fn uniseg_width(c: char) -> (r: u16)
    ensures
        r == (if is_wide(c as int) { 2u16 } else { 1u16 }),
{
    let n: u32 = c as u32;
    if (n >= 0x1100 && n <= 0x115F) || (n >= 0x2E80 && n <= 0xA4CF) || (n >= 0xAC00 && n
        <= 0xD7A3) || (n >= 0xF900 && n <= 0xFAFF) || (n >= 0xFE30 && n <= 0xFE4F) || (n >= 0xFF00
        && n <= 0xFF60) || (n >= 0xFFE0 && n <= 0xFFE6) || (n >= 0x1F300 && n <= 0x1F64F) || (n
        >= 0x1F900 && n <= 0x1F9FF) || (n >= 0x20000 && n <= 0x2FFFD) || (n >= 0x30000 && n
        <= 0x3FFFD) {
        2
    } else {
        1
    }
}

/// Cells that the characters of `s` take together.
pub open spec fn cells(s: Seq<char>) -> nat
    decreases s.len(),
{
    if s.len() == 0 {
        0
    } else {
        cells(s.drop_last()) + (if is_wide(s.last() as int) {
            2nat
        } else {
            1nat
        })
    }
}

proof fn lemma_cells_bound(s: Seq<char>)
    ensures
        s.len() <= cells(s) <= 2 * s.len(),
    decreases s.len(),
{
    if s.len() > 0 {
        lemma_cells_bound(s.drop_last());
    }
}

/// Column of the terminal cursor in the query box: after the border, the
/// prompt of two cells and the text before the cursor, but inside the box.
pub fn cursor_column(state: &SearchState, x: u16, right: u16) -> (r: u16)
    requires
        state.wf(),
        x + 3 + cells(state.input@.take(state.cursor as int)) <= u16::MAX,
    ensures
        ({
            let wish = x + 3 + cells(state.input@.take(state.cursor as int));
            let last = if right > 0 {
                right - 1
            } else {
                0
            };
            r == (if wish < last {
                wish
            } else {
                last
            })
        }),
{
    let mut width: u16 = 0;
    let mut i: usize = 0;
    proof {
        assert(state.input@.take(0) =~= Seq::<char>::empty());
    }
    while i < state.cursor
        invariant
            0 <= i <= state.cursor,
            state.cursor <= state.input@.len(),
            width == cells(state.input@.take(i as int)),
            x + 3 + cells(state.input@.take(state.cursor as int)) <= u16::MAX,
        decreases state.cursor - i,
    {
        proof {
            let next = state.input@.take(i + 1);
            assert(next.drop_last() =~= state.input@.take(i as int));
            assert(next.last() == state.input@[i as int]);
            lemma_cells_monotone(state.input@.take(state.cursor as int), i + 1);
            assert(state.input@.take(state.cursor as int).take(i + 1) =~= next);
        }
        width = width + uniseg_width(state.input[i]);
        i = i + 1;
    }
    let wish: u16 = x + 3 + width;
    let last: u16 = right.saturating_sub(1);
    if wish < last {
        wish
    } else {
        last
    }
}

proof fn lemma_cells_monotone(s: Seq<char>, n: int)
    requires
        0 <= n <= s.len(),
    ensures
        cells(s.take(n)) <= cells(s),
    decreases s.len() - n,
{
    if n < s.len() {
        lemma_cells_monotone(s, n + 1);
        assert(s.take(n + 1).drop_last() =~= s.take(n));
    } else {
        assert(s.take(n) =~= s);
    }
}

/// Deleting what was just typed brings the query and the cursor back.
pub proof fn law_backspace_undoes_typing(input: Seq<char>, cursor: int, c: char)
    requires
        0 <= cursor <= input.len(),
    ensures
        input.insert(cursor, c).remove(cursor + 1 - 1) == input,
{
    assert(input.insert(cursor, c).remove(cursor) =~= input);
}

/// Every character takes one or two cells.
pub proof fn law_text_width_is_bounded(s: Seq<char>)
    ensures
        s.len() <= cells(s) <= 2 * s.len(),
{
    lemma_cells_bound(s);
}

/// The cells of a text are those of its characters: each more character takes as
/// many as it takes alone.
pub proof fn law_text_takes_the_cells_of_its_characters(s: Seq<char>, c: char, w: u16)
    requires
        call_ensures(uniseg_width, (c,), w),
    ensures
        cells(s.push(c)) == cells(s) + w,
        cells(Seq::<char>::empty()) == 0,
        w == 1 || w == 2,
        (c as int) < 0x1100 ==> w == 1,
        0x3041 <= c as int <= 0x9FFF ==> w == 2,
        0xAC00 <= c as int <= 0xD7A3 ==> w == 2,
        0x1F300 <= c as int <= 0x1F64F ==> w == 2,
{
    assert(s.push(c).drop_last() =~= s);
}

/// The terminal cursor stands three cells behind the left edge of the field and
/// the text before it, and moves with a character by the cells that this takes;
/// it never leaves the field.
pub proof fn law_cursor_follows_the_text(
    state: SearchState,
    further: SearchState,
    x: u16,
    right: u16,
    at: u16,
    then: u16,
    w: u16,
)
    requires
        state.wf(),
        state.cursor < state.input@.len(),
        further == (SearchState { cursor: further.cursor, ..state }),
        further.cursor == state.cursor + 1,
        x + 3 + cells(state.input@.take(state.cursor + 1)) < right,
        x + 3 + cells(state.input@.take(state.cursor as int)) <= u16::MAX,
        call_ensures(cursor_column, (&state, x, right), at),
        call_ensures(cursor_column, (&further, x, right), then),
        call_ensures(uniseg_width, (state.input@[state.cursor as int],), w),
    ensures
        then == at + w,
        then < right,
        state.cursor == 0 ==> at == x + 3,
{
    let s = state.input@.take(state.cursor as int);
    let c = state.input@[state.cursor as int];
    assert(state.input@.take(state.cursor + 1) =~= s.push(c));
    assert(s.push(c).drop_last() =~= s);
}

/// A typed character stands before the cursor, and Backspace brings the query and
/// the cursor back.
pub proof fn law_backspace_undoes_a_key(s: &mut SearchState, c: char, t: &mut SearchState)
    requires
        old(s).wf(),
        call_ensures(SearchState::insert_char, (s, c), ()),
        *old(t) == *final(s),
        call_ensures(SearchState::backspace, (t,), ()),
    ensures
        final(s).cursor == old(s).cursor + 1,
        final(s).input@[old(s).cursor as int] == c,
        final(t).input@ == old(s).input@,
        final(t).cursor == old(s).cursor,
        final(t).results == old(s).results,
{
    assert(old(s).input@.insert(old(s).cursor as int, c).remove(old(s).cursor as int)
        =~= old(s).input@);
}

} // verus!
