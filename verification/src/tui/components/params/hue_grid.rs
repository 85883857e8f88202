//! Hue overrides grid: cell selection and typed hue entry.
//!
//! The eight hue cells stand in two rows of four. The hue values
//! themselves are angles in floating point and are kept by the caller;
//! this type holds which cell is selected and the text typed into it.

use vstd::prelude::*;
use crate::text::{pop_char, push_char};

verus! {

/// Number of hue cells in the grid.
pub const HUE_CELLS: usize = 8;

/// Number of hue cells in one row of the grid.
pub const ROW_WIDTH: usize = 4;

/// The cell above another one (the top row stays where it is).
pub open spec fn cell_above(i: nat) -> nat {
    if i >= 4 {
        (i - 4) as nat
    } else {
        i
    }
}

/// The cell below another one (the bottom row stays where it is).
pub open spec fn cell_below(i: nat) -> nat {
    if i < 4 {
        i + 4
    } else {
        i
    }
}

/// The cell to the left (the first cell stays where it is).
pub open spec fn cell_left(i: nat) -> nat {
    if i > 0 {
        (i - 1) as nat
    } else {
        i
    }
}

/// The cell to the right (the last cell stays where it is).
pub open spec fn cell_right(i: nat) -> nat {
    if i < 7 {
        i + 1
    } else {
        i
    }
}

/// A key pressed while a hue value is being typed.
#[derive(Debug, Clone, Copy, PartialEq, Eq, Structural)]
pub enum EditKey {
    Enter,
    Esc,
    Backspace,
    Char(char),
    Other,
}

/// What a key did to the value being typed.
#[derive(Debug, Clone, PartialEq, Eq)]
pub enum EditOutcome {
    /// Typing ended with Enter; the typed text, for the caller to read as
    /// a hue angle
    Submitted(String),
    /// Typing ended with Esc
    Cancelled,
    /// Typing goes on
    Editing,
}

/// Whether a character is an ASCII decimal digit.
pub open spec fn is_ascii_digit(c: char) -> bool {
    '0' <= c && c <= '9'
}

/// Whether typing a character into the buffer keeps it: digits always,
/// a decimal point only while the buffer holds none.
pub open spec fn accepts_char(buffer: Seq<char>, c: char) -> bool {
    is_ascii_digit(c) || (c == '.' && !buffer.contains('.'))
}

/// The buffer after typing a character.
pub open spec fn typed(buffer: Seq<char>, c: char) -> Seq<char> {
    if accepts_char(buffer, c) {
        buffer.push(c)
    } else {
        buffer
    }
}

/// The buffer after a backspace.
pub open spec fn backspaced(buffer: Seq<char>) -> Seq<char> {
    if buffer.len() == 0 {
        buffer
    } else {
        buffer.drop_last()
    }
}

/// Whether a text holds a decimal point.
fn has_decimal_point(s: &str) -> (r: bool)
    ensures
        r == s@.contains('.'),
{
    let n = s.unicode_len();
    let mut i: usize = 0;
    while i < n
        invariant
            n == s@.len(),
            i <= n,
            forall|j: int| 0 <= j < i ==> s@[j] != '.',
        decreases n - i,
    {
        if s.get_char(i) == '.' {
            return true;
        }
        i = i + 1;
    }
    false
}

/// Selection and text entry state of the hue overrides grid.
pub struct HueGridInput {
    selected: usize,
    editing: bool,
    edit_buffer: String,
}

impl View for HueGridInput {
    type V = (nat, bool, Seq<char>);

    /// The selected cell, whether a value is being typed, and the text
    /// typed so far.
    closed spec fn view(&self) -> (nat, bool, Seq<char>) {
        (self.selected as nat, self.editing, self.edit_buffer@)
    }
}

impl HueGridInput {
    #[verifier::type_invariant]
    spec fn inv(self) -> bool {
        self.selected < 8
    }

    /// The first cell selected, nothing being typed.
    pub fn new() -> (r: Self)
        ensures
            r@ == (0nat, false, Seq::<char>::empty()),
    {
        HueGridInput { selected: 0, editing: false, edit_buffer: String::new() }
    }

    /// The selected cell (0 to 7, row by row).
    pub fn selected(&self) -> (r: usize)
        ensures
            r == self@.0,
            r < 8,
    {
        proof {
            use_type_invariant(self);
        }
        self.selected
    }

    /// Whether a value is being typed into the selected cell.
    pub fn is_editing(&self) -> (r: bool)
        ensures
            r == self@.1,
    {
        self.editing
    }

    /// The text typed so far.
    pub fn edit_buffer(&self) -> (r: &str)
        ensures
            r@ == self@.2,
    {
        self.edit_buffer.as_str()
    }

    /// Select the cell one row up.
    pub fn move_up(&mut self)
        ensures
            final(self)@ == (cell_above(old(self)@.0), old(self)@.1, old(self)@.2),
    {
        proof {
            use_type_invariant(&*self);
        }
        if self.selected >= 4 {
            self.selected = self.selected - 4;
        }
    }

    /// Select the cell one row down.
    pub fn move_down(&mut self)
        ensures
            final(self)@ == (cell_below(old(self)@.0), old(self)@.1, old(self)@.2),
    {
        proof {
            use_type_invariant(&*self);
        }
        if self.selected < 4 {
            self.selected = self.selected + 4;
        }
    }

    /// Select the cell to the left.
    pub fn move_left(&mut self)
        ensures
            final(self)@ == (cell_left(old(self)@.0), old(self)@.1, old(self)@.2),
    {
        proof {
            use_type_invariant(&*self);
        }
        if self.selected > 0 {
            self.selected = self.selected - 1;
        }
    }

    /// Select the cell to the right.
    pub fn move_right(&mut self)
        ensures
            final(self)@ == (cell_right(old(self)@.0), old(self)@.1, old(self)@.2),
    {
        proof {
            use_type_invariant(&*self);
        }
        if self.selected < 7 {
            self.selected = self.selected + 1;
        }
    }

    /// Handle a key while a value is being typed: Enter hands back the
    /// typed text and ends typing, Esc drops it, Backspace deletes the last
    /// character, a character is typed, any other key does nothing.
    pub fn edit_key(&mut self, key: EditKey) -> (r: EditOutcome)
        ensures
            match key {
                EditKey::Enter => r matches EditOutcome::Submitted(t) && t@ == old(self)@.2
                    && final(self)@ == (old(self)@.0, false, Seq::<char>::empty()),
                EditKey::Esc => r == EditOutcome::Cancelled && final(self)@ == (
                    old(self)@.0,
                    false,
                    Seq::<char>::empty(),
                ),
                EditKey::Backspace => r == EditOutcome::Editing && final(self)@ == (
                    old(self)@.0,
                    old(self)@.1,
                    backspaced(old(self)@.2),
                ),
                EditKey::Char(c) => r == EditOutcome::Editing && final(self)@ == (
                    old(self)@.0,
                    old(self)@.1,
                    typed(old(self)@.2, c),
                ),
                EditKey::Other => r == EditOutcome::Editing && final(self)@ == old(self)@,
            },
    {
        match key {
            EditKey::Enter => EditOutcome::Submitted(self.finish_editing()),
            EditKey::Esc => {
                self.cancel_editing();
                EditOutcome::Cancelled
            },
            EditKey::Backspace => {
                self.delete_char();
                EditOutcome::Editing
            },
            EditKey::Char(c) => {
                self.type_char(c);
                EditOutcome::Editing
            },
            EditKey::Other => EditOutcome::Editing,
        }
    }

    /// Start typing into the selected cell, the buffer holding the cell's
    /// current value as text.
    pub fn start_editing(&mut self, current: String)
        ensures
            final(self)@ == (old(self)@.0, true, current@),
    {
        proof {
            use_type_invariant(&*self);
        }
        self.editing = true;
        self.edit_buffer = current;
    }

    /// Start typing with a digit key: the buffer holds that digit alone.
    /// Any other key leaves the grid as it was; the result says whether
    /// typing started.
    pub fn start_with_digit(&mut self, c: char) -> (r: bool)
        ensures
            r == is_ascii_digit(c),
            r ==> final(self)@ == (old(self)@.0, true, seq![c]),
            !r ==> final(self)@ == old(self)@,
    {
        proof {
            use_type_invariant(&*self);
        }
        if '0' <= c && c <= '9' {
            self.editing = true;
            let mut buffer = String::new();
            push_char(&mut buffer, c);
            assert(buffer@ =~= seq![c]);
            self.edit_buffer = buffer;
            true
        } else {
            false
        }
    }

    /// Stop typing and drop the typed text.
    pub fn cancel_editing(&mut self)
        ensures
            final(self)@ == (old(self)@.0, false, Seq::<char>::empty()),
    {
        proof {
            use_type_invariant(&*self);
        }
        self.editing = false;
        self.edit_buffer = String::new();
    }

    /// Stop typing and hand back the typed text, which the caller reads as
    /// a hue angle; the buffer is left empty.
    pub fn finish_editing(&mut self) -> (r: String)
        ensures
            r@ == old(self)@.2,
            final(self)@ == (old(self)@.0, false, Seq::<char>::empty()),
    {
        proof {
            use_type_invariant(&*self);
        }
        self.editing = false;
        let mut text = String::new();
        std::mem::swap(&mut text, &mut self.edit_buffer);
        text
    }

    /// Type a character: only digits, and one decimal point, are kept.
    pub fn type_char(&mut self, c: char)
        ensures
            final(self)@ == (old(self)@.0, old(self)@.1, typed(old(self)@.2, c)),
    {
        proof {
            use_type_invariant(&*self);
        }
        let is_digit = '0' <= c && c <= '9';
        if is_digit || (c == '.' && !has_decimal_point(self.edit_buffer.as_str())) {
            let mut buffer = String::new();
            std::mem::swap(&mut buffer, &mut self.edit_buffer);
            push_char(&mut buffer, c);
            self.edit_buffer = buffer;
        }
    }

    /// Delete the last typed character, if any.
    pub fn delete_char(&mut self)
        ensures
            final(self)@ == (old(self)@.0, old(self)@.1, backspaced(old(self)@.2)),
    {
        proof {
            use_type_invariant(&*self);
        }
        let mut buffer = String::new();
        std::mem::swap(&mut buffer, &mut self.edit_buffer);
        let _ = pop_char(&mut buffer);
        self.edit_buffer = buffer;
    }
}

impl Default for HueGridInput {
    fn default() -> (r: Self)
        ensures
            r@ == (0nat, false, Seq::<char>::empty()),
    {
        Self::new()
    }
}

/// Moving down then up (from the top row), or up then down (from the
/// bottom row), comes back to the same cell, and so does left then right
/// (or right then left) away from the ends; moves never leave the grid and
/// vertical moves keep the column.
pub proof fn lemma_hue_grid_moves(i: nat)
    requires
        i < 8,
    ensures
        cell_above(i) < 8,
        cell_below(i) < 8,
        i < 4 ==> cell_above(cell_below(i)) == i,
        i >= 4 ==> cell_below(cell_above(i)) == i,
        cell_above(cell_above(i)) == cell_above(i) <==> i < 4 || cell_above(i) < 4,
        cell_below(i) % 4 == i % 4,
        cell_above(i) % 4 == i % 4,
        cell_left(i) < 8,
        cell_right(i) < 8,
        0 < i ==> cell_right(cell_left(i)) == i,
        i < 7 ==> cell_left(cell_right(i)) == i,
{
}

/// Every decimal digit typed is kept at the end of the buffer; a decimal
/// point is kept exactly when the buffer holds none yet; any other
/// character leaves the buffer as it was.
pub proof fn lemma_typed_keeps_digits(buffer: Seq<char>, c: char)
    ensures
        '0' <= c && c <= '9' ==> typed(buffer, c) == buffer.push(c),
        '0' <= c && c <= '9' ==> is_ascii_digit(c),
        c == '.' && !buffer.contains('.') ==> typed(buffer, c) == buffer.push(c),
        c == '.' && buffer.contains('.') ==> typed(buffer, c) == buffer,
        !('0' <= c && c <= '9') && c != '.' ==> typed(buffer, c) == buffer,
{
}

/// Whether a text holds at most one decimal point.
pub open spec fn at_most_one_point(buffer: Seq<char>) -> bool {
    forall|i: int, j: int|
        0 <= i < buffer.len() && 0 <= j < buffer.len() && buffer[i] == '.' && buffer[j] == '.'
            ==> i == j
}

/// A character that the buffer accepts is taken back by one backspace;
/// and a buffer with at most one decimal point keeps at most one,
/// whatever is typed.
pub proof fn lemma_hue_entry_laws(buffer: Seq<char>, c: char)
    ensures
        accepts_char(buffer, c) ==> backspaced(typed(buffer, c)) == buffer,
        at_most_one_point(buffer) ==> at_most_one_point(typed(buffer, c)),
{
    let t = typed(buffer, c);
    if accepts_char(buffer, c) {
        assert(t.drop_last() =~= buffer);
    }
    if at_most_one_point(buffer) && accepts_char(buffer, c) {
        assert forall|i: int, j: int|
            0 <= i < t.len() && 0 <= j < t.len() && t[i] == '.' && t[j] == '.' implies i == j by {
            if i < buffer.len() {
                assert(buffer[i] == '.');
            }
            if j < buffer.len() {
                assert(buffer[j] == '.');
            }
            if c == '.' && (i < buffer.len() || j < buffer.len()) {
                assert(buffer.contains('.'));
            }
        }
    }
}

} // verus!
