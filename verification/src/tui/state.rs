//! Parameter-pane state of the editor: focus order, field kinds, variant
//! cycling and validation scrolling.

use vstd::prelude::*;

use vstd::string::*;
use vstd::utf8::*;

use crate::cli_args::VariantArg;
use crate::text::push_char;

verus! {

/// Which pane is currently active.
#[derive(Debug, Clone, Copy, PartialEq, Eq, Structural)]
pub enum Pane {
    Parameters,
    Validation,
}

impl Default for Pane {
    fn default() -> (r: Self)
        ensures
            r == Pane::Parameters,
    {
        Pane::Parameters
    }
}

/// Focus target for keyboard navigation within the parameters pane.
#[derive(Debug, Clone, Copy, PartialEq, Eq, Structural)]
pub enum Focus {
    Background,
    Foreground,
    TargetContrast,
    ExtendedContrast,
    AccentChroma,
    ExtendedChroma,
    Variant,
    Hue08,
    Hue09,
    Hue0A,
    Hue0B,
    Hue0C,
    Hue0D,
    Hue0E,
    Hue0F,
    Name,
    Author,
}

impl Default for Focus {
    fn default() -> (r: Self)
        ensures
            r == Focus::Background,
    {
        Focus::Background
    }
}

/// Position of a focus target in the navigation order.
pub open spec fn focus_index(f: Focus) -> int {
    match f {
        Focus::Background => 0,
        Focus::Foreground => 1,
        Focus::TargetContrast => 2,
        Focus::ExtendedContrast => 3,
        Focus::AccentChroma => 4,
        Focus::ExtendedChroma => 5,
        Focus::Variant => 6,
        Focus::Hue08 => 7,
        Focus::Hue09 => 8,
        Focus::Hue0A => 9,
        Focus::Hue0B => 10,
        Focus::Hue0C => 11,
        Focus::Hue0D => 12,
        Focus::Hue0E => 13,
        Focus::Hue0F => 14,
        Focus::Name => 15,
        Focus::Author => 16,
    }
}

/// The focus target at a position of the navigation order (modulo 17).
pub open spec fn focus_at(i: int) -> Focus {
    let k = i % 17;
    if k == 0 {
        Focus::Background
    } else if k == 1 {
        Focus::Foreground
    } else if k == 2 {
        Focus::TargetContrast
    } else if k == 3 {
        Focus::ExtendedContrast
    } else if k == 4 {
        Focus::AccentChroma
    } else if k == 5 {
        Focus::ExtendedChroma
    } else if k == 6 {
        Focus::Variant
    } else if k == 7 {
        Focus::Hue08
    } else if k == 8 {
        Focus::Hue09
    } else if k == 9 {
        Focus::Hue0A
    } else if k == 10 {
        Focus::Hue0B
    } else if k == 11 {
        Focus::Hue0C
    } else if k == 12 {
        Focus::Hue0D
    } else if k == 13 {
        Focus::Hue0E
    } else if k == 14 {
        Focus::Hue0F
    } else if k == 15 {
        Focus::Name
    } else {
        Focus::Author
    }
}

impl Focus {
    /// Get the next focus target.
    pub fn next(self) -> (r: Self)
        ensures
            r == focus_at(focus_index(self) + 1),
    {
        match self {
            Focus::Background => Focus::Foreground,
            Focus::Foreground => Focus::TargetContrast,
            Focus::TargetContrast => Focus::ExtendedContrast,
            Focus::ExtendedContrast => Focus::AccentChroma,
            Focus::AccentChroma => Focus::ExtendedChroma,
            Focus::ExtendedChroma => Focus::Variant,
            Focus::Variant => Focus::Hue08,
            Focus::Hue08 => Focus::Hue09,
            Focus::Hue09 => Focus::Hue0A,
            Focus::Hue0A => Focus::Hue0B,
            Focus::Hue0B => Focus::Hue0C,
            Focus::Hue0C => Focus::Hue0D,
            Focus::Hue0D => Focus::Hue0E,
            Focus::Hue0E => Focus::Hue0F,
            Focus::Hue0F => Focus::Name,
            Focus::Name => Focus::Author,
            Focus::Author => Focus::Background,
        }
    }

    /// Get the previous focus target.
    pub fn prev(self) -> (r: Self)
        ensures
            r == focus_at(focus_index(self) + 16),
    {
        match self {
            Focus::Background => Focus::Author,
            Focus::Foreground => Focus::Background,
            Focus::TargetContrast => Focus::Foreground,
            Focus::ExtendedContrast => Focus::TargetContrast,
            Focus::AccentChroma => Focus::ExtendedContrast,
            Focus::ExtendedChroma => Focus::AccentChroma,
            Focus::Variant => Focus::ExtendedChroma,
            Focus::Hue08 => Focus::Variant,
            Focus::Hue09 => Focus::Hue08,
            Focus::Hue0A => Focus::Hue09,
            Focus::Hue0B => Focus::Hue0A,
            Focus::Hue0C => Focus::Hue0B,
            Focus::Hue0D => Focus::Hue0C,
            Focus::Hue0E => Focus::Hue0D,
            Focus::Hue0F => Focus::Hue0E,
            Focus::Name => Focus::Hue0F,
            Focus::Author => Focus::Name,
        }
    }

    /// Whether this focus target is a text field.
    pub fn is_text_field(self) -> (r: bool)
        ensures
            r <==> (self == Focus::Background || self == Focus::Foreground || self == Focus::Name
                || self == Focus::Author),
    {
        match self {
            Focus::Background | Focus::Foreground | Focus::Name | Focus::Author => true,
            _ => false,
        }
    }

    /// Whether this focus target is the variant selector.
    pub fn is_variant_field(self) -> (r: bool)
        ensures
            r <==> self == Focus::Variant,
    {
        match self {
            Focus::Variant => true,
            _ => false,
        }
    }

    /// The accent slot (0-7) whose hue this focus target edits, if any.
    pub fn hue_slot(self) -> (r: Option<usize>)
        ensures
            r matches Some(i) ==> 7 <= focus_index(self) <= 14 && i == focus_index(self) - 7,
            r is None ==> !(7 <= focus_index(self) <= 14),
    {
        match self {
            Focus::Hue08 => Some(0),
            Focus::Hue09 => Some(1),
            Focus::Hue0A => Some(2),
            Focus::Hue0B => Some(3),
            Focus::Hue0C => Some(4),
            Focus::Hue0D => Some(5),
            Focus::Hue0E => Some(6),
            Focus::Hue0F => Some(7),
            _ => None,
        }
    }
}

/// Moving focus forward then back (or back then forward) returns to the
/// starting target.
pub proof fn lemma_focus_next_prev_inverse(f: Focus)
    ensures
        focus_at(focus_index(focus_at(focus_index(f) + 1)) + 16) == f,
        focus_at(focus_index(focus_at(focus_index(f) + 16)) + 1) == f,
{
}

/// Moving focus forward visits all 17 targets before coming back.
pub proof fn lemma_focus_cycle_length(f: Focus, n: nat)
    ensures
        focus_at(focus_index(f) + n) == f <==> n % 17 == 0,
{
}

/// The variant choice after one step left (`forward == false`) or right.
pub open spec fn cycle_variant_spec(current: VariantArg, forward: bool) -> VariantArg {
    if forward {
        match current {
            VariantArg::Auto => VariantArg::Dark,
            VariantArg::Dark => VariantArg::Light,
            VariantArg::Light => VariantArg::Auto,
            VariantArg::Both => VariantArg::Auto,
        }
    } else {
        match current {
            VariantArg::Auto => VariantArg::Light,
            VariantArg::Dark => VariantArg::Auto,
            VariantArg::Light => VariantArg::Dark,
            VariantArg::Both => VariantArg::Auto,
        }
    }
}

/// Cycle through variant options (auto, dark, light); `both` is left for
/// `auto` in either direction.
pub fn cycle_variant(current: VariantArg, forward: bool) -> (r: VariantArg)
    ensures
        r == cycle_variant_spec(current, forward),
{
    if forward {
        match current {
            VariantArg::Auto => VariantArg::Dark,
            VariantArg::Dark => VariantArg::Light,
            VariantArg::Light => VariantArg::Auto,
            VariantArg::Both => VariantArg::Auto,
        }
    } else {
        match current {
            VariantArg::Auto => VariantArg::Light,
            VariantArg::Dark => VariantArg::Auto,
            VariantArg::Light => VariantArg::Dark,
            VariantArg::Both => VariantArg::Auto,
        }
    }
}

/// Cycling the variant one way and then the other restores any variant
/// but `both`; three steps in one direction return to the start; `both`
/// is never reached.
pub proof fn lemma_cycle_variant_laws(v: VariantArg, forward: bool)
    ensures
        v != VariantArg::Both ==> cycle_variant_spec(cycle_variant_spec(v, forward), !forward) == v,
        v != VariantArg::Both ==> cycle_variant_spec(
            cycle_variant_spec(cycle_variant_spec(v, forward), forward),
            forward,
        ) == v,
        cycle_variant_spec(v, forward) != VariantArg::Both,
{
}

/// Scroll position after scrolling up by some lines, stopping at the top.
pub open spec fn scrolled_up(scroll: int, lines: int) -> int {
    if scroll >= lines {
        scroll - lines
    } else {
        0
    }
}

/// Scroll position after scrolling down by some lines, stopping at the
/// 16-bit limit and at `max_scroll`.
pub open spec fn scrolled_down(scroll: int, lines: int, max_scroll: int) -> int {
    vstd::math::min(vstd::math::min(scroll + lines, u16::MAX as int), max_scroll)
}

/// Scrolling up never moves down and never passes the top; scrolling down
/// never passes the limit, never moves up from a position within it, moves
/// by exactly the lines asked when there is room, and is then undone by
/// scrolling up as far.
pub proof fn lemma_scroll_laws(scroll: u16, lines: u16, max_scroll: u16)
    ensures
        0 <= scrolled_up(scroll as int, lines as int) <= scroll,
        scroll >= lines ==> scrolled_up(scroll as int, lines as int) + lines == scroll,
        scrolled_down(scroll as int, lines as int, max_scroll as int) <= max_scroll,
        scroll <= max_scroll ==> scrolled_down(scroll as int, lines as int, max_scroll as int)
            >= scroll,
        scroll + lines <= max_scroll ==> scrolled_down(scroll as int, lines as int, max_scroll as int)
            == scroll + lines && scrolled_up(
            scrolled_down(scroll as int, lines as int, max_scroll as int),
            lines as int,
        ) == scroll,
{
}

/// Scroll position after scrolling the validation pane up.
pub fn scroll_validation_up(scroll: u16, lines: u16) -> (r: u16)
    ensures
        r == scrolled_up(scroll as int, lines as int),
{
    scroll.saturating_sub(lines)
}

/// Scroll position after scrolling the validation pane down, never past
/// `max_scroll`.
pub fn scroll_validation_down(scroll: u16, lines: u16, max_scroll: u16) -> (r: u16)
    ensures
        r == scrolled_down(scroll as int, lines as int, max_scroll as int),
{
    let s = scroll.saturating_add(lines);
    if s < max_scroll {
        s
    } else {
        max_scroll
    }
}

/// Number of lines of validation content: a summary and a blank line, one
/// line per failing check (or one success line), and when there are
/// generation warnings a blank line, a header and at most three of them.
/// The count is reduced to 16 bits as the pane stores it; counts past the
/// machine word are outside the domain.
pub open spec fn validation_lines_spec(has_scheme: bool, failures: nat, warnings: nat) -> int {
    if !has_scheme {
        1
    } else {
        (2 + (if failures == 0 { 1 } else { failures }) + (if warnings == 0 {
            0
        } else {
            2 + vstd::math::min(warnings as int, 3)
        })) % 65536
    }
}

/// Calculate the total number of lines in validation content.
pub fn validation_content_lines(has_scheme: bool, failures: usize, warnings: usize) -> (r: u16)
    requires
        has_scheme ==> 2 + (if failures == 0 { 1 } else { failures as int }) + (if warnings == 0 {
            0
        } else {
            2 + vstd::math::min(warnings as int, 3)
        }) <= usize::MAX,
    ensures
        r == validation_lines_spec(has_scheme, failures as nat, warnings as nat),
{
    if !has_scheme {
        return 1;
    }
    let mut lines: u128 = 2;
    if failures == 0 {
        lines = lines + 1;
    } else {
        lines = lines + failures as u128;
    }
    if warnings != 0 {
        lines = lines + 2;
        lines = lines + if warnings < 3 { warnings as u128 } else { 3 };
    }
    (lines % 65536) as u16
}

/// The byte offset a text cursor stands at: the cursor, or the end of the
/// text when the cursor is past it.
pub open spec fn cursor_offset(cursor: usize, s: Seq<char>) -> int {
    vstd::math::min(cursor as int, encode_utf8(s).len() as int)
}

/// A text after inserting a character at a byte offset.
pub open spec fn insert_at_byte(s: Seq<char>, p: int, c: char) -> Seq<char> {
    let b = encode_utf8(s);
    decode_utf8(b.subrange(0, p)) + seq![c] + decode_utf8(b.subrange(p, b.len() as int))
}

/// A text after removing the character that starts at a byte offset.
pub open spec fn remove_at_byte(s: Seq<char>, p: int) -> Seq<char> {
    let b = encode_utf8(s);
    decode_utf8(b.subrange(0, p)) + decode_utf8(b.subrange(p, b.len() as int)).drop_first()
}

/// The text before and after a character boundary.
pub(crate) fn split_text(s: &str, p: usize) -> (r: (&str, &str))
    requires
        is_char_boundary(encode_utf8(s@), p as int),
    ensures
        r.0@ == decode_utf8(encode_utf8(s@).subrange(0, p as int)),
        r.1@ == decode_utf8(encode_utf8(s@).subrange(p as int, encode_utf8(s@).len() as int)),
{
    broadcast use group_utf8_lib;

    let (a, b) = s.split_at(p);
    assert(decode_utf8(encode_utf8(a@)) == a@);
    assert(decode_utf8(encode_utf8(b@)) == b@);
    (a, b)
}

/// Inserts a character at the cursor, the cursor being first brought back
/// to the end of the text, and moves the cursor one byte on.
fn insert_into(text: &mut String, cursor: &mut usize, c: char)
    requires
        is_char_boundary(encode_utf8(old(text)@), cursor_offset(*old(cursor), old(text)@)),
        cursor_offset(*old(cursor), old(text)@) < usize::MAX,
    ensures
        final(text)@ == insert_at_byte(
            old(text)@,
            cursor_offset(*old(cursor), old(text)@),
            c,
        ),
        *final(cursor) == cursor_offset(*old(cursor), old(text)@) + 1,
{
    let len = text.as_str().as_bytes().len();
    let pos = if *cursor < len {
        *cursor
    } else {
        len
    };
    let (a, b) = split_text(text.as_str(), pos);
    let mut r = a.to_owned();
    push_char(&mut r, c);
    r.append(b);
    *text = r;
    *cursor = pos + 1;
}

/// Removes the character that starts at a byte offset.
fn remove_from(text: &mut String, p: usize)
    requires
        is_char_boundary(encode_utf8(old(text)@), p as int),
        p < encode_utf8(old(text)@).len(),
    ensures
        final(text)@ == remove_at_byte(old(text)@, p as int),
{
    let (a, b) = split_text(text.as_str(), p);
    proof {
        broadcast use group_utf8_lib;

        let bytes = encode_utf8(text@);
        assert(encode_utf8(b@) == bytes.subrange(p as int, bytes.len() as int));
        if b@.len() == 0 {
            assert(encode_utf8(b@).len() == 0);
        }
    }
    let n = b.unicode_len();
    let rest = b.substring_char(1, n);
    assert(rest@ == b@.drop_first());
    let mut r = a.to_owned();
    r.append(rest);
    *text = r;
}

/// The editable texts of the parameter pane and where the text cursor is.
pub struct TextFields {
    /// The focused parameter
    pub focus: Focus,
    /// Background color as typed
    pub background_hex: String,
    /// Foreground color as typed
    pub foreground_hex: String,
    /// Scheme name
    pub name: String,
    /// Scheme author
    pub author: String,
    /// Cursor position in the focused text, as a byte offset
    pub text_cursor: usize,
}

/// The text a focus target edits, if it edits one.
pub open spec fn field_text(t: TextFields, f: Focus) -> Option<Seq<char>> {
    match f {
        Focus::Background => Some(t.background_hex@),
        Focus::Foreground => Some(t.foreground_hex@),
        Focus::Name => Some(t.name@),
        Focus::Author => Some(t.author@),
        _ => None,
    }
}

/// The fields are those of `t` but for the focused text, which is `s`, and
/// the cursor, which is `cursor`.
pub open spec fn with_focused_text(t: TextFields, u: TextFields, s: Seq<char>, cursor: usize) -> bool {
    &&& u.focus == t.focus
    &&& field_text(u, t.focus) == Some(s)
    &&& (t.focus != Focus::Background ==> u.background_hex@ == t.background_hex@)
    &&& (t.focus != Focus::Foreground ==> u.foreground_hex@ == t.foreground_hex@)
    &&& (t.focus != Focus::Name ==> u.name@ == t.name@)
    &&& (t.focus != Focus::Author ==> u.author@ == t.author@)
    &&& u.text_cursor == cursor
}

/// The fields are unchanged.
pub open spec fn same_fields(t: TextFields, u: TextFields) -> bool {
    &&& u.focus == t.focus
    &&& u.background_hex@ == t.background_hex@
    &&& u.foreground_hex@ == t.foreground_hex@
    &&& u.name@ == t.name@
    &&& u.author@ == t.author@
    &&& u.text_cursor == t.text_cursor
}

impl TextFields {
    /// Get the currently focused text field for editing.
    pub fn focused_text(&self) -> (r: Option<&str>)
        ensures
            match field_text(*self, self.focus) {
                Some(s) => r is Some && r->0@ == s,
                None => r is None,
            },
    {
        match self.focus {
            Focus::Background => Some(self.background_hex.as_str()),
            Focus::Foreground => Some(self.foreground_hex.as_str()),
            Focus::Name => Some(self.name.as_str()),
            Focus::Author => Some(self.author.as_str()),
            _ => None,
        }
    }

    /// Insert a character at the cursor position in the focused text field
    /// (the cursor is first brought back to the end of the text); nothing
    /// happens when no text field is focused.
    pub fn insert_char(&mut self, c: char)
        requires
            field_text(*old(self), old(self).focus) matches Some(s) ==> is_char_boundary(
                encode_utf8(s),
                cursor_offset(old(self).text_cursor, s),
            ) && cursor_offset(old(self).text_cursor, s) < usize::MAX,
        ensures
            match field_text(*old(self), old(self).focus) {
                Some(s) => with_focused_text(
                    *old(self),
                    *final(self),
                    insert_at_byte(s, cursor_offset(old(self).text_cursor, s), c),
                    (cursor_offset(old(self).text_cursor, s) + 1) as usize,
                ),
                None => same_fields(*old(self), *final(self)),
            },
    {
        match self.focus {
            Focus::Background => insert_into(&mut self.background_hex, &mut self.text_cursor, c),
            Focus::Foreground => insert_into(&mut self.foreground_hex, &mut self.text_cursor, c),
            Focus::Name => insert_into(&mut self.name, &mut self.text_cursor, c),
            Focus::Author => insert_into(&mut self.author, &mut self.text_cursor, c),
            _ => {},
        }
    }

    /// Delete the character before the cursor in the focused text field;
    /// the cursor moves back one byte.  Nothing happens at the start of the
    /// text or when no text field is focused.
    pub fn delete_char_before(&mut self)
        requires
            old(self).text_cursor > 0 ==> (field_text(*old(self), old(self).focus) matches Some(s)
                ==> (cursor_offset(old(self).text_cursor, s) > 0 ==> is_char_boundary(
                encode_utf8(s),
                cursor_offset(old(self).text_cursor, s) - 1,
            ))),
        ensures
            match field_text(*old(self), old(self).focus) {
                Some(s) => if old(self).text_cursor > 0 && cursor_offset(old(self).text_cursor, s)
                    > 0 {
                    with_focused_text(
                        *old(self),
                        *final(self),
                        remove_at_byte(s, cursor_offset(old(self).text_cursor, s) - 1),
                        (cursor_offset(old(self).text_cursor, s) - 1) as usize,
                    )
                } else {
                    same_fields(*old(self), *final(self))
                },
                None => same_fields(*old(self), *final(self)),
            },
    {
        if self.text_cursor == 0 {
            return;
        }
        match self.focus {
            Focus::Background => delete_before_in(&mut self.background_hex, &mut self.text_cursor),
            Focus::Foreground => delete_before_in(&mut self.foreground_hex, &mut self.text_cursor),
            Focus::Name => delete_before_in(&mut self.name, &mut self.text_cursor),
            Focus::Author => delete_before_in(&mut self.author, &mut self.text_cursor),
            _ => {},
        }
    }

    /// Delete the character at the cursor position in the focused text
    /// field; the cursor stays.  Nothing happens at the end of the text or
    /// when no text field is focused.
    pub fn delete_char_at(&mut self)
        requires
            field_text(*old(self), old(self).focus) matches Some(s) ==> (cursor_offset(
                old(self).text_cursor,
                s,
            ) < encode_utf8(s).len() ==> is_char_boundary(
                encode_utf8(s),
                cursor_offset(old(self).text_cursor, s),
            )),
        ensures
            match field_text(*old(self), old(self).focus) {
                Some(s) => if cursor_offset(old(self).text_cursor, s) < encode_utf8(s).len() {
                    with_focused_text(
                        *old(self),
                        *final(self),
                        remove_at_byte(s, cursor_offset(old(self).text_cursor, s)),
                        old(self).text_cursor,
                    )
                } else {
                    same_fields(*old(self), *final(self))
                },
                None => same_fields(*old(self), *final(self)),
            },
    {
        match self.focus {
            Focus::Background => delete_at_in(&mut self.background_hex, self.text_cursor),
            Focus::Foreground => delete_at_in(&mut self.foreground_hex, self.text_cursor),
            Focus::Name => delete_at_in(&mut self.name, self.text_cursor),
            Focus::Author => delete_at_in(&mut self.author, self.text_cursor),
            _ => {},
        }
    }
}

/// Deletes the character before the cursor (brought back to the end of the
/// text first) and moves the cursor back one byte; nothing happens at the
/// start of the text.
fn delete_before_in(text: &mut String, cursor: &mut usize)
    requires
        cursor_offset(*old(cursor), old(text)@) > 0 ==> is_char_boundary(
            encode_utf8(old(text)@),
            cursor_offset(*old(cursor), old(text)@) - 1,
        ),
    ensures
        cursor_offset(*old(cursor), old(text)@) > 0 ==> final(text)@ == remove_at_byte(
            old(text)@,
            cursor_offset(*old(cursor), old(text)@) - 1,
        ) && *final(cursor) == cursor_offset(*old(cursor), old(text)@) - 1,
        cursor_offset(*old(cursor), old(text)@) == 0 ==> final(text)@ == old(text)@
            && *final(cursor) == *old(cursor),
{
    let len = text.as_str().as_bytes().len();
    let pos = if *cursor < len {
        *cursor
    } else {
        len
    };
    if pos > 0 {
        remove_from(text, pos - 1);
        *cursor = pos - 1;
    }
}

/// Deletes the character at the cursor (brought back to the end of the
/// text first); nothing happens at the end of the text.
fn delete_at_in(text: &mut String, cursor: usize)
    requires
        cursor_offset(cursor, old(text)@) < encode_utf8(old(text)@).len() ==> is_char_boundary(
            encode_utf8(old(text)@),
            cursor_offset(cursor, old(text)@),
        ),
    ensures
        cursor_offset(cursor, old(text)@) < encode_utf8(old(text)@).len() ==> final(text)@
            == remove_at_byte(old(text)@, cursor_offset(cursor, old(text)@)),
        cursor_offset(cursor, old(text)@) >= encode_utf8(old(text)@).len() ==> final(text)@ == old(
            text,
        )@,
{
    let len = text.as_str().as_bytes().len();
    let pos = if cursor < len {
        cursor
    } else {
        len
    };
    if pos < len {
        remove_from(text, pos);
    }
}

/// The encoding of two texts one after the other is the two encodings one
/// after the other.
proof fn lemma_encode_concat(x: Seq<char>, y: Seq<char>)
    ensures
        encode_utf8(x + y) == encode_utf8(x) + encode_utf8(y),
    decreases x.len(),
{
    if x.len() > 0 {
        lemma_encode_concat(x.drop_first(), y);
        assert((x + y).drop_first() =~= x.drop_first() + y);
        assert((x + y)[0] == x[0]);
        assert(encode_scalar(x[0] as u32) + (encode_utf8(x.drop_first()) + encode_utf8(y))
            =~= (encode_scalar(x[0] as u32) + encode_utf8(x.drop_first())) + encode_utf8(y));
    } else {
        assert(x + y =~= y);
        assert(encode_utf8(x) + encode_utf8(y) =~= encode_utf8(y));
    }
}

/// Typing a character at a place between two characters and then deleting
/// the character at that place gives the text back (so does a backspace
/// right after typing an ASCII character, the cursor having moved one byte
/// on); the typed text is one character longer and holds the character at
/// the place typed.
pub proof fn lemma_insert_remove_inverse(s: Seq<char>, p: int, c: char)
    requires
        is_char_boundary(encode_utf8(s), p),
    ensures
        remove_at_byte(insert_at_byte(s, p, c), p) == s,
        insert_at_byte(s, p, c).len() == s.len() + 1,
        insert_at_byte(s, p, c) == decode_utf8(encode_utf8(s).subrange(0, p)) + seq![c]
            + decode_utf8(encode_utf8(s).subrange(p, encode_utf8(s).len() as int)),
        s == decode_utf8(encode_utf8(s).subrange(0, p)) + decode_utf8(
            encode_utf8(s).subrange(p, encode_utf8(s).len() as int),
        ),
{
    broadcast use group_utf8_lib;

    let b = encode_utf8(s);
    let n = b.len() as int;
    assert(0 <= p <= n) by {
        reveal_with_fuel(is_char_boundary, 1);
    }
    valid_utf8_split(b, p);
    let a = decode_utf8(b.subrange(0, p));
    let r = decode_utf8(b.subrange(p, n));
    decode_utf8_split(b, p);
    assert(s == a + r);
    assert(encode_utf8(a) == b.subrange(0, p));
    assert(encode_utf8(r) == b.subrange(p, n));
    let ins = insert_at_byte(s, p, c);
    assert(ins == a + seq![c] + r);
    lemma_encode_concat(a + seq![c], r);
    lemma_encode_concat(a, seq![c]);
    lemma_encode_concat(seq![c], r);
    let e = encode_utf8(ins);
    assert(e == b.subrange(0, p) + encode_utf8(seq![c]) + b.subrange(p, n));
    assert(e.subrange(0, p) =~= b.subrange(0, p));
    assert(e.subrange(p, e.len() as int) =~= encode_utf8(seq![c]) + b.subrange(p, n));
    assert(e.subrange(p, e.len() as int) == encode_utf8(seq![c] + r));
    assert((seq![c] + r).drop_first() =~= r);
    assert(remove_at_byte(ins, p) == a + r);
    assert(ins.len() == a.len() + 1 + r.len());
}

} // verus!
