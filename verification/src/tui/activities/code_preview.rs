//! Code preview activity: language cycling and scrolling of the sample.

use vstd::prelude::*;
use crate::cyclic::lemma_cyclic_step;

verus! {

/// Component identifiers of the code preview activity.
#[derive(Debug, Clone, Copy, PartialEq, Eq, Hash, Structural)]
pub enum Id {
    CodeView,
}

/// Messages of the code preview activity.
#[derive(Debug, Clone, Copy, PartialEq, Eq, Structural)]
pub enum Msg {
    Quit,
    Back,
    NextLanguage,
    PrevLanguage,
    ScrollUp,
    ScrollDown,
}

/// The sample language after `current` when there are `count` samples.
pub fn next_language(current: usize, count: usize) -> (r: usize)
    requires
        count > 0,
        current < usize::MAX,
    ensures
        r == (current + 1) % (count as int),
        r < count,
{
    (current + 1) % count
}

/// The sample language before `current` when there are `count` samples.
pub fn prev_language(current: usize, count: usize) -> (r: usize)
    requires
        count > 0,
        current + count <= usize::MAX,
    ensures
        r == (current + count - 1) % (count as int),
        r < count,
{
    (current + count - 1) % count
}

/// Switching to the next sample language and back (or back and then
/// forward) returns to the same language.
pub proof fn lemma_language_cycle(current: int, count: int)
    requires
        0 <= current < count,
    ensures
        ((current + 1) % count + count - 1) % count == current,
        ((current + count - 1) % count + 1) % count == current,
{
    lemma_cyclic_step(current, count);
    lemma_cyclic_step((current + 1) % count, count);
    lemma_cyclic_step((current + count - 1) % count, count);
}

/// The code view's offset one line up, stopping at the top.
pub open spec fn code_line_up(scroll: int) -> int {
    if scroll > 0 {
        scroll - 1
    } else {
        0
    }
}

/// The code view's offset one line down, stopping where the last page of
/// `line_count` lines fills a view of `visible_height` lines.
pub open spec fn code_line_down(scroll: int, line_count: int, visible_height: int) -> int {
    vstd::math::min(
        scroll + 1,
        if line_count >= visible_height {
            line_count - visible_height
        } else {
            0
        },
    )
}

/// Scrolling the code view down never shows past the last line, and when
/// there is room it moves one line and is undone by one line up; scrolling
/// up never moves down or past the top.
pub proof fn lemma_code_scroll_laws(scroll: usize, line_count: usize, visible_height: usize)
    ensures
        0 <= code_line_up(scroll as int) <= scroll,
        scroll > 0 ==> code_line_up(scroll as int) + 1 == scroll,
        code_line_down(scroll as int, line_count as int, visible_height as int) + visible_height
            <= vstd::math::max(line_count as int, visible_height as int),
        scroll + 1 + visible_height <= line_count ==> code_line_down(
            scroll as int,
            line_count as int,
            visible_height as int,
        ) == scroll + 1 && code_line_up(
            code_line_down(scroll as int, line_count as int, visible_height as int),
        ) == scroll,
{
}

/// Scroll offset of the code view after scrolling up one line.
pub fn scroll_up(scroll: usize) -> (r: usize)
    ensures
        r == code_line_up(scroll as int),
{
    scroll.saturating_sub(1)
}

/// Scroll offset of the code view after scrolling down one line: the last
/// page of `line_count` lines stays in view.
pub fn scroll_down(scroll: usize, line_count: usize, visible_height: usize) -> (r: usize)
    requires
        scroll < usize::MAX,
    ensures
        r == code_line_down(scroll as int, line_count as int, visible_height as int),
{
    let max_scroll = line_count.saturating_sub(visible_height);
    let s = scroll + 1;
    if s < max_scroll {
        s
    } else {
        max_scroll
    }
}

} // verus!
