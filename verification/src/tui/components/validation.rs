//! Scrolling of the validation results panel.

use vstd::prelude::*;

verus! {

/// Scroll offset one line up, stopping at the top.
pub open spec fn line_up(scroll: int) -> int {
    if scroll > 0 {
        scroll - 1
    } else {
        0
    }
}

/// Scroll offset one line down, stopping at `max`.
pub open spec fn line_down(scroll: int, max: int) -> int {
    vstd::math::min(scroll + 1, max)
}

/// The largest scroll offset for a number of lines of content.
pub open spec fn last_offset(line_count: int) -> int {
    (if line_count > 0 {
        line_count - 1
    } else {
        0
    }) % 65536
}

/// One line up never moves down or past the top; one line down never
/// passes the limit and is undone by one line up when there is room; the
/// limit for a pane of lines lets the last line reach the top.
pub proof fn lemma_results_scroll_laws(scroll: u16, max: u16, line_count: usize)
    ensures
        0 <= line_up(scroll as int) <= scroll,
        scroll > 0 ==> line_up(scroll as int) + 1 == scroll,
        line_down(scroll as int, max as int) <= max,
        scroll < max ==> line_down(scroll as int, max as int) == scroll + 1 && line_up(
            line_down(scroll as int, max as int),
        ) == scroll,
        0 < line_count <= 65536 ==> last_offset(line_count as int) + 1 == line_count,
        last_offset(line_count as int) < 65536,
{
}

/// Scroll offset after scrolling the results up one line.
pub fn scroll_up(scroll: u16) -> (r: u16)
    ensures
        r == line_up(scroll as int),
{
    scroll.saturating_sub(1)
}

/// Scroll offset after scrolling the results down one line, at most `max`.
pub fn scroll_down(scroll: u16, max: u16) -> (r: u16)
    requires
        scroll < u16::MAX,
    ensures
        r == line_down(scroll as int, max as int),
{
    let s = scroll + 1;
    if s < max {
        s
    } else {
        max
    }
}

/// The largest scroll offset for `line_count` lines of content: the last
/// line may reach the top, and the offset is kept in 16 bits.
pub fn max_scroll(line_count: usize) -> (r: u16)
    ensures
        r == last_offset(line_count as int),
{
    let m = line_count.saturating_sub(1);
    (m % 65536) as u16
}

} // verus!
