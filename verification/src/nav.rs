//! Cursor movement over lists: wrapping steps and scroll windows.

use vstd::prelude::*;

verus! {

/// Rows kept visible beyond the selection while it is not at a list end.
pub const SCROLLOFF: usize = 1;

/// Index before `index` in a list of `len` rows; the first row wraps to the
/// last one. An empty list only has index 0.
pub fn wrap_prev(index: usize, len: usize) -> (r: usize)
    ensures
        r == prev_index(index as int, len as int),
{
    if len == 0 {
        0
    } else if index == 0 || index > len {
        len - 1
    } else {
        index - 1
    }
}

/// Index after `index` in a list of `len` rows; the last row wraps to the
/// first one.
pub fn wrap_next(index: usize, len: usize) -> (r: usize)
    ensures
        r == next_index(index as int, len as int),
{
    if index >= len || index + 1 >= len {
        0
    } else {
        index + 1
    }
}

pub open spec fn prev_index(index: int, len: int) -> int {
    if len == 0 {
        0
    } else if index == 0 || index > len {
        len - 1
    } else {
        index - 1
    }
}

pub open spec fn next_index(index: int, len: int) -> int {
    if index + 1 >= len {
        0
    } else {
        index + 1
    }
}

/// On a row of the list, stepping forth and back returns to that row, and a
/// step never leaves the list.
pub proof fn wrapping_steps_are_inverse(index: int, len: int)
    requires
        0 <= index < len,
    ensures
        0 <= next_index(index, len) < len,
        0 <= prev_index(index, len) < len,
        prev_index(next_index(index, len), len) == index,
        next_index(prev_index(index, len), len) == index,
{
}

pub open spec fn min_int(a: int, b: int) -> int {
    if a <= b {
        a
    } else {
        b
    }
}

pub open spec fn max_int(a: int, b: int) -> int {
    if a >= b {
        a
    } else {
        b
    }
}

/// Difference clamped at zero.
pub open spec fn monus(a: int, b: int) -> int {
    if a >= b {
        a - b
    } else {
        0
    }
}

/// Top row of a window of `window` rows over `len` rows that shows `selected`
/// with one row above it and one below it, moved as little as possible from
/// `offset`.
pub open spec fn scroll_top(selected: int, offset: int, len: int, window: int) -> int {
    if len <= window {
        0
    } else {
        let up = if selected < offset + 1 {
            monus(selected, 1)
        } else {
            offset
        };
        let down = if selected + 2 > up + window {
            monus(selected + 2, window)
        } else {
            up
        };
        min_int(down, len - window)
    }
}

/// Recompute the top of a scroll window so that `selected` stays visible with
/// a one-row margin above and below, except at the ends of the list.
pub fn windowed_scroll(selected: usize, offset: usize, len: usize, window: usize) -> (r: usize)
    ensures
        r == scroll_top(selected as int, offset as int, len as int, window as int),
{
    if len <= window {
        return 0;
    }
    let sel: u128 = selected as u128;
    let win: u128 = window as u128;
    let up: u128 = if selected <= offset {
        if selected >= SCROLLOFF {
            sel - 1
        } else {
            0
        }
    } else {
        offset as u128
    };
    let down: u128 = if sel + 2 > up + win {
        if sel + 2 >= win {
            sel + 2 - win
        } else {
            0
        }
    } else {
        up
    };
    let last: usize = len - window;
    if down > last as u128 {
        last
    } else {
        down as usize
    }
}

/// The window of `windowed_scroll` stays inside the list and shows the
/// selected row. With at least three rows of room the row above and the row
/// below the selection are shown too, where the list has them.
pub proof fn scroll_window_shows_selection(selected: int, offset: int, len: int, window: int)
    requires
        0 <= selected < len,
        0 <= offset,
        2 <= window,
    ensures
        ({
            let top = scroll_top(selected, offset, len, window);
            &&& 0 <= top
            &&& top <= selected < top + window
            &&& len > window ==> top + window <= len
            &&& window >= 3 && selected > 0 ==> top <= selected - 1
            &&& window >= 3 && selected + 1 < len ==> selected + 1 < top + window
        }),
{
}

/// Recomputing the window for the same selection leaves it where it is.
pub proof fn scroll_window_is_stable(selected: int, offset: int, len: int, window: int)
    requires
        0 <= selected < len,
        0 <= offset,
        3 <= window,
    ensures
        scroll_top(selected, scroll_top(selected, offset, len, window), len, window) == scroll_top(
            selected,
            offset,
            len,
            window,
        ),
{
}

/// The smaller of two sizes.
pub fn min_usize(a: usize, b: usize) -> (r: usize)
    ensures
        r == min_int(a as int, b as int),
{
    if a <= b {
        a
    } else {
        b
    }
}

/// The larger of two sizes.
pub fn max_usize(a: usize, b: usize) -> (r: usize)
    ensures
        r == max_int(a as int, b as int),
{
    if a >= b {
        a
    } else {
        b
    }
}

} // verus!
