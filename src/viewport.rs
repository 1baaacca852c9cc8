//! Scroll offset management for a window over the document's lines.
use vstd::prelude::*;

verus! {

/// The largest first visible line that keeps the window within the
/// document; zero when the document is shorter than the window.
pub open spec fn max_offset(total: int, height: int) -> int {
    if total > height {
        total - height
    } else {
        0
    }
}

/// The offset after scrolling down by `speed`: moves only when the whole
/// step stays within `max_offset`.
pub open spec fn down_offset(row: int, speed: int, total: int, height: int) -> int {
    if row + speed <= max_offset(total, height) {
        row + speed
    } else {
        row
    }
}

/// The offset after scrolling up by `speed`, stopping at zero.
pub open spec fn up_offset(row: int, speed: int) -> int {
    if row >= speed {
        row - speed
    } else {
        0
    }
}

/// The offset after a series of moves, each a direction (`true` for down)
/// and a speed.
pub open spec fn moved_offset(row: int, moves: Seq<(bool, int)>, total: int, height: int) -> int
    decreases moves.len(),
{
    if moves.len() == 0 {
        row
    } else {
        let (down, speed) = moves[0];
        let next = if down {
            down_offset(row, speed, total, height)
        } else {
            up_offset(row, speed)
        };
        moved_offset(next, moves.drop_first(), total, height)
    }
}

/// However the window is scrolled, up or down and at any speed, an offset
/// that starts in bounds stays between zero and `max_offset`.
pub proof fn lemma_scroll_clamp(row: int, moves: Seq<(bool, int)>, total: int, height: int)
    requires
        0 <= row <= max_offset(total, height),
        forall|k: int| 0 <= k < moves.len() ==> moves[k].1 >= 0,
    ensures
        0 <= moved_offset(row, moves, total, height) <= max_offset(total, height),
    decreases moves.len(),
{
    if moves.len() > 0 {
        let (down, speed) = moves[0];
        let next = if down {
            down_offset(row, speed, total, height)
        } else {
            up_offset(row, speed)
        };
        assert forall|k: int| 0 <= k < moves.drop_first().len() implies moves.drop_first()[k].1
            >= 0 by {
            assert(moves.drop_first()[k] == moves[k + 1]);
        }
        lemma_scroll_clamp(next, moves.drop_first(), total, height);
    }
}

/// The largest offset for `total` lines in a window of `height` lines.
pub fn max_down(total: usize, height: usize) -> (r: usize)
    ensures
        r == max_offset(total as int, height as int),
{
    if total > height {
        total - height
    } else {
        0
    }
}

/// Scrolls down by `speed`, refusing a step that would pass the end.
pub fn scroll_down(row: usize, speed: usize, total: usize, height: usize) -> (r: usize)
    ensures
        r == down_offset(row as int, speed as int, total as int, height as int),
{
    let m = max_down(total, height);
    if speed <= m && row <= m - speed {
        row + speed
    } else {
        row
    }
}

/// Scrolls up by `speed`, stopping at the first line.
pub fn scroll_up(row: usize, speed: usize) -> (r: usize)
    ensures
        r == up_offset(row as int, speed as int),
{
    if row >= speed {
        row - speed
    } else {
        0
    }
}

/// The lines `start..end` shown from offset `row` in a window of `height`
/// lines over `total` lines.
pub fn visible_range(row: usize, height: usize, total: usize) -> (r: (usize, usize))
    ensures
        r.0 == if row <= total { row } else { total },
        r.1 == if row + height <= total { row + height } else { total as int },
{
    let start = if row <= total { row } else { total };
    let end = if height <= total - start { start + height } else { total };
    (start, end)
}

} // verus!
