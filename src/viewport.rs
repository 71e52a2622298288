//! Cursor movement over a document and the scroll offset that keeps the cursor visible.
use crate::document::Document;
use vstd::prelude::*;

verus! {

/// A column (in clusters) and a line index.
#[derive(Clone, Copy, Debug, Default, PartialEq, Eq, Structural)]
pub struct Position {
    pub x: usize,
    pub y: usize,
}

/// A cursor movement.
#[derive(Clone, Copy, Debug, PartialEq, Eq, Structural)]
pub enum Direction {
    Up,
    Down,
    Left,
    Right,
}

/// The cursor after a move, before its column is pulled back onto the line it reaches.
pub open spec fn stepped(cursor: Position, direction: Direction, document: Document) -> (int, int) {
    let x = cursor.x as int;
    let y = cursor.y as int;
    match direction {
        Direction::Up => (x, if y > 0 { y - 1 } else { 0 }),
        Direction::Down => (x, if y < document.height() { y + 1 } else { y }),
        Direction::Left => if x > 0 {
            (x - 1, y)
        } else if y > 0 {
            (document.row_length(y - 1), y - 1)
        } else {
            (x, y)
        },
        Direction::Right => if x < document.row_length(y) {
            (x + 1, y)
        } else if y < document.height() {
            (0, y + 1)
        } else {
            (x, y)
        },
    }
}

/// The cursor after a move: the step, with the column clamped to the length of the
/// line reached (0 past the last line).
pub open spec fn moved(cursor: Position, direction: Direction, document: Document) -> Position {
    let (x, y) = stepped(cursor, direction, document);
    let w = document.row_length(y);
    Position { x: (if x > w { w } else { x }) as usize, y: y as usize }
}

/// `a + b`, held at the largest `usize`.
pub open spec fn sat_add(a: int, b: int) -> int {
    if a + b > usize::MAX {
        usize::MAX as int
    } else {
        a + b
    }
}

/// The offset along one axis that shows coordinate `c` in a window of `size` cells that
/// started at `off`: pulled back to `c` when `c` lies before, pushed on so `c` is the
/// last visible cell when it lies at or after `off + size`, left alone otherwise.
pub open spec fn scrolled_axis(c: int, off: int, size: int) -> int {
    if c < off {
        c
    } else if c >= off + size {
        sat_add(c - size, 1)
    } else {
        off
    }
}

/// The scroll offset that shows `cursor` in a `width` by `height` window.
pub open spec fn scrolled(cursor: Position, offset: Position, width: int, height: int) -> Position {
    Position {
        x: scrolled_axis(cursor.x as int, offset.x as int, width) as usize,
        y: scrolled_axis(cursor.y as int, offset.y as int, height) as usize,
    }
}

fn row_len(document: &Document, y: usize) -> (r: usize)
    requires
        document.wf(),
    ensures
        r == document.row_length(y as int),
{
    match document.row(y) {
        Some(row) => row.len(),
        None => 0,
    }
}

/// Moves the cursor one step over the document.
pub fn move_cursor(cursor: Position, direction: Direction, document: &Document) -> (r: Position)
    requires
        document.wf(),
    ensures
        r == moved(cursor, direction, *document),
        r.x <= document.row_length(r.y as int),
        cursor.y <= document.height() ==> r.y <= document.height(),
{
    let height = document.len();
    let mut x = cursor.x;
    let mut y = cursor.y;
    let width = row_len(document, y);
    match direction {
        Direction::Up => {
            y = if y > 0 {
                y - 1
            } else {
                0
            };
        },
        Direction::Down => {
            if y < height {
                y = y + 1;
            }
        },
        Direction::Left => {
            if x > 0 {
                x = x - 1;
            } else if y > 0 {
                y = y - 1;
                x = row_len(document, y);
            }
        },
        Direction::Right => {
            if x < width {
                x = x + 1;
            } else if y < height {
                y = y + 1;
                x = 0;
            }
        },
    }
    let width = row_len(document, y);
    if x > width {
        x = width;
    }
    Position { x, y }
}

/// The scroll offset after the cursor moved: the least change that shows it.
pub fn scroll(cursor: Position, offset: Position, width: usize, height: usize) -> (r: Position)
    ensures
        r == scrolled(cursor, offset, width as int, height as int),
        width > 0 ==> r.x <= cursor.x < r.x + width,
        height > 0 ==> r.y <= cursor.y < r.y + height,
        width > 0 && offset.x <= cursor.x < offset.x + width ==> r.x == offset.x,
        height > 0 && offset.y <= cursor.y < offset.y + height ==> r.y == offset.y,
{
    let mut r = offset;
    if cursor.y < r.y {
        r.y = cursor.y;
    } else if cursor.y - r.y >= height {
        r.y = (cursor.y - height).saturating_add(1);
    }
    if cursor.x < r.x {
        r.x = cursor.x;
    } else if cursor.x - r.x >= width {
        r.x = (cursor.x - width).saturating_add(1);
    }
    r
}

/// At the edges of the document a move goes nowhere: right or down on the line past the
/// last one, left at the start of the first line.
pub proof fn lemma_moves_at_edges(document: Document, end: Position)
    requires
        end.x == 0,
        end.y == document.height(),
    ensures
        moved(end, Direction::Right, document) == end,
        moved(end, Direction::Down, document) == end,
        moved(Position { x: 0, y: 0 }, Direction::Left, document) == (Position { x: 0, y: 0 }),
{
}

} // verus!
