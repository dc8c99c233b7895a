//! A character grid the size of the board, addressed column first.

use crate::{NUM_COLS, NUM_ROWS};
use vstd::prelude::*;

verus! {

/// One glyph per cell: `frame[x][y]` is the cell in column `x` and row `y`.
pub type Frame = Vec<Vec<&'static str>>;

/// Whether a frame has exactly the board's columns and rows.
pub open spec fn frame_wf(frame: Seq<Vec<&'static str>>) -> bool {
    &&& frame.len() == NUM_COLS
    &&& forall|x: int| 0 <= x < NUM_COLS ==> (#[trigger] frame[x])@.len() == NUM_ROWS
}

/// An empty frame: every cell of the board holds a blank.
pub fn new_frame() -> (frame: Frame)
    ensures
        frame_wf(frame@),
        forall|x: int, y: int|
            0 <= x < NUM_COLS && 0 <= y < NUM_ROWS ==> (#[trigger] frame@[x]@[y])@ == " "@,
{
    let mut cols: Vec<Vec<&'static str>> = Vec::with_capacity(NUM_COLS);
    let mut x: usize = 0;
    while x < NUM_COLS
        invariant
            x <= NUM_COLS,
            cols@.len() == x,
            forall|i: int| 0 <= i < x ==> (#[trigger] cols@[i])@.len() == NUM_ROWS,
            forall|i: int, j: int|
                0 <= i < x && 0 <= j < NUM_ROWS ==> (#[trigger] cols@[i]@[j])@ == " "@,
        decreases NUM_COLS - x,
    {
        let mut row: Vec<&'static str> = Vec::with_capacity(NUM_ROWS);
        let mut y: usize = 0;
        while y < NUM_ROWS
            invariant
                y <= NUM_ROWS,
                row@.len() == y,
                forall|j: int| 0 <= j < y ==> (#[trigger] row@[j])@ == " "@,
            decreases NUM_ROWS - y,
        {
            row.push(" ");
            y += 1;
        }
        cols.push(row);
        x += 1;
    }
    cols
}

/// Something that can draw itself into a frame.
pub trait Drawable {
    fn draw(&self, frame: &mut Frame);
}

} // verus!
