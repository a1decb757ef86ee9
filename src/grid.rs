use vstd::prelude::*;
use crate::color::{ColorCode, ScreenChar, DEFAULT_COLOR, empty_cell};
use crate::model::{BUFFER_HEIGHT, BUFFER_WIDTH};

verus! {

/// Position of the cell (`r`, `c`) in the row-major cell sequence.
pub open spec fn cell_index(r: int, c: int) -> int {
    r * 80 + c
}

pub open spec fn on_grid(r: int, c: int) -> bool {
    0 <= r < BUFFER_HEIGHT && 0 <= c < BUFFER_WIDTH
}

/// The character grid: `BUFFER_HEIGHT` rows of `BUFFER_WIDTH` cells, row-major.
pub struct Buffer {
    pub chars: Vec<ScreenChar>,
}

impl Buffer {
    pub open spec fn wf(&self) -> bool {
        self.chars@.len() == BUFFER_HEIGHT * BUFFER_WIDTH
    }

    pub open spec fn at(&self, r: int, c: int) -> ScreenChar {
        self.chars@[cell_index(r, c)]
    }

    /// A grid of empty cells.
    pub fn blank() -> (b: Buffer)
        ensures
            b.wf(),
            forall|r: int, c: int| on_grid(r, c) ==> #[trigger] b.at(r, c) == empty_cell(),
    {
        let mut chars: Vec<ScreenChar> = Vec::new();
        let mut i: usize = 0;
        while i < BUFFER_HEIGHT * BUFFER_WIDTH
            invariant
                i <= BUFFER_HEIGHT * BUFFER_WIDTH,
                chars@.len() == i,
                forall|k: int| 0 <= k < i ==> chars@[k] == empty_cell(),
            decreases BUFFER_HEIGHT * BUFFER_WIDTH - i,
        {
            chars.push(ScreenChar { ascii_character: 0, color_code: ColorCode(DEFAULT_COLOR) });
            i = i + 1;
        }
        Buffer { chars }
    }

    /// The cell at (`row`, `col`).
    pub fn read(&self, row: usize, col: usize) -> (sc: ScreenChar)
        requires
            self.wf(),
            row < BUFFER_HEIGHT,
            col < BUFFER_WIDTH,
        ensures
            sc == self.at(row as int, col as int),
    {
        self.chars[row * 80 + col]
    }

    /// Overwrites the cell at (`row`, `col`).
    pub fn write(&mut self, row: usize, col: usize, sc: ScreenChar)
        requires
            old(self).wf(),
            row < BUFFER_HEIGHT,
            col < BUFFER_WIDTH,
        ensures
            final(self).wf(),
            final(self).chars@ == old(self).chars@.update(cell_index(row as int, col as int), sc),
            forall|r: int, c: int|
                on_grid(r, c) ==> #[trigger] final(self).at(r, c) == if r == row && c == col {
                    sc
                } else {
                    old(self).at(r, c)
                },
    {
        self.chars.set(row * 80 + col, sc);
    }
}

} // verus!
