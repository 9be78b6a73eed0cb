//! VGA text-mode surface: an 80×25 grid of character cells, two bytes per
//! cell. The grid is modeled as a vector of cells; the unverified runtime
//! shell mirrors it into the hardware text buffer at 0xB8000. A newline
//! advances to the next row, overflowing a row wraps, and overflowing the
//! last row scrolls the whole screen up by one row.

use vstd::prelude::*;

verus! {

/// Number of text columns.
pub const VGA_COLS: u8 = 80;

/// Number of text rows.
pub const VGA_ROWS: u8 = 25;

/// The encoding of one cell: character byte, foreground colour in bits
/// 8..12, background colour in bits 12..16.
pub open spec fn spec_vga_char(ch: u8, fg: u8, bg: u8) -> u16 {
    (ch + 0x100 * fg + 0x1000 * bg) as u16
}

/// The `(cells, pos_x, pos_y)` state after putting one character: a
/// newline moves to the start of the next row, any other byte is written
/// at the cursor and advances it; a cursor past the last column wraps to
/// the next row, and a cursor past the last row scrolls the surface up one
/// row (blanking the bottom row) and stays on the last row.
pub open spec fn spec_put_char(cells: Seq<u16>, x: int, y: int, fg: u8, bg: u8, ch: u8) -> (
    Seq<u16>,
    int,
    int,
) {
    let step = if ch == 10 {
        (cells, 0int, y + 1)
    } else {
        (cells.update(y * 80 + x, spec_vga_char(ch, fg, bg)), x + 1, y)
    };
    let wrapped = if step.1 >= 80 {
        (step.0, 0int, step.2 + 1)
    } else {
        step
    };
    if wrapped.2 >= 25 {
        (wrapped.0.subrange(80, 2000) + Seq::new(80, |i: int| 0u16), wrapped.1, 24int)
    } else {
        wrapped
    }
}

/// The `(cells, pos_x, pos_y)` state after putting every byte of `data`,
/// in order.
pub open spec fn spec_vga_write(
    cells: Seq<u16>,
    x: int,
    y: int,
    fg: u8,
    bg: u8,
    data: Seq<u8>,
) -> (Seq<u16>, int, int)
    decreases data.len(),
{
    if data.len() == 0 {
        (cells, x, y)
    } else {
        let m = spec_put_char(cells, x, y, fg, bg, data[0]);
        spec_vga_write(m.0, m.1, m.2, fg, bg, data.drop_first())
    }
}

/// The VGA text surface: the cell grid, the current colours and the cursor
/// position.
pub struct VGA {
    pub cells: Vec<u16>,
    pub color_fg: u8,
    pub color_bg: u8,
    pub res_x: u8,
    pub res_y: u8,
    pub pos_x: u8,
    pub pos_y: u8,
}

impl VGA {
    /// Structural invariant: fixed 80×25 geometry, in-range colours and an
    /// in-range cursor.
    pub open spec fn wf(&self) -> bool {
        &&& self.res_x == VGA_COLS
        &&& self.res_y == VGA_ROWS
        &&& self.cells@.len() == 2000
        &&& self.color_fg < 16
        &&& self.color_bg < 16
        &&& self.pos_x < self.res_x
        &&& self.pos_y < self.res_y
    }

    /// A blank 80×25 surface with light-grey-on-black colours and the
    /// cursor at the top left.
    pub fn new() -> (r: VGA)
        ensures
            r.wf(),
            r.cells@ == Seq::new(2000, |i: int| 0u16),
            r.color_fg == 7,
            r.color_bg == 0,
            r.pos_x == 0,
            r.pos_y == 0,
    {
        let cells = vec![0u16; 2000];
        proof {
            assert(cells@ =~= Seq::new(2000, |i: int| 0u16));
        }
        VGA {
            cells,
            color_fg: 7,
            color_bg: 0,
            res_x: VGA_COLS,
            res_y: VGA_ROWS,
            pos_x: 0,
            pos_y: 0,
        }
    }

    /// Reset colours and cursor and clear the screen.
    pub fn init(&mut self)
        requires
            old(self).wf(),
        ensures
            final(self).wf(),
            final(self).cells@ == Seq::new(2000, |i: int| 0u16),
            final(self).color_fg == 7,
            final(self).color_bg == 0,
            final(self).pos_x == 0,
            final(self).pos_y == 0,
    {
        self.color_fg = 7;
        self.color_bg = 0;
        self.pos_x = 0;
        self.pos_y = 0;
        self.clear();
    }

    /// Blank every cell.
    pub fn clear(&mut self)
        requires
            old(self).wf(),
        ensures
            final(self).wf(),
            final(self).cells@ == Seq::new(2000, |i: int| 0u16),
            final(self).color_fg == old(self).color_fg,
            final(self).color_bg == old(self).color_bg,
            final(self).pos_x == old(self).pos_x,
            final(self).pos_y == old(self).pos_y,
    {
        let mut i: usize = 0;
        while i < 2000
            invariant
                i <= 2000,
                self.cells@.len() == 2000,
                self.color_fg == old(self).color_fg,
                self.color_bg == old(self).color_bg,
                self.pos_x == old(self).pos_x,
                self.pos_y == old(self).pos_y,
                self.res_x == old(self).res_x,
                self.res_y == old(self).res_y,
                forall|j: int| 0 <= j < i ==> self.cells@[j] == 0,
            decreases 2000 - i,
        {
            self.cells.set(i, 0);
            i = i + 1;
        }
        proof {
            assert(self.cells@ =~= Seq::new(2000, |j: int| 0u16));
        }
    }

    /// Write the cell for `ch` in the current colours at column `x` of row
    /// `y`.
    pub fn place_char(&mut self, x: u8, y: u8, ch: u8)
        requires
            old(self).wf(),
            x < VGA_COLS,
            y < VGA_ROWS,
        ensures
            final(self).wf(),
            final(self).cells@ == old(self).cells@.update(
                y * VGA_COLS + x,
                spec_vga_char(ch, old(self).color_fg, old(self).color_bg),
            ),
            final(self).color_fg == old(self).color_fg,
            final(self).color_bg == old(self).color_bg,
            final(self).pos_x == old(self).pos_x,
            final(self).pos_y == old(self).pos_y,
    {
        let cell: u16 = ch as u16 + 0x100 * (self.color_fg as u16) + 0x1000 * (self.color_bg
            as u16);
        let idx: usize = (y as usize) * (VGA_COLS as usize) + (x as usize);
        self.cells.set(idx, cell);
    }

    /// Scroll the screen one row up, blanking the last row.
    pub fn scroll(&mut self)
        requires
            old(self).wf(),
        ensures
            final(self).wf(),
            final(self).cells@ == old(self).cells@.subrange(80, 2000) + Seq::new(
                80,
                |i: int| 0u16,
            ),
            final(self).color_fg == old(self).color_fg,
            final(self).color_bg == old(self).color_bg,
            final(self).pos_x == old(self).pos_x,
            final(self).pos_y == old(self).pos_y,
    {
        let mut i: usize = 0;
        while i < 1920
            invariant
                i <= 1920,
                self.cells@.len() == 2000,
                self.color_fg == old(self).color_fg,
                self.color_bg == old(self).color_bg,
                self.pos_x == old(self).pos_x,
                self.pos_y == old(self).pos_y,
                self.res_x == old(self).res_x,
                self.res_y == old(self).res_y,
                forall|j: int| 0 <= j < i ==> self.cells@[j] == old(self).cells@[j + 80],
                forall|j: int| i <= j < 2000 ==> self.cells@[j] == old(self).cells@[j],
            decreases 1920 - i,
        {
            let c = self.cells[i + 80];
            self.cells.set(i, c);
            i = i + 1;
        }
        let mut k: usize = 1920;
        while k < 2000
            invariant
                1920 <= k <= 2000,
                self.cells@.len() == 2000,
                self.color_fg == old(self).color_fg,
                self.color_bg == old(self).color_bg,
                self.pos_x == old(self).pos_x,
                self.pos_y == old(self).pos_y,
                self.res_x == old(self).res_x,
                self.res_y == old(self).res_y,
                forall|j: int| 0 <= j < 1920 ==> self.cells@[j] == old(self).cells@[j + 80],
                forall|j: int| 1920 <= j < k ==> self.cells@[j] == 0,
            decreases 2000 - k,
        {
            self.cells.set(k, 0);
            k = k + 1;
        }
        proof {
            assert(self.cells@ =~= old(self).cells@.subrange(80, 2000) + Seq::new(
                80,
                |i: int| 0u16,
            ));
        }
    }

    /// Put one character at the cursor: a newline moves to the next row,
    /// any other byte is placed and advances the cursor; the cursor wraps
    /// at the end of a row and the screen scrolls past the last row.
    pub fn put_char(&mut self, ch: u8)
        requires
            old(self).wf(),
        ensures
            final(self).wf(),
            final(self).color_fg == old(self).color_fg,
            final(self).color_bg == old(self).color_bg,
            final(self).res_x == old(self).res_x,
            final(self).res_y == old(self).res_y,
            (final(self).cells@, final(self).pos_x as int, final(self).pos_y as int)
                == spec_put_char(
                old(self).cells@,
                old(self).pos_x as int,
                old(self).pos_y as int,
                old(self).color_fg,
                old(self).color_bg,
                ch,
            ),
    {
        if ch == 10 {
            self.pos_x = 0;
            self.pos_y = self.pos_y + 1;
        } else {
            let x = self.pos_x;
            let y = self.pos_y;
            self.place_char(x, y, ch);
            self.pos_x = self.pos_x + 1;
        }

        if self.pos_x >= self.res_x {
            self.pos_x = 0;
            self.pos_y = self.pos_y + 1;
        }
        if self.pos_y >= self.res_y {
            self.pos_y = self.res_y - 1;
            self.scroll();
        }
    }

    /// The cell at column `x` of row `y`.
    pub fn cell_at(&self, x: u8, y: u8) -> (r: u16)
        requires
            self.wf(),
            x < VGA_COLS,
            y < VGA_ROWS,
        ensures
            r == self.cells@[y * VGA_COLS + x],
    {
        self.cells[(y as usize) * (VGA_COLS as usize) + (x as usize)]
    }
}

} // verus!
