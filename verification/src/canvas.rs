//! A rectangle of terminal cells to draw on.
use vstd::prelude::*;

verus! {

/// The colors of the dashboard, by what they stand for.
#[derive(Clone, Copy, Debug, PartialEq, Eq, Structural)]
pub enum Ink {
    Panel,
    Dim,
    Muted,
    White,
    Green,
    Yellow,
    Cyan,
    Blue,
}

/// One terminal cell.
#[derive(Clone, Copy, Debug, PartialEq, Eq, Structural)]
pub struct Cell {
    pub glyph: char,
    pub ink: Ink,
}

/// A rectangle of the terminal.
#[derive(Clone, Copy, Debug, PartialEq, Eq, Structural)]
pub struct Rect {
    pub x: u16,
    pub y: u16,
    pub width: u16,
    pub height: u16,
}

impl Rect {
    /// Whether the rectangle ends within the numbers that places have.
    pub open spec fn fits(self) -> bool {
        self.x + self.width <= u16::MAX && self.y + self.height <= u16::MAX
    }

    pub open spec fn contains(self, x: int, y: int) -> bool {
        self.x <= x < self.x + self.width && self.y <= y < self.y + self.height
    }

    /// The column after the last.
    pub fn right(&self) -> (r: u16)
        requires
            self.fits(),
        ensures
            r == self.x + self.width,
    {
        self.x + self.width
    }

    /// The row after the last.
    pub fn bottom(&self) -> (r: u16)
        requires
            self.fits(),
        ensures
            r == self.y + self.height,
    {
        self.y + self.height
    }
}

/// The cells of a rectangle, as far as something was drawn on them.
#[derive(Debug)]
pub struct Canvas {
    pub area: Rect,
    pub cells: Vec<Option<Cell>>,
}

proof fn lemma_cell_index(width: int, height: int, row: int, column: int)
    requires
        0 <= row < height,
        0 <= column < width,
    ensures
        0 <= row * width + column < width * height,
{
    assert(0 <= row * width + column < width * height) by (nonlinear_arith)
        requires
            0 <= row < height,
            0 <= column < width,
    ;
}

proof fn lemma_cell_index_unique(width: int, row: int, column: int, row2: int, column2: int)
    requires
        0 <= column < width,
        0 <= column2 < width,
        row * width + column == row2 * width + column2,
    ensures
        row == row2,
        column == column2,
{
    assert(row == row2) by (nonlinear_arith)
        requires
            0 <= column < width,
            0 <= column2 < width,
            row * width + column == row2 * width + column2,
    ;
}

impl Canvas {
    /// There is one cell for every place of the rectangle.
    pub open spec fn wf(&self) -> bool {
        self.area.fits() && self.cells@.len() == self.area.width * self.area.height
    }

    /// What was drawn at a place of the terminal.
    pub open spec fn at(&self, x: int, y: int) -> Option<Cell> {
        if self.area.contains(x, y) {
            self.cells@[(y - self.area.y) * self.area.width + (x - self.area.x)]
        } else {
            None
        }
    }

    /// A rectangle on which nothing was drawn.
    pub fn new(area: Rect) -> (r: Canvas)
        requires
            area.fits(),
        ensures
            r.wf(),
            r.area == area,
            forall|x: int, y: int| r.at(x, y) is None,
    {
        assert(0 <= area.width * area.height <= 65535 * 65535) by (nonlinear_arith)
            requires
                0 <= area.width <= 65535,
                0 <= area.height <= 65535,
        ;
        let count = area.width as u32 * area.height as u32;
        let mut cells: Vec<Option<Cell>> = Vec::new();
        let mut i: u32 = 0;
        while i < count
            invariant
                i <= count,
                cells@.len() == i,
                forall|k: int| 0 <= k < i ==> #[trigger] cells@[k] is None,
            decreases count - i,
        {
            cells.push(None);
            i += 1;
        }
        let r = Canvas { area, cells };
        assert forall|x: int, y: int| r.at(x, y) is None by {
            if area.contains(x, y) {
                lemma_cell_index(
                    area.width as int,
                    area.height as int,
                    y - area.y,
                    x - area.x,
                );
            }
        }
        r
    }

    /// What was drawn at a place of the terminal.
    pub fn get(&self, x: u16, y: u16) -> (r: Option<Cell>)
        requires
            self.wf(),
        ensures
            r == self.at(x as int, y as int),
    {
        let area = self.area;
        if area.x <= x && x - area.x < area.width && area.y <= y && y - area.y < area.height {
            proof {
                lemma_cell_index(
                    area.width as int,
                    area.height as int,
                    y - area.y,
                    x - area.x,
                );
                assert((y - area.y) * area.width <= 65535 * 65535) by (nonlinear_arith)
                    requires
                        0 <= y - area.y <= 65535,
                        0 <= area.width <= 65535,
                ;
            }
            self.cells[(y - area.y) as usize * area.width as usize + (x - area.x) as usize]
        } else {
            None
        }
    }

    /// Draws one cell.
    pub fn set(&mut self, x: u16, y: u16, cell: Cell)
        requires
            old(self).wf(),
            old(self).area.contains(x as int, y as int),
        ensures
            final(self).wf(),
            final(self).area == old(self).area,
            forall|a: int, b: int|
                #[trigger] final(self).at(a, b) == if a == x && b == y {
                    Some(cell)
                } else {
                    old(self).at(a, b)
                },
    {
        let area = self.area;
        proof {
            lemma_cell_index(area.width as int, area.height as int, y - area.y, x - area.x);
            assert((y - area.y) * area.width <= 65535 * 65535) by (nonlinear_arith)
                requires
                    0 <= y - area.y <= 65535,
                    0 <= area.width <= 65535,
            ;
        }
        let i = (y - area.y) as usize * area.width as usize + (x - area.x) as usize;
        self.cells.set(i, Some(cell));
        proof {
            assert forall|a: int, b: int|
                #[trigger] self.at(a, b) == if a == x && b == y {
                    Some(cell)
                } else {
                    old(self).at(a, b)
                } by {
                if area.contains(a, b) {
                    lemma_cell_index(
                        area.width as int,
                        area.height as int,
                        b - area.y,
                        a - area.x,
                    );
                    if (b - area.y) * area.width + (a - area.x) == i {
                        lemma_cell_index_unique(
                            area.width as int,
                            b - area.y,
                            a - area.x,
                            y - area.y,
                            x - area.x,
                        );
                    }
                }
            }
        }
    }
}

} // verus!
