use vstd::prelude::*;

verus! {

/// Number of columns of the standard playfield.
pub const NUM_COLS: usize = 40;

/// Number of rows of the standard playfield.
pub const NUM_ROWS: usize = 20;

/// The glyph of a cell nothing has been drawn into.
pub const BLANK: char = ' ';

/// A fixed-size grid of glyphs, indexed by column and row.
///
/// One frame is rebuilt by the simulation on every tick; the renderer keeps
/// the previously shown frame and writes out only the cells that differ.
pub struct Frame {
    pub width: usize,
    pub height: usize,
    /// Column-major: `cells[x][y]` is the glyph at column `x`, row `y`.
    pub cells: Vec<Vec<char>>,
}

impl Frame {
    /// The cells form a full `width` by `height` grid.
    pub open spec fn wf(self) -> bool {
        &&& self.width >= 1
        &&& self.height >= 1
        &&& self.cells@.len() == self.width
        &&& forall|x: int| 0 <= x < self.width ==> self.cells@[x]@.len() == self.height
    }

    /// The glyph at column `x`, row `y`.
    pub open spec fn cell(self, x: int, y: int) -> char {
        self.cells@[x]@[y]
    }

    /// Whether `(x, y)` lies on the playfield.
    pub open spec fn in_bounds(self, x: int, y: int) -> bool {
        0 <= x < self.width && 0 <= y < self.height
    }

    /// Both frames have the same dimensions.
    pub open spec fn same_size(self, other: Frame) -> bool {
        self.width == other.width && self.height == other.height
    }

    /// Both frames show the same glyph in every cell.
    pub open spec fn same_cells(self, other: Frame) -> bool {
        &&& self.same_size(other)
        &&& forall|x: int, y: int|
                self.in_bounds(x, y) ==> self.cell(x, y) == other.cell(x, y)
    }

    /// Every cell holds the blank glyph.
    pub open spec fn all_blank(self) -> bool {
        forall|x: int, y: int| self.in_bounds(x, y) ==> self.cell(x, y) == BLANK
    }

    /// An all-blank buffer of the given dimensions.
    pub fn new(width: usize, height: usize) -> (r: Frame)
        requires
            width >= 1,
            height >= 1,
        ensures
            r.wf(),
            r.width == width,
            r.height == height,
            r.all_blank(),
    {
        let mut cells: Vec<Vec<char>> = Vec::new();
        let mut x: usize = 0;
        while x < width
            invariant
                x <= width,
                cells@.len() == x,
                forall|c: int| 0 <= c < x ==> cells@[c]@.len() == height,
                forall|c: int, r: int|
                    0 <= c < x && 0 <= r < height ==> cells@[c]@[r] == BLANK,
            decreases width - x,
        {
            let mut column: Vec<char> = Vec::new();
            let mut y: usize = 0;
            while y < height
                invariant
                    y <= height,
                    column@.len() == y,
                    forall|r: int| 0 <= r < y ==> column@[r] == BLANK,
                decreases height - y,
            {
                column.push(BLANK);
                y = y + 1;
            }
            cells.push(column);
            x = x + 1;
        }
        Frame { width, height, cells }
    }

    /// The glyph currently at `(x, y)`.
    pub fn get(&self, x: usize, y: usize) -> (r: char)
        requires
            self.wf(),
            x < self.width,
            y < self.height,
        ensures
            r == self.cell(x as int, y as int),
    {
        self.cells[x][y]
    }

    /// Write `glyph` at `(x, y)`, leaving every other cell unchanged.
    pub fn set(&mut self, x: usize, y: usize, glyph: char)
        requires
            old(self).wf(),
            x < old(self).width,
            y < old(self).height,
        ensures
            final(self).wf(),
            final(self).same_size(*old(self)),
            forall|c: int, r: int|
                old(self).in_bounds(c, r) ==> final(self).cell(c, r)
                    == (if c == x && r == y { glyph } else { old(self).cell(c, r) }),
    {
        let column: &mut Vec<char> = &mut self.cells[x];
        column.set(y, glyph);
    }
}

/// An all-blank buffer of the standard dimensions.
pub fn new_frame() -> (r: Frame)
    ensures
        r.wf(),
        r.width == NUM_COLS,
        r.height == NUM_ROWS,
        r.all_blank(),
{
    Frame::new(NUM_COLS, NUM_ROWS)
}

/// An entity that can render itself into a frame buffer.
///
/// `covers` says which cells the entity writes, `glyph` which glyph it puts
/// there; `fits` says which frames it may be drawn into.  `draw` leaves every
/// cell the entity does not cover untouched, so drawables layered into one
/// frame overwrite each other in draw order.
pub trait Drawable {
    /// Whether this entity may be drawn into a frame of these dimensions.
    spec fn fits(&self, width: int, height: int) -> bool;

    /// Whether this entity writes the cell at `(x, y)`.
    spec fn covers(&self, x: int, y: int) -> bool;

    /// The glyph this entity writes at `(x, y)` (meaningful where it covers).
    spec fn glyph(&self, x: int, y: int) -> char;

    /// Render this entity into `frame`.
    fn draw(&self, frame: &mut Frame)
        requires
            old(frame).wf(),
            self.fits(old(frame).width as int, old(frame).height as int),
        ensures
            final(frame).wf(),
            final(frame).same_size(*old(frame)),
            forall|x: int, y: int|
                old(frame).in_bounds(x, y) ==> final(frame).cell(x, y)
                    == (if self.covers(x, y) { self.glyph(x, y) } else { old(frame).cell(x, y) }),
    ;
}

} // verus!
