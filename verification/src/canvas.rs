//! The character grid that a plot is drawn on: a `console_engine` screen, and the picture of
//! it that the contracts speak of.

use console_engine::pixel::{pxl, pxl_fg};
use console_engine::screen::Screen;
use console_engine::Color as Ink;
use vstd::prelude::*;

use crate::types::Color;

verus! {

/// `console_engine::screen::Screen`, taken as opaque.  The contracts speak of a screen through
/// `screen_width`, `screen_height` and `screen_cells`.
#[verifier::external_type_specification]
#[verifier::external_body]
pub struct ExScreen(Screen);

/// What one cell of a screen shows.
pub struct Cell {
    pub glyph: char,
    pub fg: Color,
    pub bg: Color,
}

impl Cell {
    /// A cell as a fresh screen holds it: a space in the terminal's own colours.
    pub open spec fn blank() -> Cell {
        Cell { glyph: ' ', fg: Color::Reset, bg: Color::Reset }
    }

    /// A glyph in the given foreground colour on the terminal's own background.
    pub open spec fn inked(glyph: char, fg: Color) -> Cell {
        Cell { glyph, fg, bg: Color::Reset }
    }

    /// A glyph in the terminal's own colours.
    pub open spec fn plain(glyph: char) -> Cell {
        Cell::inked(glyph, Color::Reset)
    }
}

/// The number of columns that a screen was made with.
pub uninterp spec fn screen_width(scr: Screen) -> nat;

/// The number of rows that a screen was made with.
pub uninterp spec fn screen_height(scr: Screen) -> nat;

/// What the pixels of a screen show, by column and row.
pub uninterp spec fn screen_cells(scr: Screen) -> Map<(int, int), Cell>;

/// The picture of a screen: its size and what each of its cells shows.
pub struct Canvas {
    pub width: nat,
    pub height: nat,
    pub cells: Map<(int, int), Cell>,
}

impl Canvas {
    /// Whether column `x`, row `y` lies on the canvas.
    pub open spec fn contains(self, x: int, y: int) -> bool {
        0 <= x < self.width && 0 <= y < self.height
    }

    /// A canvas has exactly one cell for each of its positions.
    pub open spec fn wf(self) -> bool {
        self.cells.dom() =~= Set::new(|p: (int, int)| self.contains(p.0, p.1))
    }

    /// What the canvas shows at column `x`, row `y`.
    pub open spec fn at(self, x: int, y: int) -> Cell {
        self.cells[(x, y)]
    }

    /// The canvas of the given size with every cell blank.
    pub open spec fn blank(width: nat, height: nat) -> Canvas {
        Canvas {
            width,
            height,
            cells: Map::new(
                |p: (int, int)| 0 <= p.0 < width && 0 <= p.1 < height,
                |p: (int, int)| Cell::blank(),
            ),
        }
    }

    /// The canvas with `cell` at column `x`, row `y`.  A position off the canvas changes
    /// nothing.
    pub open spec fn put(self, x: int, y: int, cell: Cell) -> Canvas {
        if self.contains(x, y) {
            Canvas { cells: self.cells.insert((x, y), cell), ..self }
        } else {
            self
        }
    }

    /// The canvas with `cell` in row `y` at every column from `x0` to `x1`, both included
    /// and in either order, as far as they lie on the canvas.
    pub open spec fn h_line(self, x0: int, y: int, x1: int, cell: Cell) -> Canvas {
        Canvas {
            cells: Map::new(
                |p: (int, int)| self.cells.dom().contains(p),
                |p: (int, int)|
                    if p.1 == y && (x0 <= p.0 <= x1 || x1 <= p.0 <= x0) {
                        cell
                    } else {
                        self.cells[p]
                    },
            ),
            ..self
        }
    }

    /// The canvas with `cell` in column `x` at every row from `y0` to `y1`, both included
    /// and in either order, as far as they lie on the canvas.
    pub open spec fn v_line(self, x: int, y0: int, y1: int, cell: Cell) -> Canvas {
        Canvas {
            cells: Map::new(
                |p: (int, int)| self.cells.dom().contains(p),
                |p: (int, int)|
                    if p.0 == x && (y0 <= p.1 <= y1 || y1 <= p.1 <= y0) {
                        cell
                    } else {
                        self.cells[p]
                    },
            ),
            ..self
        }
    }
}

impl Canvas {
    /// A blank canvas is well formed and shows a blank cell everywhere.
    pub proof fn lemma_blank(width: nat, height: nat, x: int, y: int)
        ensures
            Canvas::blank(width, height).wf(),
            Canvas::blank(width, height).contains(x, y) ==> Canvas::blank(width, height).at(x, y)
                == Cell::blank(),
    {
    }

    /// Putting a cell changes that cell, if it lies on the canvas, and nothing else.
    pub proof fn lemma_put(self, x0: int, y0: int, cell: Cell, x: int, y: int)
        requires
            self.wf(),
        ensures
            self.put(x0, y0, cell).wf(),
            self.put(x0, y0, cell).width == self.width,
            self.put(x0, y0, cell).height == self.height,
            self.put(x0, y0, cell).at(x, y) == if x == x0 && y == y0 && self.contains(x, y) {
                cell
            } else {
                self.at(x, y)
            },
    {
        if self.contains(x0, y0) {
            assert(self.cells.dom().contains((x0, y0)));
            assert(self.cells.insert((x0, y0), cell).dom() =~= self.cells.dom());
        }
    }

    /// A horizontal line changes the cells of its row between its ends, and nothing else.
    pub proof fn lemma_h_line(self, x0: int, y0: int, x1: int, cell: Cell, x: int, y: int)
        requires
            self.wf(),
        ensures
            self.h_line(x0, y0, x1, cell).wf(),
            self.h_line(x0, y0, x1, cell).width == self.width,
            self.h_line(x0, y0, x1, cell).height == self.height,
            self.contains(x, y) ==> self.h_line(x0, y0, x1, cell).at(x, y) == if y == y0 && (x0 <= x
                <= x1 || x1 <= x <= x0) {
                cell
            } else {
                self.at(x, y)
            },
    {
        assert(self.h_line(x0, y0, x1, cell).cells.dom() =~= self.cells.dom());
        if self.contains(x, y) {
            assert(self.cells.dom().contains((x, y)));
        }
    }

    /// A vertical line changes the cells of its column between its ends, and nothing else.
    pub proof fn lemma_v_line(self, x0: int, y0: int, y1: int, cell: Cell, x: int, y: int)
        requires
            self.wf(),
        ensures
            self.v_line(x0, y0, y1, cell).wf(),
            self.v_line(x0, y0, y1, cell).width == self.width,
            self.v_line(x0, y0, y1, cell).height == self.height,
            self.contains(x, y) ==> self.v_line(x0, y0, y1, cell).at(x, y) == if x == x0 && (y0 <= y
                <= y1 || y1 <= y <= y0) {
                cell
            } else {
                self.at(x, y)
            },
    {
        assert(self.v_line(x0, y0, y1, cell).cells.dom() =~= self.cells.dom());
        if self.contains(x, y) {
            assert(self.cells.dom().contains((x, y)));
        }
    }
}

/// The picture of a screen.
pub open spec fn canvas(scr: Screen) -> Canvas {
    Canvas { width: screen_width(scr), height: screen_height(scr), cells: screen_cells(scr) }
}

/// The most cells that a screen can hold: it finds a cell by a 32-bit signed index.
pub const MAX_CELLS: u32 = 0x7fff_ffff;

/// Whether a canvas is one that a screen can hold.
pub open spec fn fits_screen(c: Canvas) -> bool {
    c.wf() && c.width * c.height <= MAX_CELLS
}

/// Trusted: `Screen::new` gives a screen of the given size whose pixels are all a space in
/// the terminal's own colours.  The screen multiplies its sizes in 32 bits and finds a pixel
/// by an `i32` index, so the product is kept within `MAX_CELLS`.
#[verifier::external_body]
pub(crate) fn new_screen(width: u32, height: u32) -> (scr: Screen)
    requires
        width * height <= MAX_CELLS,
    ensures
        screen_width(scr) == width,
        screen_height(scr) == height,
        screen_cells(scr) == Canvas::blank(width as nat, height as nat).cells,
{
    Screen::new(width, height)
}

/// Trusted: `Screen::set_pxl`, handed the pixel that `pixel::pxl_fg` makes of the glyph and
/// the colour, sets the pixel at column `x`, row `y` and no other, and ignores a position off
/// the screen.  The colour goes over variant by variant.
#[verifier::external_body]
pub(crate) fn set_pxl(scr: &mut Screen, x: i32, y: i32, glyph: char, fg: Color)
    requires
        fits_screen(canvas(*old(scr))),
    ensures
        screen_width(*final(scr)) == screen_width(*old(scr)),
        screen_height(*final(scr)) == screen_height(*old(scr)),
        screen_cells(*final(scr)) == canvas(*old(scr)).put(x as int, y as int, Cell::inked(glyph, fg)).cells,
{
    scr.set_pxl(x, y, pxl_fg(glyph, match fg {
        Color::Reset => Ink::Reset, Color::Black => Ink::Black, Color::DarkGrey => Ink::DarkGrey,
        Color::Red => Ink::Red, Color::DarkRed => Ink::DarkRed, Color::Green => Ink::Green,
        Color::DarkGreen => Ink::DarkGreen, Color::Yellow => Ink::Yellow,
        Color::DarkYellow => Ink::DarkYellow, Color::Blue => Ink::Blue,
        Color::DarkBlue => Ink::DarkBlue, Color::Magenta => Ink::Magenta,
        Color::DarkMagenta => Ink::DarkMagenta, Color::Cyan => Ink::Cyan,
        Color::DarkCyan => Ink::DarkCyan, Color::White => Ink::White, Color::Grey => Ink::Grey,
        Color::AnsiValue(v) => Ink::AnsiValue(v), Color::Rgb { r, g, b } => Ink::Rgb { r, g, b },
    }));
}

/// Trusted: `Screen::h_line`, handed the pixel that `pixel::pxl` makes of the glyph, sets
/// the pixels of row `y` at every column between the two ends, both included and in either
/// order, and no other.  It counts one beyond the larger end, which therefore stays below
/// the largest `i32`.
#[verifier::external_body]
pub(crate) fn h_line(scr: &mut Screen, start_x: i32, y: i32, end_x: i32, glyph: char)
    requires
        fits_screen(canvas(*old(scr))),
        start_x < i32::MAX,
        end_x < i32::MAX,
    ensures
        screen_width(*final(scr)) == screen_width(*old(scr)),
        screen_height(*final(scr)) == screen_height(*old(scr)),
        screen_cells(*final(scr)) == canvas(*old(scr)).h_line(start_x as int, y as int, end_x as int, Cell::plain(glyph)).cells,
{
    scr.h_line(start_x, y, end_x, pxl(glyph));
}

/// Trusted: `Screen::v_line`, handed the pixel that `pixel::pxl` makes of the glyph, sets
/// the pixels of column `x` at every row between the two ends, both included and in either
/// order, and no other.  It counts one beyond the larger end, which therefore stays below
/// the largest `i32`.
#[verifier::external_body]
pub(crate) fn v_line(scr: &mut Screen, x: i32, start_y: i32, end_y: i32, glyph: char)
    requires
        fits_screen(canvas(*old(scr))),
        start_y < i32::MAX,
        end_y < i32::MAX,
    ensures
        screen_width(*final(scr)) == screen_width(*old(scr)),
        screen_height(*final(scr)) == screen_height(*old(scr)),
        screen_cells(*final(scr)) == canvas(*old(scr)).v_line(x as int, start_y as int, end_y as int, Cell::plain(glyph)).cells,
{
    scr.v_line(x, start_y, end_y, pxl(glyph));
}

} // verus!
