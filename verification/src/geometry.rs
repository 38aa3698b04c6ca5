//! The geometry of a plot: how many columns and rows it takes, and where its axes, its
//! legend and its points go.

use console_engine::screen::Screen;
use vstd::prelude::*;

use crate::canvas::{canvas, fits_screen, h_line, set_pxl, v_line, Canvas, Cell, MAX_CELLS};
use crate::digits::{
    decimal, decimal_width, digit_count, digits, lemma_decimal_width_bounds,
    lemma_decimal_width_is_length, lemma_decimal_width_u32, pow10,
};
use crate::graph::{GraphOptions, GraphWidths};
use crate::types::Color;

verus! {

/// Why a plot cannot be laid out.
#[derive(Copy, Clone, Debug, PartialEq, Eq, Structural)]
pub enum GraphError {
    /// There is no function to plot.
    NoFunctions,
    /// The height was fixed at zero rows.
    ZeroHeight,
    /// The legend leaves no column for the plot.
    WidthTooSmall,
    /// The canvas has more cells than a screen can hold.
    CanvasTooLarge,
}

/// The largest of the samples, and zero where none is positive.
pub open spec fn peak(ys: Seq<i64>) -> int
    decreases ys.len(),
{
    if ys.len() == 0 {
        0
    } else {
        let rest = peak(ys.drop_last());
        if ys.last() > rest {
            ys.last() as int
        } else {
            rest
        }
    }
}

/// The height that contains the samples: their peak, as far as 32 bits hold it.
pub open spec fn max_value_of(ys: Seq<i64>) -> u32 {
    if peak(ys) > u32::MAX {
        u32::MAX
    } else {
        peak(ys) as u32
    }
}

/// The peak is the least number that is neither negative nor below any sample.
pub proof fn lemma_peak_is_least_bound(ys: Seq<i64>)
    ensures
        peak(ys) >= 0,
        forall|i: int| 0 <= i < ys.len() ==> ys[i] <= peak(ys),
        peak(ys) == 0 || exists|i: int| 0 <= i < ys.len() && ys[i] == peak(ys),
    decreases ys.len(),
{
    if ys.len() > 0 {
        let rest = ys.drop_last();
        lemma_peak_is_least_bound(rest);
        assert forall|i: int| 0 <= i < ys.len() implies ys[i] <= peak(ys) by {
            if i < rest.len() {
                assert(rest[i] == ys[i]);
            }
        }
        if peak(ys) != 0 {
            if ys.last() > peak(rest) {
                assert(ys[ys.len() - 1] == peak(ys));
            } else {
                let i = choose|i: int| 0 <= i < rest.len() && rest[i] == peak(rest);
                assert(ys[i] == peak(ys));
            }
        }
    }
}

/// The height that contains the samples.
pub fn max_value(ys: &Vec<i64>) -> (m: u32)
    ensures
        m == max_value_of(ys@),
{
    let mut best: i64 = 0;
    let mut i: usize = 0;
    while i < ys.len()
        invariant
            i <= ys.len(),
            best == peak(ys@.take(i as int)),
        decreases ys.len() - i,
    {
        proof {
            assert(ys@.take(i + 1).drop_last() =~= ys@.take(i as int));
        }
        if ys[i] > best {
            best = ys[i];
        }
        i = i + 1;
    }
    proof {
        assert(ys@.take(i as int) =~= ys@);
        lemma_peak_is_least_bound(ys@);
    }
    if best > 0xffff_ffff {
        0xffff_ffff
    } else {
        best as u32
    }
}

/// The size of a plot: its columns, its rows, and the row of its horizontal axis, which is
/// the last one.
#[derive(Copy, Clone, Debug, PartialEq, Eq, Structural)]
pub struct Geometry {
    pub widths: GraphWidths,
    pub height: u32,
    pub graph_height: u32,
}

/// The rows of a canvas: the height that was fixed, or one more than the tallest sample.
pub open spec fn canvas_height(set_height: Option<u32>, max_value: u32) -> nat {
    match set_height {
        Some(h) => h as nat,
        None => (max_value + 1) as nat,
    }
}

impl Geometry {
    /// The columns add up, legend and plot have a column each, the axis is the last row, and
    /// a screen can hold the canvas.
    pub open spec fn wf(self) -> bool {
        &&& self.widths.total == self.widths.graph + self.widths.height_legend
        &&& self.widths.graph >= 1
        &&& self.widths.height_legend >= 1
        &&& self.height == self.graph_height + 1
        &&& self.widths.total * self.height <= MAX_CELLS
    }

    /// The geometry of a plot `width` columns wide whose tallest sample is `max_value`: the
    /// legend takes as many columns as `max_value` has digits, the plot takes the rest.
    pub open spec fn derive_spec(width: u32, set_height: Option<u32>, max_value: u32) -> Result<
        Geometry,
        GraphError,
    > {
        let legend = decimal_width(max_value as nat);
        let height = canvas_height(set_height, max_value);
        if height == 0 {
            Err(GraphError::ZeroHeight)
        } else if width <= legend {
            Err(GraphError::WidthTooSmall)
        } else if width * height > MAX_CELLS {
            Err(GraphError::CanvasTooLarge)
        } else {
            Ok(
                Geometry {
                    widths: GraphWidths {
                        total: width,
                        graph: (width - legend) as u32,
                        height_legend: legend as u32,
                    },
                    height: height as u32,
                    graph_height: (height - 1) as u32,
                },
            )
        }
    }

    /// A geometry that was derived is well formed, and its legend and plot columns add up to
    /// the width that was asked for.
    pub proof fn lemma_derived_is_wf(width: u32, set_height: Option<u32>, max_value: u32)
        ensures
            Geometry::derive_spec(width, set_height, max_value) matches Ok(g) ==> g.wf()
                && g.widths.total == width && g.widths.graph + g.widths.height_legend == width
                && g.widths.height_legend == decimal_width(max_value as nat) && g.height
                == g.graph_height + 1 && g.height == canvas_height(set_height, max_value),
    {
        lemma_decimal_width_u32(max_value as nat);
        let height = canvas_height(set_height, max_value);
        if height > 0 && width > decimal_width(max_value as nat) && width * height <= MAX_CELLS {
            assert(height <= MAX_CELLS) by (nonlinear_arith)
                requires
                    width >= 1,
                    height >= 0,
                    width * height <= MAX_CELLS,
            ;
        }
    }

    /// Whether a plot of this width, fixed height and tallest sample can be laid out: its
    /// height is not fixed at zero, its width exceeds the digits of its tallest sample, and
    /// its canvas has no more cells than a screen can hold.
    pub open spec fn can_lay_out(width: u32, set_height: Option<u32>, max_value: u32) -> bool {
        &&& set_height != Some(0u32)
        &&& width > decimal_width(max_value as nat)
        &&& width * canvas_height(set_height, max_value) <= MAX_CELLS
    }

    /// Whether `g` is the geometry that such a plot has: its columns are the width, split
    /// into the plot and a legend as wide as the tallest sample has digits; its rows are the
    /// fixed height or one more than the tallest sample; and where the height is not fixed,
    /// the legend is as wide as the number of the top row is long in base ten.
    pub open spec fn laid_out(g: Geometry, width: u32, set_height: Option<u32>, max_value: u32) -> bool {
        &&& g.wf()
        &&& g.widths.total == width
        &&& g.widths.graph + g.widths.height_legend == width
        &&& g.widths.graph < width
        &&& g.widths.height_legend == decimal_width(max_value as nat)
        &&& g.height == canvas_height(set_height, max_value)
        &&& g.graph_height == g.height - 1
        &&& set_height is None ==> {
            &&& g.graph_height == max_value
            &&& g.widths.height_legend == decimal(g.graph_height as nat).len()
            &&& g.graph_height == 0 ==> g.widths.height_legend == 1
            &&& g.graph_height > 0 ==> pow10((g.widths.height_legend - 1) as nat) <= g.graph_height
                < pow10(g.widths.height_legend as nat)
        }
    }

    /// A plot is laid out if and only if it can be, and then its geometry is as `laid_out`
    /// says: for every width, the columns of the plot and of the legend add up to it, and
    /// the legend is as wide as the tallest sample has digits.
    pub proof fn lemma_derive_laws(width: u32, set_height: Option<u32>, max_value: u32)
        ensures
            Geometry::derive_spec(width, set_height, max_value) is Ok <==> Geometry::can_lay_out(
                width,
                set_height,
                max_value,
            ),
            Geometry::derive_spec(width, set_height, max_value) matches Ok(g) ==> Geometry::laid_out(
                g,
                width,
                set_height,
                max_value,
            ),
    {
        Geometry::lemma_derived_is_wf(width, set_height, max_value);
        lemma_decimal_width_u32(max_value as nat);
        lemma_decimal_width_bounds(max_value as nat);
        lemma_decimal_width_is_length(max_value as nat);
    }

    /// Lays a plot out.
    pub fn derive(width: u32, set_height: Option<u32>, max_value: u32) -> (r: Result<
        Geometry,
        GraphError,
    >)
        ensures
            r == Geometry::derive_spec(width, set_height, max_value),
            r matches Ok(g) ==> g.wf() && g.widths.graph + g.widths.height_legend == width,
    {
        proof {
            Geometry::lemma_derived_is_wf(width, set_height, max_value);
        }
        let legend = digit_count(max_value);
        let height: u64 = match set_height {
            Some(h) => h as u64,
            None => max_value as u64 + 1,
        };
        if height == 0 {
            return Err(GraphError::ZeroHeight);
        }
        if width <= legend {
            return Err(GraphError::WidthTooSmall);
        }
        assert(width * height <= 0xffff_ffff * 0x1_0000_0000) by (nonlinear_arith)
            requires
                0 <= width <= 0xffff_ffff,
                0 <= height <= 0x1_0000_0000,
        ;
        if width as u64 * height > MAX_CELLS as u64 {
            return Err(GraphError::CanvasTooLarge);
        }
        assert(height <= MAX_CELLS) by (nonlinear_arith)
            requires
                width >= 1,
                height >= 0,
                width * height <= MAX_CELLS,
        ;
        Ok(
            Geometry {
                widths: GraphWidths { total: width, graph: width - legend, height_legend: legend },
                height: height as u32,
                graph_height: (height - 1) as u32,
            },
        )
    }
}

/// A canvas that a screen can hold has its columns and rows within the screen's index range.
pub proof fn lemma_fits_bounds(c: Canvas, x: int, y: int)
    requires
        fits_screen(c),
        c.contains(x, y),
    ensures
        0 <= x < c.width <= MAX_CELLS,
        0 <= y < c.height <= MAX_CELLS,
{
    let w = c.width as int;
    let h = c.height as int;
    assert(w <= MAX_CELLS && h <= MAX_CELLS) by (nonlinear_arith)
        requires
            w >= 1,
            h >= 1,
            w * h <= MAX_CELLS,
    ;
}

/// The canvas with the first `upto` characters of `text` in row `row`, from column 0 on, in
/// the terminal's own colours.
pub open spec fn written(c: Canvas, row: int, text: Seq<char>, upto: nat) -> Canvas
    decreases upto,
{
    if upto == 0 {
        c
    } else {
        written(c, row, text, (upto - 1) as nat).put(upto - 1, row, Cell::plain(text[upto - 1]))
    }
}

/// Writing changes the cells under the text, and nothing else.
pub proof fn lemma_written_cell(c: Canvas, row: int, text: Seq<char>, upto: nat, x: int, y: int)
    requires
        c.wf(),
    ensures
        written(c, row, text, upto).wf(),
        written(c, row, text, upto).width == c.width,
        written(c, row, text, upto).height == c.height,
        written(c, row, text, upto).at(x, y) == if c.contains(x, y) && y == row && 0 <= x < upto {
            Cell::plain(text[x])
        } else {
            c.at(x, y)
        },
    decreases upto,
{
    if upto > 0 {
        let k = (upto - 1) as nat;
        lemma_written_cell(c, row, text, k, x, y);
        written(c, row, text, k).lemma_put(k as int, row, Cell::plain(text[k as int]), x, y);
    }
}

impl Geometry {
    /// The columns and rows of a well-formed geometry are within a screen's index range.
    pub proof fn lemma_wf_bounds(self)
        requires
            self.wf(),
        ensures
            self.widths.total <= MAX_CELLS,
            self.height <= MAX_CELLS,
    {
        let w = self.widths.total as int;
        let h = self.height as int;
        assert(w <= MAX_CELLS && h <= MAX_CELLS) by (nonlinear_arith)
            requires
                w >= 1,
                h >= 1,
                w * h <= MAX_CELLS,
        ;
    }

    /// The canvas with the two axes: underscores along the last row, over the columns of the
    /// plot, which begin one to the right of the legend; and bars down the column next to
    /// the legend, over all rows.
    pub open spec fn axes(self, c: Canvas) -> Canvas {
        c.h_line(
            self.widths.height_legend + 1,
            self.graph_height as int,
            self.widths.height_legend + self.widths.graph,
            Cell::plain('_'),
        ).v_line(self.widths.height_legend as int, 0, self.graph_height as int, Cell::plain('|'))
    }

    /// The canvas with the heights below `rows` written down the left edge: the digits of
    /// each height `h` from column 0 on, `h` rows above the horizontal axis.
    pub open spec fn legend(self, c: Canvas, rows: nat) -> Canvas
        decreases rows,
    {
        if rows == 0 {
            c
        } else {
            let h = (rows - 1) as nat;
            written(self.legend(c, h), self.graph_height - h, decimal(h), decimal(h).len())
        }
    }

    /// The column of the sample at step `step`: as many columns to the right of the vertical
    /// axis.
    pub open spec fn column_of(self, step: int) -> int {
        step + self.widths.height_legend
    }

    /// The row of a sample of value `y`: as many rows above the horizontal axis.  Rows are
    /// counted from the top, so a larger value has a smaller row.
    pub open spec fn row_of(self, y: i64) -> int {
        self.graph_height - y
    }

    /// The canvas with the first `upto` samples plotted: the sample at step `k` shows `cell`
    /// at its column and row.
    pub open spec fn plot(self, c: Canvas, ys: Seq<i64>, upto: nat, cell: Cell) -> Canvas
        decreases upto,
    {
        if upto == 0 {
            c
        } else {
            let k = upto - 1;
            self.plot(c, ys, k as nat, cell).put(self.column_of(k), self.row_of(ys[k]), cell)
        }
    }

    /// Whether one of the first `upto` samples is plotted at column `x`, row `y`.
    pub open spec fn marks(self, ys: Seq<i64>, upto: nat, x: int, y: int) -> bool {
        let k = x - self.widths.height_legend;
        0 <= k < upto && self.row_of(ys[k]) == y
    }

    /// The digit that the legend of the heights below `rows` shows at column `x`, row `y`,
    /// if it shows one there.
    pub open spec fn label_at(self, rows: nat, x: int, y: int) -> Option<char> {
        let h = self.graph_height - y;
        if 0 <= h < rows && 0 <= x < decimal(h as nat).len() {
            Some(decimal(h as nat)[x])
        } else {
            None
        }
    }

    /// Whether column `x`, row `y` lies on the vertical axis.
    pub open spec fn on_vertical_axis(self, x: int, y: int) -> bool {
        x == self.widths.height_legend && 0 <= y <= self.graph_height
    }

    /// Whether column `x`, row `y` lies on the horizontal axis.
    pub open spec fn on_horizontal_axis(self, x: int, y: int) -> bool {
        y == self.graph_height && self.widths.height_legend + 1 <= x <= self.widths.height_legend
            + self.widths.graph
    }

    /// The canvas that the series are plotted on: the axes on a blank canvas and, where it
    /// is asked for, the legend over them.
    pub open spec fn backdrop(self, with_legend: bool) -> Canvas {
        let framed = self.axes(Canvas::blank(self.widths.total as nat, self.height as nat));
        if with_legend {
            self.legend(framed, self.height as nat)
        } else {
            framed
        }
    }

    /// What the backdrop shows at column `x`, row `y`: a digit of the legend, else a bar of
    /// the vertical axis, else an underscore of the horizontal axis, else nothing.
    pub open spec fn backdrop_cell(self, with_legend: bool, x: int, y: int) -> Cell {
        if with_legend && self.label_at(self.height as nat, x, y) is Some {
            Cell::plain(self.label_at(self.height as nat, x, y)->0)
        } else if self.on_vertical_axis(x, y) {
            Cell::plain('|')
        } else if self.on_horizontal_axis(x, y) {
            Cell::plain('_')
        } else {
            Cell::blank()
        }
    }

    /// A larger value is plotted in the same row or above.
    pub proof fn lemma_rows_are_monotonic(self, lower: i64, higher: i64)
        requires
            lower <= higher,
        ensures
            self.row_of(higher) <= self.row_of(lower),
    {
    }

    /// The axes change the cells that lie on them, and nothing else.
    pub proof fn lemma_axes_cell(self, c: Canvas, x: int, y: int)
        requires
            self.wf(),
            c.wf(),
        ensures
            self.axes(c).wf(),
            self.axes(c).width == c.width,
            self.axes(c).height == c.height,
            c.contains(x, y) ==> self.axes(c).at(x, y) == if self.on_vertical_axis(x, y) {
                Cell::plain('|')
            } else if self.on_horizontal_axis(x, y) {
                Cell::plain('_')
            } else {
                c.at(x, y)
            },
    {
        let legend = self.widths.height_legend as int;
        let row = self.graph_height as int;
        let lined = c.h_line(legend + 1, row, legend + self.widths.graph, Cell::plain('_'));
        c.lemma_h_line(legend + 1, row, legend + self.widths.graph, Cell::plain('_'), x, y);
        lined.lemma_v_line(legend, 0, row, Cell::plain('|'), x, y);
    }

    /// The legend changes the cells that show a digit of a height, and nothing else.
    pub proof fn lemma_legend_cell(self, c: Canvas, rows: nat, x: int, y: int)
        requires
            c.wf(),
        ensures
            self.legend(c, rows).wf(),
            self.legend(c, rows).width == c.width,
            self.legend(c, rows).height == c.height,
            self.legend(c, rows).at(x, y) == if c.contains(x, y) && self.label_at(rows, x, y) is Some {
                Cell::plain(self.label_at(rows, x, y)->0)
            } else {
                c.at(x, y)
            },
        decreases rows,
    {
        if rows > 0 {
            let h = (rows - 1) as nat;
            self.lemma_legend_cell(c, h, x, y);
            lemma_written_cell(
                self.legend(c, h),
                self.graph_height - h,
                decimal(h),
                decimal(h).len(),
                x,
                y,
            );
        }
    }

    /// Plotting changes the cells that a sample is plotted at, and nothing else.
    pub proof fn lemma_plot_cell(self, c: Canvas, ys: Seq<i64>, upto: nat, cell: Cell, x: int, y: int)
        requires
            c.wf(),
        ensures
            self.plot(c, ys, upto, cell).wf(),
            self.plot(c, ys, upto, cell).width == c.width,
            self.plot(c, ys, upto, cell).height == c.height,
            self.plot(c, ys, upto, cell).at(x, y) == if c.contains(x, y) && self.marks(ys, upto, x, y) {
                cell
            } else {
                c.at(x, y)
            },
        decreases upto,
    {
        if upto > 0 {
            let k = (upto - 1) as nat;
            self.lemma_plot_cell(c, ys, k, cell, x, y);
            self.plot(c, ys, k, cell).lemma_put(self.column_of(k as int), self.row_of(ys[k as int]), cell, x, y);
        }
    }

    /// The backdrop has the size of the geometry and shows, at each of its positions, what
    /// `backdrop_cell` says.
    pub proof fn lemma_backdrop_cell(self, with_legend: bool, x: int, y: int)
        requires
            self.wf(),
        ensures
            self.backdrop(with_legend).wf(),
            self.backdrop(with_legend).width == self.widths.total,
            self.backdrop(with_legend).height == self.height,
            self.backdrop(with_legend).contains(x, y) ==> self.backdrop(with_legend).at(x, y)
                == self.backdrop_cell(with_legend, x, y),
    {
        let blank = Canvas::blank(self.widths.total as nat, self.height as nat);
        Canvas::lemma_blank(self.widths.total as nat, self.height as nat, x, y);
        self.lemma_axes_cell(blank, x, y);
        if with_legend {
            self.lemma_legend_cell(self.axes(blank), self.height as nat, x, y);
        }
    }

    /// Draws the two axes.
    pub(crate) fn draw_axis(&self, scr: &mut Screen)
        requires
            self.wf(),
            fits_screen(canvas(*old(scr))),
        ensures
            canvas(*final(scr)) == self.axes(canvas(*old(scr))),
            fits_screen(canvas(*final(scr))),
    {
        proof {
            self.lemma_wf_bounds();
        }
        let legend = self.widths.height_legend;
        let total = self.widths.total;
        let row = self.graph_height as i32;
        // The column after the last one of the plot lies off every screen.
        let last: u32 = if total == MAX_CELLS {
            total - 1
        } else {
            total
        };
        let ghost before = canvas(*scr);
        let ghost cell = Cell::plain('_');
        let ghost lined = before.h_line(legend + 1, row as int, total as int, cell);
        if legend + 1 <= last {
            h_line(scr, (legend + 1) as i32, row, last as i32, '_');
        }
        proof {
            assert forall|p: (int, int)| before.cells.dom().contains(p) implies canvas(*scr).cells[p]
                == lined.cells[p] by {
                lemma_fits_bounds(before, p.0, p.1);
            }
            assert(canvas(*scr).cells =~= lined.cells);
        }
        v_line(scr, legend as i32, 0, row, '|');
    }

    /// Writes `text` into row `row`, from column 0 on.
    fn write_label(scr: &mut Screen, row: i32, text: &Vec<char>)
        requires
            fits_screen(canvas(*old(scr))),
            text.len() <= 10,
        ensures
            canvas(*final(scr)) == written(canvas(*old(scr)), row as int, text@, text.len() as nat),
            fits_screen(canvas(*final(scr))),
    {
        let mut j: usize = 0;
        while j < text.len()
            invariant
                j <= text.len() <= 10,
                fits_screen(canvas(*scr)),
                canvas(*scr) == written(canvas(*old(scr)), row as int, text@, j as nat),
            decreases text.len() - j,
        {
            set_pxl(scr, j as i32, row, text[j], Color::Reset);
            j = j + 1;
        }
    }

    /// Writes the heights down the left edge, one to a row, zero on the horizontal axis.
    pub(crate) fn draw_height_legend(&self, scr: &mut Screen)
        requires
            self.wf(),
            fits_screen(canvas(*old(scr))),
        ensures
            canvas(*final(scr)) == self.legend(canvas(*old(scr)), self.height as nat),
            fits_screen(canvas(*final(scr))),
    {
        proof {
            self.lemma_wf_bounds();
        }
        let mut h: u32 = 0;
        while h <= self.graph_height
            invariant
                self.wf(),
                self.height <= MAX_CELLS,
                h <= self.height,
                fits_screen(canvas(*scr)),
                canvas(*scr) == self.legend(canvas(*old(scr)), h as nat),
            decreases self.height - h,
        {
            let text = digits(h);
            Geometry::write_label(scr, (self.graph_height - h) as i32, &text);
            h = h + 1;
        }
    }

    /// Plots the first `upto` samples of a series.
    pub(crate) fn draw_points(&self, scr: &mut Screen, ys: &Vec<i64>, upto: usize, options: &GraphOptions)
        requires
            fits_screen(canvas(*old(scr))),
            upto <= ys.len(),
        ensures
            canvas(*final(scr)) == self.plot(canvas(*old(scr)), ys@, upto as nat, options.cell()),
            fits_screen(canvas(*final(scr))),
    {
        let glyph = options.character.as_char();
        let fg = options.color.0;
        let mut k: usize = 0;
        while k < upto
            invariant
                k <= upto <= ys.len(),
                glyph == options.character.glyph(),
                fg == options.color.0,
                fits_screen(canvas(*scr)),
                canvas(*scr) == self.plot(canvas(*old(scr)), ys@, k as nat, options.cell()),
            decreases upto - k,
        {
            let row: i128 = self.graph_height as i128 - ys[k] as i128;
            let ghost col = k + self.widths.height_legend;
            let ghost before = canvas(*scr);
            if k <= 0x7fff_ffff && 0 <= row && row <= 0x7fff_ffff {
                let column: u64 = k as u64 + self.widths.height_legend as u64;
                if column <= 0x7fff_ffff {
                    set_pxl(scr, column as i32, row as i32, glyph, fg);
                }
            }
            proof {
                if before.contains(col, row as int) {
                    lemma_fits_bounds(before, col, row as int);
                }
                assert(canvas(*scr) == before.put(col, row as int, options.cell()));
            }
            k = k + 1;
        }
    }
}

/// A series that is zero at every step, plotted as tall as it asks for: the legend takes one
/// column, the canvas has one row, and every sample lies in that row.
pub proof fn lemma_flat_series(ys: Seq<i64>, width: u32)
    requires
        forall|k: int| 0 <= k < ys.len() ==> ys[k] == 0,
        2 <= width <= MAX_CELLS,
    ensures
        max_value_of(ys) == 0,
        Geometry::derive_spec(width, None, max_value_of(ys)) matches Ok(g) && g.widths.height_legend
            == 1 && g.widths.graph == width - 1 && g.height == 1 && g.graph_height == 0 && forall|
            k: int,
        |
            0 <= k < ys.len() ==> g.row_of(#[trigger] ys[k]) == 0,
{
    lemma_peak_is_least_bound(ys);
    assert(width * 1 <= MAX_CELLS);
}

/// Where the height is left to the samples, the canvas contains them: every sample that is
/// not negative lies in one of its rows.
pub proof fn lemma_samples_fit(ys: Seq<i64>, width: u32, k: int)
    requires
        Geometry::derive_spec(width, None, max_value_of(ys)) is Ok,
        0 <= k < ys.len(),
        ys[k] >= 0,
    ensures
        Geometry::derive_spec(width, None, max_value_of(ys)) matches Ok(g) && 0 <= g.row_of(ys[k])
            < g.height,
{
    lemma_peak_is_least_bound(ys);
    Geometry::lemma_derived_is_wf(width, None, max_value_of(ys));
    let g = Geometry::derive_spec(width, None, max_value_of(ys))->Ok_0;
    g.lemma_wf_bounds();
}

/// What stands in the way of a plot whatever its samples are: a height fixed at zero, or a
/// width that alone is beyond a screen.
pub open spec fn early_error(width: u32, set_height: Option<u32>) -> Option<GraphError> {
    if set_height == Some(0u32) {
        Some(GraphError::ZeroHeight)
    } else if width > MAX_CELLS {
        Some(GraphError::CanvasTooLarge)
    } else {
        None
    }
}

/// An early error is the error of the geometry, whatever the tallest sample is.
pub proof fn lemma_early_error(width: u32, set_height: Option<u32>, max_value: u32)
    ensures
        early_error(width, set_height) matches Some(e) ==> Geometry::derive_spec(
            width,
            set_height,
            max_value,
        ) == Err::<Geometry, GraphError>(e),
{
    lemma_decimal_width_u32(max_value as nat);
    let height = canvas_height(set_height, max_value) as int;
    if height >= 1 && width > MAX_CELLS {
        assert(width * height > MAX_CELLS) by (nonlinear_arith)
            requires
                width > MAX_CELLS,
                height >= 1,
        ;
    }
}

} // verus!
