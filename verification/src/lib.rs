//! Character-grid plots of integer-valued functions.
//!
//! A function is sampled at whole steps, the samples decide how tall the canvas has to be and
//! how many columns the height legend takes, and every sample becomes one cell of a
//! `console_engine` screen.  All of the arithmetic on the way is over integers and proved.

use console_engine::screen::Screen;
use vstd::prelude::*;

pub mod canvas;
pub mod digits;
pub mod function;
pub mod geometry;
pub mod graph;
pub mod multi_graph;
pub mod types;

pub use crate::function::Function;
pub use crate::geometry::{Geometry, GraphError};
pub use crate::graph::{Graph, GraphOptions, GraphWidths};
pub use crate::multi_graph::{MultiGraph, MultiGraphOptions};
pub use crate::types::{Character, Color, ColorWrapper, Scales};

use crate::canvas::{canvas, h_line, new_screen, v_line, Canvas, Cell, MAX_CELLS};
use crate::digits::{decimal_width, digit_count, lemma_decimal_width_u32};

verus! {

/// The last step at which `draw` samples.
pub const DRAW_WIDTH: u32 = 80;

/// Whether `ys` holds, in step order, a value that `f` may give at each step from 0 to 80.
pub open spec fn outline_samples<F: Fn(u32) -> u32>(f: F, ys: Seq<u32>) -> bool {
    &&& ys.len() == DRAW_WIDTH + 1
    &&& forall|k: int| 0 <= k < ys.len() ==> call_ensures(f, (k as u32,), #[trigger] ys[k])
}

/// The largest of the samples, and zero where there is none.
pub open spec fn highest(ys: Seq<u32>) -> u32
    decreases ys.len(),
{
    if ys.len() == 0 {
        0
    } else {
        let rest = highest(ys.drop_last());
        if ys.last() > rest {
            ys.last()
        } else {
            rest
        }
    }
}

/// The size of the outline of a plot whose largest sample is `max`: a column for each step
/// from 0 to 80 beside a legend that has room for one more than `max`, and a row for each
/// height from 0 to one more than `max`.
pub open spec fn outline(max: u32) -> Result<Geometry, GraphError> {
    let top = max + 1;
    let legend = decimal_width(top as nat);
    if (DRAW_WIDTH + 1 + legend) * (top + 1) > MAX_CELLS {
        Err(GraphError::CanvasTooLarge)
    } else {
        Ok(
            Geometry {
                widths: GraphWidths {
                    total: (DRAW_WIDTH + 1 + legend) as u32,
                    graph: (DRAW_WIDTH + 1) as u32,
                    height_legend: legend as u32,
                },
                height: (top + 1) as u32,
                graph_height: top as u32,
            },
        )
    }
}

/// What the outline looks like: on a blank canvas, underscores along the last row from the
/// column right of the vertical axis up to column 80 and no further, then bars down the
/// column next to the legend, over all rows, and over both the legend.
pub open spec fn outline_picture(g: Geometry) -> Canvas {
    g.legend(
        Canvas::blank(g.widths.total as nat, g.height as nat).h_line(
            g.widths.height_legend + 1,
            g.graph_height as int,
            DRAW_WIDTH as int,
            Cell::plain('_'),
        ).v_line(g.widths.height_legend as int, 0, g.graph_height as int, Cell::plain('|')),
        g.height as nat,
    )
}

/// What the outline shows at column `x`, row `y`: a digit of the legend, else a bar of the
/// vertical axis, else an underscore in the last row between the vertical axis and column
/// 80, else nothing.
pub open spec fn outline_cell(g: Geometry, x: int, y: int) -> Cell {
    if g.label_at(g.height as nat, x, y) is Some {
        Cell::plain(g.label_at(g.height as nat, x, y)->0)
    } else if g.on_vertical_axis(x, y) {
        Cell::plain('|')
    } else if y == g.graph_height && g.widths.height_legend + 1 <= x <= DRAW_WIDTH {
        Cell::plain('_')
    } else {
        Cell::blank()
    }
}

/// The outline has the size of its geometry and shows, at each of its positions, what
/// `outline_cell` says.  The columns right of column 80 hold no underscore.
pub proof fn lemma_outline_picture(max: u32, x: int, y: int)
    requires
        outline(max) is Ok,
    ensures
        outline(max) matches Ok(g) && outline_picture(g).wf() && outline_picture(g).width
            == g.widths.total && outline_picture(g).height == g.height && g.widths.total
            == DRAW_WIDTH + 1 + g.widths.height_legend && (outline_picture(g).contains(x, y)
            ==> outline_picture(g).at(x, y) == outline_cell(g, x, y)),
{
    let g = outline(max)->Ok_0;
    let columns = DRAW_WIDTH + 1 + decimal_width((max + 1) as nat);
    assert(max + 2 <= MAX_CELLS) by (nonlinear_arith)
        requires
            columns >= 1,
            max + 2 >= 0,
            columns * (max + 2) <= MAX_CELLS,
    ;
    lemma_decimal_width_u32((max + 1) as nat);
    let legend = g.widths.height_legend as int;
    let row = g.graph_height as int;
    let blank = Canvas::blank(g.widths.total as nat, g.height as nat);
    Canvas::lemma_blank(g.widths.total as nat, g.height as nat, x, y);
    blank.lemma_h_line(legend + 1, row, DRAW_WIDTH as int, Cell::plain('_'), x, y);
    let lined = blank.h_line(legend + 1, row, DRAW_WIDTH as int, Cell::plain('_'));
    lined.lemma_v_line(legend, 0, row, Cell::plain('|'), x, y);
    g.lemma_legend_cell(lined.v_line(legend, 0, row, Cell::plain('|')), g.height as nat, x, y);
}

/// Samples `f` at every step from 0 to 80 and draws, on a fresh screen, the outline of its
/// plot: the axes and the legend.  The outline has no points, so `character` goes unused.
pub fn draw<F: Fn(u32) -> u32>(f: F, character: Character) -> (r: Result<Screen, GraphError>)
    requires
        forall|x: u32| x <= DRAW_WIDTH ==> call_requires(f, (x,)),
    ensures
        exists|ys: Seq<u32>|
            outline_samples(f, ys) && match #[trigger] outline(highest(ys)) {
                Err(e) => r == Err::<Screen, GraphError>(e),
                Ok(g) => r matches Ok(scr) && canvas(scr) == outline_picture(g),
            },
{
    let mut ys: Vec<u32> = Vec::new();
    let mut max: u32 = 0;
    let mut x: u32 = 0;
    while x <= DRAW_WIDTH
        invariant
            x <= DRAW_WIDTH + 1,
            ys.len() == x,
            forall|x: u32| x <= DRAW_WIDTH ==> call_requires(f, (x,)),
            forall|k: int| 0 <= k < ys.len() ==> call_ensures(f, (k as u32,), #[trigger] ys[k]),
            max == highest(ys@),
        decreases DRAW_WIDTH + 1 - x,
    {
        let y = f(x);
        let ghost before = ys@;
        ys.push(y);
        proof {
            assert(ys@.drop_last() =~= before);
        }
        if y > max {
            max = y;
        }
        x = x + 1;
    }
    proof {
        assert(outline_samples(f, ys@));
    }
    if max == 0xffff_ffff {
        proof {
            let legend = decimal_width((max + 1) as nat) as int;
            assert((81 + legend) * (max + 2) > MAX_CELLS) by (nonlinear_arith)
                requires
                    max == 0xffff_ffff,
                    legend >= 0,
            ;
            assert(outline(highest(ys@)) == Err::<Geometry, GraphError>(GraphError::CanvasTooLarge));
        }
        return Err(GraphError::CanvasTooLarge);
    }
    let top: u32 = max + 1;
    let legend = digit_count(top);
    let total: u32 = DRAW_WIDTH + 1 + legend;
    assert(total * (top + 1) <= 91 * 0x1_0000_0000) by (nonlinear_arith)
        requires
            0 <= total <= 91,
            0 <= top + 1 <= 0x1_0000_0000,
    ;
    if total as u64 * (top as u64 + 1) > MAX_CELLS as u64 {
        proof {
            assert(outline(highest(ys@)) == Err::<Geometry, GraphError>(GraphError::CanvasTooLarge));
        }
        return Err(GraphError::CanvasTooLarge);
    }
    assert(top + 1 <= MAX_CELLS) by (nonlinear_arith)
        requires
            total >= 1,
            top + 1 >= 0,
            total * (top + 1) <= MAX_CELLS,
    ;
    let g = Geometry {
        widths: GraphWidths { total, graph: DRAW_WIDTH + 1, height_legend: legend },
        height: top + 1,
        graph_height: top,
    };
    proof {
        assert(outline(highest(ys@)) == Ok::<Geometry, GraphError>(g));
    }
    let mut scr = new_screen(g.widths.total, g.height);
    proof {
        Canvas::lemma_blank(g.widths.total as nat, g.height as nat, 0, 0);
    }
    h_line(&mut scr, (legend + 1) as i32, top as i32, DRAW_WIDTH as i32, '_');
    v_line(&mut scr, legend as i32, 0, top as i32, '|');
    g.draw_height_legend(&mut scr);
    Ok(scr)
}

} // verus!
