//! The plot of one series.

use console_engine::screen::Screen;
use vstd::prelude::*;

use crate::canvas::{canvas, new_screen, Canvas, Cell, MAX_CELLS};
use crate::function::{samples_of, Function};
use crate::geometry::{
    early_error, lemma_flat_series, max_value, max_value_of, Geometry, GraphError,
};
use crate::types::{Character, Color, ColorWrapper};

verus! {

/// How one series is drawn.
#[derive(Copy, Clone, Debug, PartialEq, Eq, Structural)]
pub struct GraphOptions {
    /// The colour of its points.
    pub color: ColorWrapper,
    /// The character of its points.
    pub character: Character,
    /// Whether the heights are written down the left edge.
    pub height_legend: bool,
}

impl GraphOptions {
    /// What a cell with a point of the series shows.
    pub open spec fn cell(self) -> Cell {
        Cell::inked(self.character.glyph(), self.color.0)
    }

    /// The options that a plot has where none are given: blue stars beside a legend.
    pub open spec fn standard() -> GraphOptions {
        GraphOptions { color: ColorWrapper(Color::Blue), character: Character::Star, height_legend: true }
    }
}

impl Default for GraphOptions {
    fn default() -> (o: GraphOptions)
        ensures
            o == GraphOptions::standard(),
    {
        GraphOptions { color: ColorWrapper(Color::Blue), character: Character::Star, height_legend: true }
    }
}

/// The columns of a plot: all of them, those of the plot itself and those of the legend.
#[derive(Copy, Clone, Debug, PartialEq, Eq, Structural)]
pub struct GraphWidths {
    pub total: u32,
    pub graph: u32,
    pub height_legend: u32,
}

/// The samples without the last `legend` of them, or none where there are no more.
pub open spec fn trimmed(samples: Seq<i64>, legend: nat) -> Seq<i64> {
    if samples.len() >= legend {
        samples.take(samples.len() - legend)
    } else {
        Seq::empty()
    }
}

/// The plot of one series.
pub struct Graph {
    geometry: Geometry,
    pts: Vec<i64>,
    options: GraphOptions,
}

impl Graph {
    #[verifier::type_invariant]
    spec fn inv(self) -> bool {
        self.geometry.wf()
    }

    /// The size of the plot.
    pub closed spec fn geometry(self) -> Geometry {
        self.geometry
    }

    /// The samples that are plotted, by step.
    pub closed spec fn points(self) -> Seq<i64> {
        self.pts@
    }

    /// How the series is drawn.
    pub closed spec fn options(self) -> GraphOptions {
        self.options
    }

    /// Whether `r` is what laying out a plot of `samples` gives: the error of the geometry,
    /// or a plot of that geometry which holds the samples but for those that the columns of
    /// the legend leave no room for.
    pub open spec fn built(
        r: Result<Graph, GraphError>,
        samples: Seq<i64>,
        max_value: u32,
        width: u32,
        set_height: Option<u32>,
        options: GraphOptions,
    ) -> bool {
        match Geometry::derive_spec(width, set_height, max_value) {
            Err(e) => r == Err::<Graph, GraphError>(e),
            Ok(g) => r matches Ok(graph) && graph.geometry() == g && graph.points() == trimmed(
                samples,
                g.widths.height_legend as nat,
            ) && graph.options() == options,
        }
    }

    /// What the plot looks like: the points over the backdrop.
    pub open spec fn picture(self) -> Canvas {
        let g = self.geometry();
        g.plot(
            g.backdrop(self.options().height_legend),
            self.points(),
            self.points().len(),
            self.options().cell(),
        )
    }

    /// What the plot shows at column `x`, row `y`: a point of the series, else what the
    /// backdrop shows there.
    pub open spec fn cell_at(self, x: int, y: int) -> Cell {
        let g = self.geometry();
        if g.marks(self.points(), self.points().len(), x, y) {
            self.options().cell()
        } else {
            g.backdrop_cell(self.options().height_legend, x, y)
        }
    }

    /// The picture has the size of the geometry and shows, at each of its positions, what
    /// `cell_at` says.
    pub proof fn lemma_picture(self, x: int, y: int)
        requires
            self.geometry().wf(),
        ensures
            self.picture().wf(),
            self.picture().width == self.geometry().widths.total,
            self.picture().height == self.geometry().height,
            self.picture().contains(x, y) ==> self.picture().at(x, y) == self.cell_at(x, y),
    {
        let g = self.geometry();
        g.lemma_backdrop_cell(self.options().height_legend, x, y);
        g.lemma_plot_cell(
            g.backdrop(self.options().height_legend),
            self.points(),
            self.points().len(),
            self.options().cell(),
            x,
            y,
        );
    }

    /// A plot that can be laid out is: what `built` describes is then a plot, not an error,
    /// whose columns of plot and legend add up to the width and whose legend is as wide as
    /// the tallest sample has digits.
    pub proof fn lemma_built_laws(
        r: Result<Graph, GraphError>,
        samples: Seq<i64>,
        max_value: u32,
        width: u32,
        set_height: Option<u32>,
        options: GraphOptions,
    )
        requires
            Graph::built(r, samples, max_value, width, set_height, options),
        ensures
            r is Ok <==> Geometry::can_lay_out(width, set_height, max_value),
            r matches Ok(graph) ==> Geometry::laid_out(graph.geometry(), width, set_height, max_value)
                && graph.points() == trimmed(samples, graph.geometry().widths.height_legend as nat)
                && graph.options() == options,
    {
        Geometry::lemma_derive_laws(width, set_height, max_value);
    }

    /// The plot of a series that is zero at every step, as tall as the series asks for: for
    /// every width from two up to what a screen can hold it is laid out, its legend takes
    /// one column, its canvas has one row, and every point lies in that row.
    pub proof fn lemma_built_flat(
        r: Result<Graph, GraphError>,
        samples: Seq<i64>,
        width: u32,
        options: GraphOptions,
    )
        requires
            Graph::built(r, samples, max_value_of(samples), width, None, options),
            forall|k: int| 0 <= k < samples.len() ==> samples[k] == 0,
            2 <= width <= MAX_CELLS,
        ensures
            max_value_of(samples) == 0,
            r matches Ok(graph) && graph.geometry().widths.total == width
                && graph.geometry().widths.height_legend == 1 && graph.geometry().widths.graph == width
                - 1 && graph.geometry().height == 1 && graph.geometry().graph_height == 0 && forall|
                k: int,
            |
                0 <= k < graph.points().len() ==> graph.geometry().row_of(
                    #[trigger] graph.points()[k],
                ) == 0,
    {
        lemma_flat_series(samples, width);
    }

    /// Lays out the plot of a series that was sampled from step 0 on, `max_value` being the
    /// height that contains the samples.
    pub fn with_samples(
        samples: Vec<i64>,
        max_value: u32,
        width: u32,
        set_height: Option<u32>,
        options: GraphOptions,
    ) -> (r: Result<Graph, GraphError>)
        ensures
            Graph::built(r, samples@, max_value, width, set_height, options),
            r matches Ok(graph) ==> graph.geometry().wf() && graph.geometry().widths.total == width
                && graph.geometry().widths.graph + graph.geometry().widths.height_legend == width
                && graph.geometry().widths.graph < width,
    {
        match Geometry::derive(width, set_height, max_value) {
            Err(e) => Err(e),
            Ok(geometry) => {
                let ghost all = samples@;
                let mut pts = samples;
                let legend = geometry.widths.height_legend as usize;
                if pts.len() >= legend {
                    pts.truncate(pts.len() - legend);
                } else {
                    pts.truncate(0);
                }
                proof {
                    assert(pts@ =~= trimmed(all, geometry.widths.height_legend as nat));
                }
                Ok(Graph { geometry, pts, options })
            },
        }
    }

    /// Samples `f` at every step from 0 to `width` and lays out its plot, as tall as the
    /// tallest sample asks for.  Nothing is sampled where the plot cannot be laid out
    /// whatever the samples are.
    pub fn with_options<F: Fn(u32) -> i64>(
        f: F,
        width: u32,
        set_height: Option<u32>,
        options: GraphOptions,
    ) -> (r: Result<Graph, GraphError>)
        requires
            forall|x: u32| x <= width ==> call_requires(f, (x,)),
        ensures
            match early_error(width, set_height) {
                Some(e) => r == Err::<Graph, GraphError>(e),
                None => exists|ys: Seq<i64>|
                    samples_of(f, 0, width, ys) && #[trigger] Graph::built(
                        r,
                        ys,
                        max_value_of(ys),
                        width,
                        set_height,
                        options,
                    ),
            },
            r matches Ok(graph) ==> graph.geometry().wf() && graph.geometry().widths.total == width
                && graph.geometry().widths.graph + graph.geometry().widths.height_legend == width
                && graph.geometry().widths.graph < width,
    {
        if let Some(h) = set_height {
            if h == 0 {
                return Err(GraphError::ZeroHeight);
            }
        }
        if width > MAX_CELLS {
            return Err(GraphError::CanvasTooLarge);
        }
        let function = Function::new(f);
        let samples = function.rng(0, width);
        let max = max_value(&samples);
        let ghost ys = samples@;
        let r = Graph::with_samples(samples, max, width, set_height, options);
        proof {
            assert(samples_of(f, 0, width, ys));
            assert(Graph::built(r, ys, max_value_of(ys), width, set_height, options));
        }
        r
    }

    /// The plot of `f` with the standard options.
    pub fn new<F: Fn(u32) -> i64>(f: F, width: u32, set_height: Option<u32>) -> (r: Result<
        Graph,
        GraphError,
    >)
        requires
            forall|x: u32| x <= width ==> call_requires(f, (x,)),
        ensures
            match early_error(width, set_height) {
                Some(e) => r == Err::<Graph, GraphError>(e),
                None => exists|ys: Seq<i64>|
                    samples_of(f, 0, width, ys) && #[trigger] Graph::built(
                        r,
                        ys,
                        max_value_of(ys),
                        width,
                        set_height,
                        GraphOptions::standard(),
                    ),
            },
            r matches Ok(graph) ==> graph.geometry().wf() && graph.geometry().widths.total == width
                && graph.geometry().widths.graph + graph.geometry().widths.height_legend == width
                && graph.geometry().widths.graph < width,
    {
        Graph::with_options(f, width, set_height, GraphOptions::default())
    }

    /// The columns of the plot.
    pub fn widths(&self) -> (w: GraphWidths)
        ensures
            w == self.geometry().widths,
    {
        self.geometry.widths
    }

    /// The rows of the canvas.
    pub fn height(&self) -> (h: u32)
        ensures
            h == self.geometry().height,
    {
        self.geometry.height
    }

    /// The row of the horizontal axis, which is the number of rows above it.
    pub fn graph_height(&self) -> (h: u32)
        ensures
            h == self.geometry().graph_height,
    {
        self.geometry.graph_height
    }

    /// The samples that are plotted, by step.
    pub fn pts(&self) -> (p: &Vec<i64>)
        ensures
            p@ == self.points(),
    {
        &self.pts
    }

    /// Draws the plot on a fresh screen.
    pub fn draw(&self) -> (scr: Screen)
        ensures
            canvas(scr) == self.picture(),
            self.geometry().wf(),
    {
        proof {
            use_type_invariant(self);
        }
        let mut scr = new_screen(self.geometry.widths.total, self.geometry.height);
        self.geometry.draw_axis(&mut scr);
        if self.options.height_legend {
            self.geometry.draw_height_legend(&mut scr);
        }
        self.geometry.draw_points(&mut scr, &self.pts, self.pts.len(), &self.options);
        scr
    }
}

} // verus!
