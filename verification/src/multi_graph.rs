//! Several series on one canvas, each in a style of its own.

use console_engine::screen::Screen;
use vstd::prelude::*;

use crate::canvas::{canvas, fits_screen, new_screen, Canvas, Cell, MAX_CELLS};
use crate::function::Function;
use crate::geometry::{
    early_error, lemma_flat_series, max_value, max_value_of, Geometry, GraphError,
};
use crate::graph::{trimmed, GraphOptions, GraphWidths};
use crate::types::{Character, Color, ColorWrapper};

verus! {

/// The number of styles in the registry.
pub const REGISTRY_LEN: usize = 12;

/// The colours of the registry, in their order.
pub open spec fn registry_colors() -> Seq<Color> {
    seq![
        Color::Red,
        Color::Blue,
        Color::Green,
        Color::Magenta,
        Color::Cyan,
        Color::Yellow,
        Color::DarkRed,
        Color::DarkBlue,
        Color::DarkGreen,
        Color::DarkMagenta,
        Color::DarkCyan,
        Color::DarkYellow,
    ]
}

/// The registry: twelve styles that differ in their colour, with the standard character and
/// legend.
pub open spec fn registry() -> Seq<GraphOptions> {
    Seq::new(
        12,
        |i: int| GraphOptions { color: ColorWrapper(registry_colors()[i]), ..GraphOptions::standard() },
    )
}

/// The style of the registry at `i`, for `i` below twelve.
pub fn registry_style(i: usize) -> (o: GraphOptions)
    requires
        i < REGISTRY_LEN,
    ensures
        o == registry()[i as int],
{
    let color = if i == 0 {
        Color::Red
    } else if i == 1 {
        Color::Blue
    } else if i == 2 {
        Color::Green
    } else if i == 3 {
        Color::Magenta
    } else if i == 4 {
        Color::Cyan
    } else if i == 5 {
        Color::Yellow
    } else if i == 6 {
        Color::DarkRed
    } else if i == 7 {
        Color::DarkBlue
    } else if i == 8 {
        Color::DarkGreen
    } else if i == 9 {
        Color::DarkMagenta
    } else if i == 10 {
        Color::DarkCyan
    } else {
        Color::DarkYellow
    };
    GraphOptions { color: ColorWrapper(color), character: Character::Star, height_legend: true }
}

/// The styles of the series of a plot, by their position.
#[derive(Clone, Debug)]
pub struct MultiGraphOptions(pub Vec<GraphOptions>);

impl MultiGraphOptions {
    /// The style of the series at position `i`: the one given for it, or, where none is
    /// given, the style of the registry at `i` modulo twelve.
    pub open spec fn style_of(styles: Seq<GraphOptions>, i: nat) -> GraphOptions {
        if i < styles.len() {
            styles[i as int]
        } else {
            registry()[(i % 12) as int]
        }
    }

    /// Whether the canvas has a legend: the first series decides for all.
    pub open spec fn shows_legend(styles: Seq<GraphOptions>) -> bool {
        MultiGraphOptions::style_of(styles, 0).height_legend
    }

    /// The style of the series at position `i`.
    pub fn style_for(&self, i: usize) -> (o: GraphOptions)
        ensures
            o == MultiGraphOptions::style_of(self.0@, i as nat),
    {
        if i < self.0.len() {
            self.0[i]
        } else {
            registry_style(i % REGISTRY_LEN)
        }
    }

    /// Where no style is given, or the registry itself, the series at position `i` has the
    /// style of the registry at `i` modulo twelve, however many series there are.
    pub proof fn lemma_round_robin(i: nat)
        ensures
            MultiGraphOptions::style_of(Seq::empty(), i) == registry()[(i % 12) as int],
            MultiGraphOptions::style_of(registry(), i) == registry()[(i % 12) as int],
    {
    }
}

impl Default for MultiGraphOptions {
    /// The registry.
    fn default() -> (o: MultiGraphOptions)
        ensures
            o.0@ == registry(),
    {
        let mut styles: Vec<GraphOptions> = Vec::new();
        let mut i: usize = 0;
        while i < REGISTRY_LEN
            invariant
                i <= REGISTRY_LEN,
                styles.len() == i,
                forall|k: int| 0 <= k < i ==> styles[k] == registry()[k],
            decreases REGISTRY_LEN - i,
        {
            styles.push(registry_style(i));
            i = i + 1;
        }
        proof {
            assert(styles@ =~= registry());
        }
        MultiGraphOptions(styles)
    }
}

/// The samples of each series, by position and step.
pub open spec fn rows(series: Seq<Vec<i64>>) -> Seq<Seq<i64>> {
    series.map_values(|ys: Vec<i64>| ys@)
}

/// The height that contains every series: the largest of the heights that contain each,
/// and zero where there is no series.
pub open spec fn tallest(series: Seq<Seq<i64>>) -> u32
    decreases series.len(),
{
    if series.len() == 0 {
        0
    } else {
        let rest = tallest(series.drop_last());
        let last = max_value_of(series.last());
        if last > rest {
            last
        } else {
            rest
        }
    }
}

/// The height that contains every series is the height that contains one of them, and no
/// series needs more.
pub proof fn lemma_tallest_is_least_bound(series: Seq<Seq<i64>>)
    ensures
        forall|i: int| 0 <= i < series.len() ==> max_value_of(series[i]) <= tallest(series),
        series.len() == 0 ==> tallest(series) == 0,
        series.len() > 0 ==> exists|i: int|
            0 <= i < series.len() && max_value_of(series[i]) == tallest(series),
    decreases series.len(),
{
    if series.len() > 0 {
        let rest = series.drop_last();
        lemma_tallest_is_least_bound(rest);
        assert forall|i: int| 0 <= i < series.len() implies max_value_of(series[i]) <= tallest(
            series,
        ) by {
            if i < rest.len() {
                assert(rest[i] == series[i]);
            }
        }
        if max_value_of(series.last()) > tallest(rest) || rest.len() == 0 {
            assert(max_value_of(series[series.len() - 1]) == tallest(series));
        } else {
            let i = choose|i: int| 0 <= i < rest.len() && max_value_of(rest[i]) == tallest(rest);
            assert(series[i] == rest[i]);
            assert(max_value_of(series[i]) == tallest(series));
        }
    }
}

/// The height that contains every series.
pub fn max_value_all(series: &Vec<Vec<i64>>) -> (m: u32)
    ensures
        m == tallest(rows(series@)),
{
    let mut best: u32 = 0;
    let mut i: usize = 0;
    while i < series.len()
        invariant
            i <= series.len(),
            best == tallest(rows(series@).take(i as int)),
        decreases series.len() - i,
    {
        proof {
            assert(rows(series@).take(i + 1).drop_last() =~= rows(series@).take(i as int));
        }
        let m = max_value(&series[i]);
        if m > best {
            best = m;
        }
        i = i + 1;
    }
    proof {
        assert(rows(series@).take(i as int) =~= rows(series@));
    }
    best
}

/// The plot of several series on one canvas.
pub struct MultiGraph {
    series: Vec<Vec<i64>>,
    geometry: Geometry,
    options: MultiGraphOptions,
}

impl MultiGraph {
    #[verifier::type_invariant]
    spec fn inv(self) -> bool {
        self.geometry.wf()
    }

    /// The size of the plot.
    pub closed spec fn geometry(self) -> Geometry {
        self.geometry
    }

    /// The samples of each series, by position and step.
    pub closed spec fn series(self) -> Seq<Seq<i64>> {
        rows(self.series@)
    }

    /// The styles that were given, by position.
    pub closed spec fn styles(self) -> Seq<GraphOptions> {
        self.options.0@
    }

    /// The number of samples of a series that are plotted: those at the steps from 0 to the
    /// width of the plot.
    pub open spec fn shown(g: Geometry, ys: Seq<i64>) -> nat {
        if ys.len() <= g.widths.graph + 1 {
            ys.len()
        } else {
            (g.widths.graph + 1) as nat
        }
    }

    /// The canvas with the first `upto` series plotted over it, each in its style, in their
    /// order.
    pub open spec fn overlay(
        g: Geometry,
        c: Canvas,
        series: Seq<Seq<i64>>,
        styles: Seq<GraphOptions>,
        upto: nat,
    ) -> Canvas
        decreases upto,
    {
        if upto == 0 {
            c
        } else {
            let i = (upto - 1) as nat;
            g.plot(
                MultiGraph::overlay(g, c, series, styles, i),
                series[i as int],
                MultiGraph::shown(g, series[i as int]),
                MultiGraphOptions::style_of(styles, i).cell(),
            )
        }
    }

    /// Whether `r` is what laying out a plot of `series` gives: an error where there is no
    /// series, else the error of the geometry, else a plot of that geometry which holds the
    /// series and the styles.
    pub open spec fn built(
        r: Result<MultiGraph, GraphError>,
        series: Seq<Seq<i64>>,
        max_value: u32,
        width: u32,
        set_height: Option<u32>,
        styles: Seq<GraphOptions>,
    ) -> bool {
        if series.len() == 0 {
            r == Err::<MultiGraph, GraphError>(GraphError::NoFunctions)
        } else {
            match Geometry::derive_spec(width, set_height, max_value) {
                Err(e) => r == Err::<MultiGraph, GraphError>(e),
                Ok(g) => r matches Ok(graph) && graph.geometry() == g && graph.series() == series
                    && graph.styles() == styles,
            }
        }
    }

    /// Whether `series` holds, for each function in its order, a sampling of it at every
    /// step from 0 to `width`.
    pub open spec fn sampled_all<F: Fn(u32) -> i64>(
        fs: Seq<Function<F>>,
        width: u32,
        series: Seq<Seq<i64>>,
    ) -> bool {
        &&& series.len() == fs.len()
        &&& forall|i: int| 0 <= i < fs.len() ==> (#[trigger] fs[i]).sampled(0, width, series[i])
    }

    /// What the plot looks like: the series, in their order, over the backdrop.
    pub open spec fn picture(self) -> Canvas {
        let g = self.geometry();
        MultiGraph::overlay(
            g,
            g.backdrop(MultiGraphOptions::shows_legend(self.styles())),
            self.series(),
            self.styles(),
            self.series().len(),
        )
    }

    /// The last of the first `upto` series that has a point at column `x`, row `y`, if any
    /// has.
    pub open spec fn top_series(g: Geometry, series: Seq<Seq<i64>>, upto: nat, x: int, y: int) -> Option<
        nat,
    >
        decreases upto,
    {
        if upto == 0 {
            None
        } else {
            let i = (upto - 1) as nat;
            if g.marks(series[i as int], MultiGraph::shown(g, series[i as int]), x, y) {
                Some(i)
            } else {
                MultiGraph::top_series(g, series, i, x, y)
            }
        }
    }

    /// What the plot shows at column `x`, row `y`: a point of the last series that has one
    /// there, in the style of that series, else what the backdrop shows there.
    pub open spec fn cell_at(self, x: int, y: int) -> Cell {
        let g = self.geometry();
        match MultiGraph::top_series(g, self.series(), self.series().len(), x, y) {
            Some(i) => MultiGraphOptions::style_of(self.styles(), i).cell(),
            None => g.backdrop_cell(MultiGraphOptions::shows_legend(self.styles()), x, y),
        }
    }

    /// The top series at a position has a point there, no later series has, and where there
    /// is no top series, no series has.
    pub proof fn lemma_top_series(g: Geometry, series: Seq<Seq<i64>>, upto: nat, x: int, y: int)
        ensures
            match MultiGraph::top_series(g, series, upto, x, y) {
                Some(i) => i < upto && g.marks(series[i as int], MultiGraph::shown(g, series[i as int]), x, y)
                    && forall|j: int|
                    i < j < upto ==> !g.marks(#[trigger] series[j], MultiGraph::shown(g, series[j]), x, y),
                None => forall|j: int|
                    0 <= j < upto ==> !g.marks(#[trigger] series[j], MultiGraph::shown(g, series[j]), x, y),
            },
        decreases upto,
    {
        if upto > 0 {
            MultiGraph::lemma_top_series(g, series, (upto - 1) as nat, x, y);
        }
    }

    /// Plotting the series changes the cells that one of them has a point at, to the style
    /// of the last such series, and nothing else.
    pub proof fn lemma_overlay_cell(
        g: Geometry,
        c: Canvas,
        series: Seq<Seq<i64>>,
        styles: Seq<GraphOptions>,
        upto: nat,
        x: int,
        y: int,
    )
        requires
            c.wf(),
        ensures
            MultiGraph::overlay(g, c, series, styles, upto).wf(),
            MultiGraph::overlay(g, c, series, styles, upto).width == c.width,
            MultiGraph::overlay(g, c, series, styles, upto).height == c.height,
            MultiGraph::overlay(g, c, series, styles, upto).at(x, y) == if c.contains(x, y)
                && MultiGraph::top_series(g, series, upto, x, y) is Some {
                MultiGraphOptions::style_of(
                    styles,
                    MultiGraph::top_series(g, series, upto, x, y)->0,
                ).cell()
            } else {
                c.at(x, y)
            },
        decreases upto,
    {
        if upto > 0 {
            let i = (upto - 1) as nat;
            MultiGraph::lemma_overlay_cell(g, c, series, styles, i, x, y);
            g.lemma_plot_cell(
                MultiGraph::overlay(g, c, series, styles, i),
                series[i as int],
                MultiGraph::shown(g, series[i as int]),
                MultiGraphOptions::style_of(styles, i).cell(),
                x,
                y,
            );
        }
    }

    /// The picture has the size of the geometry and shows, at each of its positions, what
    /// `cell_at` says.
    pub proof fn lemma_picture(self, x: int, y: int)
        requires
            self.geometry().wf(),
        ensures
            self.picture().wf(),
            self.picture().width == self.geometry().widths.total,
            self.picture().height == self.geometry().height,
            self.picture().contains(x, y) ==> self.picture().at(x, y) == self.cell_at(x, y),
    {
        let g = self.geometry();
        let with_legend = MultiGraphOptions::shows_legend(self.styles());
        g.lemma_backdrop_cell(with_legend, x, y);
        MultiGraph::lemma_overlay_cell(
            g,
            g.backdrop(with_legend),
            self.series(),
            self.styles(),
            self.series().len(),
            x,
            y,
        );
    }

    /// A plot of at least one series that can be laid out is: what `built` describes is then
    /// a plot, not an error, whose columns of plot and legend add up to the width and whose
    /// legend is as wide as the tallest sample has digits.
    pub proof fn lemma_built_laws(
        r: Result<MultiGraph, GraphError>,
        series: Seq<Seq<i64>>,
        max_value: u32,
        width: u32,
        set_height: Option<u32>,
        styles: Seq<GraphOptions>,
    )
        requires
            MultiGraph::built(r, series, max_value, width, set_height, styles),
        ensures
            r is Ok <==> series.len() > 0 && Geometry::can_lay_out(width, set_height, max_value),
            r matches Ok(graph) ==> Geometry::laid_out(graph.geometry(), width, set_height, max_value)
                && graph.series() == series && graph.styles() == styles,
    {
        Geometry::lemma_derive_laws(width, set_height, max_value);
    }

    /// The plot of series that are all zero at every step, as tall as they ask for: for every
    /// width from two up to what a screen can hold it is laid out, its legend takes one
    /// column, its canvas has one row, and every point lies in that row.
    pub proof fn lemma_built_flat(
        r: Result<MultiGraph, GraphError>,
        series: Seq<Seq<i64>>,
        width: u32,
        styles: Seq<GraphOptions>,
    )
        requires
            MultiGraph::built(r, series, tallest(series), width, None, styles),
            series.len() > 0,
            forall|i: int, k: int|
                0 <= i < series.len() && 0 <= k < series[i].len() ==> (#[trigger] series[i][k]) == 0,
            2 <= width <= MAX_CELLS,
        ensures
            tallest(series) == 0,
            r matches Ok(graph) && graph.geometry().widths.total == width
                && graph.geometry().widths.height_legend == 1 && graph.geometry().widths.graph == width
                - 1 && graph.geometry().height == 1 && graph.geometry().graph_height == 0 && forall|
                i: int,
                k: int,
            |
                0 <= i < graph.series().len() && 0 <= k < graph.series()[i].len()
                    ==> graph.geometry().row_of(#[trigger] graph.series()[i][k]) == 0,
    {
        lemma_tallest_is_least_bound(series);
        let i = choose|i: int| 0 <= i < series.len() && max_value_of(series[i]) == tallest(series);
        lemma_flat_series(series[i], width);
    }

    /// Lays out the plot of series that were each sampled from step 0 on, `max_value` being
    /// the height that contains them all.
    pub fn with_samples(
        series: Vec<Vec<i64>>,
        max_value: u32,
        width: u32,
        set_height: Option<u32>,
        options: MultiGraphOptions,
    ) -> (r: Result<MultiGraph, GraphError>)
        ensures
            MultiGraph::built(r, rows(series@), max_value, width, set_height, options.0@),
            r matches Ok(graph) ==> graph.geometry().wf() && graph.geometry().widths.total == width
                && graph.geometry().widths.graph + graph.geometry().widths.height_legend == width
                && graph.geometry().widths.graph < width,
    {
        if series.len() == 0 {
            return Err(GraphError::NoFunctions);
        }
        match Geometry::derive(width, set_height, max_value) {
            Err(e) => Err(e),
            Ok(geometry) => Ok(MultiGraph { series, geometry, options }),
        }
    }

    /// Samples each function at every step from 0 to `width` and lays out their plot, as
    /// tall as the tallest sample of all asks for.  Nothing is sampled where the plot cannot
    /// be laid out whatever the samples are.
    pub fn with_options<F: Fn(u32) -> i64>(
        fs: Vec<Function<F>>,
        width: u32,
        set_height: Option<u32>,
        options: MultiGraphOptions,
    ) -> (r: Result<MultiGraph, GraphError>)
        requires
            forall|i: int| 0 <= i < fs.len() ==> (#[trigger] fs[i]).accepts_range(0, width),
        ensures
            fs.len() == 0 ==> r == Err::<MultiGraph, GraphError>(GraphError::NoFunctions),
            fs.len() > 0 ==> match early_error(width, set_height) {
                Some(e) => r == Err::<MultiGraph, GraphError>(e),
                None => exists|series: Seq<Seq<i64>>|
                    MultiGraph::sampled_all(fs@, width, series) && #[trigger] MultiGraph::built(
                        r,
                        series,
                        tallest(series),
                        width,
                        set_height,
                        options.0@,
                    ),
            },
            r matches Ok(graph) ==> graph.geometry().wf() && graph.geometry().widths.total == width
                && graph.geometry().widths.graph + graph.geometry().widths.height_legend == width
                && graph.geometry().widths.graph < width,
    {
        if fs.len() == 0 {
            return Err(GraphError::NoFunctions);
        }
        if let Some(h) = set_height {
            if h == 0 {
                return Err(GraphError::ZeroHeight);
            }
        }
        if width > MAX_CELLS {
            return Err(GraphError::CanvasTooLarge);
        }
        let mut series: Vec<Vec<i64>> = Vec::new();
        let mut i: usize = 0;
        while i < fs.len()
            invariant
                i <= fs.len(),
                series.len() == i,
                forall|j: int| 0 <= j < fs.len() ==> (#[trigger] fs[j]).accepts_range(0, width),
                forall|j: int| 0 <= j < i ==> (#[trigger] fs[j]).sampled(0, width, series[j]@),
            decreases fs.len() - i,
        {
            let ys = fs[i].rng(0, width);
            series.push(ys);
            i = i + 1;
        }
        let max = max_value_all(&series);
        let ghost all = rows(series@);
        let r = MultiGraph::with_samples(series, max, width, set_height, options);
        proof {
            assert(MultiGraph::sampled_all(fs@, width, all));
            assert(MultiGraph::built(r, all, tallest(all), width, set_height, options.0@));
        }
        r
    }

    /// The plot of the functions with the registry for their styles.
    pub fn new<F: Fn(u32) -> i64>(fs: Vec<Function<F>>, width: u32, set_height: Option<u32>) -> (r:
        Result<MultiGraph, GraphError>)
        requires
            forall|i: int| 0 <= i < fs.len() ==> (#[trigger] fs[i]).accepts_range(0, width),
        ensures
            fs.len() == 0 ==> r == Err::<MultiGraph, GraphError>(GraphError::NoFunctions),
            fs.len() > 0 ==> match early_error(width, set_height) {
                Some(e) => r == Err::<MultiGraph, GraphError>(e),
                None => exists|series: Seq<Seq<i64>>|
                    MultiGraph::sampled_all(fs@, width, series) && #[trigger] MultiGraph::built(
                        r,
                        series,
                        tallest(series),
                        width,
                        set_height,
                        registry(),
                    ),
            },
            r matches Ok(graph) ==> graph.geometry().wf() && graph.geometry().widths.total == width
                && graph.geometry().widths.graph + graph.geometry().widths.height_legend == width
                && graph.geometry().widths.graph < width,
    {
        MultiGraph::with_options(fs, width, set_height, MultiGraphOptions::default())
    }

    /// The columns of the plot.
    pub fn widths(&self) -> (w: GraphWidths)
        ensures
            w == self.geometry().widths,
    {
        self.geometry.widths
    }

    /// The rows of the canvas.
    pub fn height(&self) -> (h: u32)
        ensures
            h == self.geometry().height,
    {
        self.geometry.height
    }

    /// The row of the horizontal axis, which is the number of rows above it.
    pub fn graph_height(&self) -> (h: u32)
        ensures
            h == self.geometry().graph_height,
    {
        self.geometry.graph_height
    }

    /// For a series sampled at every step from 0 to the width, the samples that are left
    /// when as many are dropped from its tail as the legend has columns are the samples at
    /// the steps from 0 to the width of the plot: a series is plotted alike alone and among
    /// others.
    pub proof fn lemma_trimmed_is_shown(g: Geometry, ys: Seq<i64>)
        requires
            g.wf(),
            ys.len() == g.widths.total + 1,
        ensures
            trimmed(ys, g.widths.height_legend as nat) == ys.take(MultiGraph::shown(g, ys) as int),
    {
    }

    /// Plots the series over what the screen shows, each in its style, in their order.
    fn draw_functions(&self, scr: &mut Screen)
        requires
            fits_screen(canvas(*old(scr))),
        ensures
            canvas(*final(scr)) == MultiGraph::overlay(
                self.geometry(),
                canvas(*old(scr)),
                self.series(),
                self.styles(),
                self.series().len(),
            ),
    {
        let mut i: usize = 0;
        while i < self.series.len()
            invariant
                i <= self.series.len(),
                fits_screen(canvas(*scr)),
                canvas(*scr) == MultiGraph::overlay(
                    self.geometry(),
                    canvas(*old(scr)),
                    self.series(),
                    self.styles(),
                    i as nat,
                ),
            decreases self.series.len() - i,
        {
            let ys = &self.series[i];
            let style = self.options.style_for(i);
            let upto: usize = if ys.len() as u64 <= self.geometry.widths.graph as u64 + 1 {
                ys.len()
            } else {
                (self.geometry.widths.graph as u64 + 1) as usize
            };
            self.geometry.draw_points(scr, ys, upto, &style);
            i = i + 1;
        }
    }

    /// Draws the plot on a fresh screen.
    pub fn draw(&self) -> (scr: Screen)
        ensures
            canvas(scr) == self.picture(),
            self.geometry().wf(),
    {
        proof {
            use_type_invariant(self);
        }
        let mut scr = new_screen(self.geometry.widths.total, self.geometry.height);
        self.geometry.draw_axis(&mut scr);
        if self.options.style_for(0).height_legend {
            self.geometry.draw_height_legend(&mut scr);
        }
        self.draw_functions(&mut scr);
        scr
    }
}

} // verus!
