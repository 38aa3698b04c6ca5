use console_engine::screen::Screen;
use tgraph::{
    Character, Color, ColorWrapper, Function, GraphError, GraphOptions, GraphWidths, MultiGraph,
    MultiGraphOptions,
};

fn single(x: u32) -> i64 {
    x as i64
}

fn double(x: u32) -> i64 {
    2 * x as i64
}

fn flat(_x: u32) -> i64 {
    3
}

fn cell(scr: &Screen, x: i32, y: i32) -> (char, console_engine::Color) {
    let p = scr.get_pxl(x, y).unwrap();
    (p.chr, p.fg)
}

const STAR: char = '\u{2055}';

#[test]
fn registry_has_twelve_colours_in_order() {
    let styles = MultiGraphOptions::default().0;
    let colors = [
        Color::Red,
        Color::Blue,
        Color::Green,
        Color::Magenta,
        Color::Cyan,
        Color::Yellow,
        Color::DarkRed,
        Color::DarkBlue,
        Color::DarkGreen,
        Color::DarkMagenta,
        Color::DarkCyan,
        Color::DarkYellow,
    ];
    assert_eq!(styles.len(), 12);
    for i in 0..12 {
        assert_eq!(styles[i].color, ColorWrapper(colors[i]));
        assert_eq!(styles[i].character, Character::Star);
        assert!(styles[i].height_legend);
    }
}

#[test]
fn styles_go_round_the_registry() {
    let options = MultiGraphOptions::default();
    let registry = MultiGraphOptions::default().0;
    for i in 0..50usize {
        assert_eq!(options.style_for(i), registry[i % 12]);
    }
    assert_eq!(options.style_for(12).color, ColorWrapper(Color::Red));
    assert_eq!(options.style_for(25).color, ColorWrapper(Color::Blue));
    assert_eq!(options.style_for(usize::MAX), registry[usize::MAX % 12]);
}

#[test]
fn missing_styles_fall_back_to_the_registry() {
    let own = GraphOptions {
        color: ColorWrapper(Color::White),
        character: Character::Times,
        height_legend: false,
    };
    let options = MultiGraphOptions(vec![own]);
    let registry = MultiGraphOptions::default().0;
    assert_eq!(options.style_for(0), own);
    assert_eq!(options.style_for(1), registry[1]);
    assert_eq!(options.style_for(13), registry[1]);
    let empty = MultiGraphOptions(vec![]);
    assert_eq!(empty.style_for(0), registry[0]);
    assert_eq!(empty.style_for(14), registry[2]);
}

#[test]
fn two_series_share_one_geometry() {
    let fs = vec![Function::new(single as fn(u32) -> i64), Function::new(double as fn(u32) -> i64)];
    let g = MultiGraph::new(fs, 5, None).unwrap();
    assert_eq!(g.widths(), GraphWidths { total: 5, graph: 3, height_legend: 2 });
    assert_eq!(g.height(), 11);
    assert_eq!(g.graph_height(), 10);
}

#[test]
fn two_series_are_drawn_in_their_styles() {
    let fs = vec![Function::new(single as fn(u32) -> i64), Function::new(double as fn(u32) -> i64)];
    let scr = MultiGraph::new(fs, 5, None).unwrap().draw();
    assert_eq!(scr.get_width(), 5);
    assert_eq!(scr.get_height(), 11);
    // At step 0 both are zero: the later series is on top.
    assert_eq!(cell(&scr, 2, 10), (STAR, console_engine::Color::Blue));
    assert_eq!(cell(&scr, 3, 9), (STAR, console_engine::Color::Red));
    assert_eq!(cell(&scr, 3, 8), (STAR, console_engine::Color::Blue));
    assert_eq!(cell(&scr, 4, 8), (STAR, console_engine::Color::Red));
    assert_eq!(cell(&scr, 4, 6), (STAR, console_engine::Color::Blue));
    assert_eq!(cell(&scr, 4, 7), (' ', console_engine::Color::Reset));
    assert_eq!(cell(&scr, 0, 0), ('1', console_engine::Color::Reset));
    assert_eq!(cell(&scr, 1, 0), ('0', console_engine::Color::Reset));
    assert_eq!(cell(&scr, 2, 0), ('|', console_engine::Color::Reset));
    assert_eq!(cell(&scr, 3, 10), ('_', console_engine::Color::Reset));
    assert_eq!(cell(&scr, 4, 10), ('_', console_engine::Color::Reset));
}

#[test]
fn the_doubled_series_lies_at_or_above_the_single_one() {
    let fs = vec![Function::new(single as fn(u32) -> i64), Function::new(double as fn(u32) -> i64)];
    let scr = MultiGraph::new(fs, 5, None).unwrap().draw();
    for x in 2..5 {
        let mut red: Option<i32> = None;
        let mut blue: Option<i32> = None;
        for y in 0..11 {
            match cell(&scr, x, y) {
                (STAR, console_engine::Color::Red) => red = Some(y),
                (STAR, console_engine::Color::Blue) => blue = Some(y),
                _ => {}
            }
        }
        let blue = blue.unwrap();
        assert!(blue <= red.unwrap_or(blue), "column {}", x);
    }
}

#[test]
fn later_series_overwrite_earlier_ones() {
    let fs = vec![
        Function::new(flat as fn(u32) -> i64),
        Function::new(single as fn(u32) -> i64),
        Function::new(flat as fn(u32) -> i64),
    ];
    let scr = MultiGraph::new(fs, 8, None).unwrap().draw();
    // Samples reach 8: one column of legend, the axis in row 8.
    assert_eq!(scr.get_height(), 9);
    for x in 1..8 {
        assert_eq!(cell(&scr, x, 5), (STAR, console_engine::Color::Green));
    }
    assert_eq!(cell(&scr, 1, 8), (STAR, console_engine::Color::Blue));
    assert_eq!(cell(&scr, 3, 6), (STAR, console_engine::Color::Blue));
    assert_eq!(cell(&scr, 5, 4), (STAR, console_engine::Color::Blue));
}

#[test]
fn first_style_decides_on_the_legend() {
    let quiet = GraphOptions {
        color: ColorWrapper(Color::Cyan),
        character: Character::Asterisk,
        height_legend: false,
    };
    let fs = vec![Function::new(single as fn(u32) -> i64), Function::new(flat as fn(u32) -> i64)];
    let scr = MultiGraph::with_options(fs, 6, None, MultiGraphOptions(vec![quiet])).unwrap().draw();
    for y in 0..7 {
        assert_eq!(cell(&scr, 0, y), (' ', console_engine::Color::Reset));
    }
    assert_eq!(cell(&scr, 2, 5), ('\u{2217}', console_engine::Color::Cyan));
    assert_eq!(cell(&scr, 2, 3), (STAR, console_engine::Color::Blue));

    let loud = GraphOptions { height_legend: true, ..quiet };
    let fs = vec![Function::new(single as fn(u32) -> i64), Function::new(flat as fn(u32) -> i64)];
    let scr =
        MultiGraph::with_options(fs, 6, None, MultiGraphOptions(vec![loud, quiet])).unwrap().draw();
    assert_eq!(cell(&scr, 0, 0), ('6', console_engine::Color::Reset));
    assert_eq!(cell(&scr, 2, 3), ('\u{2217}', console_engine::Color::Cyan));
}

#[test]
fn thirteenth_series_is_red_again() {
    let mut fs = Vec::new();
    for _ in 0..13 {
        fs.push(Function::new(flat as fn(u32) -> i64));
    }
    let scr = MultiGraph::new(fs, 4, None).unwrap().draw();
    assert_eq!(cell(&scr, 1, 0), (STAR, console_engine::Color::Red));
    let mut fs = Vec::new();
    for _ in 0..12 {
        fs.push(Function::new(flat as fn(u32) -> i64));
    }
    let scr = MultiGraph::new(fs, 4, None).unwrap().draw();
    assert_eq!(cell(&scr, 1, 0), (STAR, console_engine::Color::DarkYellow));
}

#[test]
fn with_samples_plots_the_steps_of_the_plot_only() {
    let series = vec![vec![1; 30], vec![2, 2]];
    let g = MultiGraph::with_samples(series, 2, 6, None, MultiGraphOptions::default()).unwrap();
    assert_eq!(g.widths(), GraphWidths { total: 6, graph: 5, height_legend: 1 });
    let scr = g.draw();
    assert_eq!(scr.get_height(), 3);
    for x in 1..6 {
        assert_eq!(cell(&scr, x, 1), (STAR, console_engine::Color::Red));
    }
    assert_eq!(cell(&scr, 1, 0), (STAR, console_engine::Color::Blue));
    assert_eq!(cell(&scr, 2, 0), (STAR, console_engine::Color::Blue));
    assert_eq!(cell(&scr, 3, 0), (' ', console_engine::Color::Reset));
}

#[test]
fn multi_graph_errors() {
    let none: Vec<Function<fn(u32) -> i64>> = Vec::new();
    assert_eq!(MultiGraph::new(none, 80, None).err(), Some(GraphError::NoFunctions));
    let none: Vec<Function<fn(u32) -> i64>> = Vec::new();
    assert_eq!(MultiGraph::new(none, 80, Some(0)).err(), Some(GraphError::NoFunctions));
    assert_eq!(
        MultiGraph::with_samples(vec![], 0, 80, None, MultiGraphOptions::default()).err(),
        Some(GraphError::NoFunctions)
    );
    let fs = vec![Function::new(single as fn(u32) -> i64)];
    assert_eq!(MultiGraph::new(fs, 80, Some(0)).err(), Some(GraphError::ZeroHeight));
    let fs = vec![Function::new(double as fn(u32) -> i64)];
    assert_eq!(MultiGraph::new(fs, 1, None).err(), Some(GraphError::WidthTooSmall));
    let fs = vec![Function::new(double as fn(u32) -> i64)];
    assert!(MultiGraph::new(fs, 2, None).is_ok());
    let fs = vec![Function::new(single as fn(u32) -> i64)];
    assert_eq!(MultiGraph::new(fs, 60_000, Some(60_000)).err(), Some(GraphError::CanvasTooLarge));
    let fs = vec![Function::new(single as fn(u32) -> i64)];
    assert_eq!(MultiGraph::new(fs, u32::MAX, None).err(), Some(GraphError::CanvasTooLarge));
}

#[test]
fn one_series_is_plotted_alike_alone_and_among_others() {
    fn wave(x: u32) -> i64 {
        ((x as i64 * 7) % 13) - 2
    }
    for width in [2u32, 3, 9, 10, 11, 40] {
        let style = tgraph::GraphOptions::default();
        let alone = tgraph::Graph::with_options(wave, width, None, style).unwrap().draw();
        let fs = vec![Function::new(wave as fn(u32) -> i64)];
        let among =
            MultiGraph::with_options(fs, width, None, MultiGraphOptions(vec![style])).unwrap().draw();
        assert_eq!(alone.get_width(), among.get_width());
        assert_eq!(alone.get_height(), among.get_height());
        for x in 0..alone.get_width() as i32 {
            for y in 0..alone.get_height() as i32 {
                assert!(alone.get_pxl(x, y).unwrap() == among.get_pxl(x, y).unwrap());
            }
        }
    }
}

#[test]
fn shared_legend_is_as_wide_as_the_tallest_sample_of_all() {
    for peak in [0i64, 5, 9, 10, 99, 100, 12_345] {
        let series = vec![vec![1, 0, 0], vec![0, peak, 2], vec![-8, 3, 0]];
        let tallest = if peak < 3 { 3 } else { peak };
        let g = MultiGraph::with_samples(series, tallest as u32, 30, None, MultiGraphOptions::default())
            .unwrap();
        assert_eq!(g.widths().total, 30);
        assert_eq!(g.widths().height_legend as usize, format!("{}", tallest).len());
        assert_eq!(g.widths().graph + g.widths().height_legend, 30);
        assert_eq!(g.graph_height() as i64, tallest);
    }
    let fs = vec![Function::new(single as fn(u32) -> i64), Function::new(double as fn(u32) -> i64)];
    let g = MultiGraph::new(fs, 60, None).unwrap();
    assert_eq!(g.graph_height(), 120);
    assert_eq!(g.widths(), GraphWidths { total: 60, graph: 57, height_legend: 3 });
}

#[test]
fn flat_series_share_one_row() {
    fn zero(_x: u32) -> i64 {
        0
    }
    for width in [2u32, 3, 17] {
        let fs = vec![Function::new(zero as fn(u32) -> i64), Function::new(zero as fn(u32) -> i64)];
        let g = MultiGraph::new(fs, width, None).unwrap();
        assert_eq!(g.widths(), GraphWidths { total: width, graph: width - 1, height_legend: 1 });
        assert_eq!(g.height(), 1);
        assert_eq!(g.graph_height(), 0);
        let scr = g.draw();
        for x in 1..width as i32 {
            assert_eq!(cell(&scr, x, 0), (STAR, console_engine::Color::Blue));
        }
    }
}
