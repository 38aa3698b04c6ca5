use console_engine::screen::Screen;
use tgraph::{Character, Color, ColorWrapper, Graph, GraphError, GraphOptions, GraphWidths};

fn glyph(scr: &Screen, x: i32, y: i32) -> char {
    scr.get_pxl(x, y).unwrap().chr
}

fn star_at(scr: &Screen, x: i32, y: i32) -> bool {
    let p = scr.get_pxl(x, y).unwrap();
    p.chr == '\u{2055}' && p.fg == console_engine::Color::Blue && p.bg == console_engine::Color::Reset
}

fn plain_at(scr: &Screen, x: i32, y: i32, c: char) -> bool {
    let p = scr.get_pxl(x, y).unwrap();
    p.chr == c && p.fg == console_engine::Color::Reset && p.bg == console_engine::Color::Reset
}

#[test]
fn identity_over_width_ten() {
    let g = Graph::new(|x: u32| x as i64, 10, None).unwrap();
    assert_eq!(g.widths(), GraphWidths { total: 10, graph: 8, height_legend: 2 });
    assert_eq!(g.widths().height_legend, 2);
    assert_eq!(g.widths().graph, 8);
    assert_eq!(g.height(), 11);
    assert_eq!(g.graph_height(), 10);
    assert_eq!(g.pts(), &vec![0, 1, 2, 3, 4, 5, 6, 7, 8]);
}

#[test]
fn identity_over_width_ten_is_drawn_as_a_diagonal() {
    let g = Graph::new(|x: u32| x as i64, 10, None).unwrap();
    let scr = g.draw();
    assert_eq!(scr.get_width(), 10);
    assert_eq!(scr.get_height(), 11);
    for k in 0..8 {
        assert!(star_at(&scr, k + 2, 10 - k), "no point at step {}", k);
    }
    // The vertical axis, but for the point that lies on it.
    for y in 0..10 {
        assert!(plain_at(&scr, 2, y, '|'));
    }
    // The horizontal axis, right of the vertical one, up to the last column.
    for x in 3..10 {
        assert!(plain_at(&scr, x, 10, '_'));
    }
    // The legend: ten in the first row, zero on the axis.
    assert!(plain_at(&scr, 0, 0, '1'));
    assert!(plain_at(&scr, 1, 0, '0'));
    assert!(plain_at(&scr, 0, 1, '9'));
    assert!(plain_at(&scr, 1, 1, ' '));
    assert!(plain_at(&scr, 0, 10, '0'));
    assert!(plain_at(&scr, 1, 10, ' '));
    // Nothing elsewhere.
    assert!(plain_at(&scr, 5, 0, ' '));
    assert!(plain_at(&scr, 3, 8, ' '));
    assert!(plain_at(&scr, 9, 9, ' '));
}

#[test]
fn every_cell_of_the_identity_plot() {
    let scr = Graph::new(|x: u32| x as i64, 10, None).unwrap().draw();
    let expected = [
        "10|       ",
        "9 |       ",
        "8 |       ",
        "7 |      *",
        "6 |     * ",
        "5 |    *  ",
        "4 |   *   ",
        "3 |  *    ",
        "2 | *     ",
        "1 |*      ",
        "0 *_______",
    ];
    for (y, line) in expected.iter().enumerate() {
        for (x, c) in line.chars().enumerate() {
            let want = if c == '*' { '\u{2055}' } else { c };
            assert_eq!(glyph(&scr, x as i32, y as i32), want, "at column {}, row {}", x, y);
        }
    }
}

#[test]
fn constant_zero_is_one_row() {
    for width in [2u32, 5, 40] {
        let g = Graph::new(|_x: u32| 0, width, None).unwrap();
        assert_eq!(g.widths().height_legend, 1);
        assert_eq!(g.widths().graph, width - 1);
        assert_eq!(g.height(), 1);
        assert_eq!(g.graph_height(), 0);
        assert!(g.pts().iter().all(|y| g.graph_height() as i64 - *y == 0));
    }
}

#[test]
fn constant_zero_is_drawn_in_row_zero() {
    let scr = Graph::new(|_x: u32| 0, 5, None).unwrap().draw();
    assert_eq!(scr.get_width(), 5);
    assert_eq!(scr.get_height(), 1);
    assert!(plain_at(&scr, 0, 0, '0'));
    for x in 1..5 {
        assert!(star_at(&scr, x, 0));
    }
}

#[test]
fn options_set_glyph_and_colour_and_drop_the_legend() {
    let options = GraphOptions {
        color: ColorWrapper(Color::Rgb { r: 1, g: 2, b: 3 }),
        character: Character::Custom('#'),
        height_legend: false,
    };
    let scr = Graph::with_options(|x: u32| 2 * x as i64, 6, None, options).unwrap().draw();
    // The samples reach 12: two columns of legend, twelve rows above the axis.
    assert_eq!(scr.get_width(), 6);
    assert_eq!(scr.get_height(), 13);
    let p = scr.get_pxl(3, 10).unwrap();
    assert_eq!(p.chr, '#');
    assert_eq!(p.fg, console_engine::Color::Rgb { r: 1, g: 2, b: 3 });
    assert_eq!(p.bg, console_engine::Color::Reset);
    assert_eq!(glyph(&scr, 2, 12), '#');
    assert_eq!(glyph(&scr, 4, 8), '#');
    assert_eq!(glyph(&scr, 5, 6), '#');
    // No legend: the columns left of the axis stay blank.
    for y in 0..13 {
        assert!(plain_at(&scr, 0, y, ' '));
        assert!(plain_at(&scr, 1, y, ' '));
    }
    assert!(plain_at(&scr, 2, 0, '|'));
}

#[test]
fn every_colour_reaches_the_screen() {
    let pairs = [
        (Color::Reset, console_engine::Color::Reset),
        (Color::Black, console_engine::Color::Black),
        (Color::DarkGrey, console_engine::Color::DarkGrey),
        (Color::Red, console_engine::Color::Red),
        (Color::DarkRed, console_engine::Color::DarkRed),
        (Color::Green, console_engine::Color::Green),
        (Color::DarkGreen, console_engine::Color::DarkGreen),
        (Color::Yellow, console_engine::Color::Yellow),
        (Color::DarkYellow, console_engine::Color::DarkYellow),
        (Color::Blue, console_engine::Color::Blue),
        (Color::DarkBlue, console_engine::Color::DarkBlue),
        (Color::Magenta, console_engine::Color::Magenta),
        (Color::DarkMagenta, console_engine::Color::DarkMagenta),
        (Color::Cyan, console_engine::Color::Cyan),
        (Color::DarkCyan, console_engine::Color::DarkCyan),
        (Color::White, console_engine::Color::White),
        (Color::Grey, console_engine::Color::Grey),
        (Color::Rgb { r: 9, g: 80, b: 255 }, console_engine::Color::Rgb { r: 9, g: 80, b: 255 }),
        (Color::AnsiValue(201), console_engine::Color::AnsiValue(201)),
    ];
    for (ours, theirs) in pairs {
        let options =
            GraphOptions { color: ColorWrapper(ours), character: Character::Bullet, height_legend: true };
        let scr = Graph::with_options(|_x: u32| 1, 4, None, options).unwrap().draw();
        let p = scr.get_pxl(2, 0).unwrap();
        assert_eq!(p.chr, '\u{2022}');
        assert_eq!(p.fg, theirs);
    }
}

#[test]
fn fixed_height_clips_what_lies_above() {
    let g = Graph::new(|x: u32| x as i64, 10, Some(5)).unwrap();
    assert_eq!(g.widths(), GraphWidths { total: 10, graph: 8, height_legend: 2 });
    assert_eq!(g.height(), 5);
    assert_eq!(g.graph_height(), 4);
    let scr = g.draw();
    assert_eq!(scr.get_height(), 5);
    for k in 0..5 {
        assert!(star_at(&scr, k + 2, 4 - k));
    }
    // The samples above the canvas leave no trace.
    for x in 7..10 {
        for y in 0..4 {
            assert!(plain_at(&scr, x, y, ' '));
        }
    }
    assert!(plain_at(&scr, 0, 0, '4'));
}

#[test]
fn negative_samples_lie_below_the_canvas() {
    let g = Graph::new(|x: u32| 3 - 2 * x as i64, 6, None).unwrap();
    assert_eq!(g.widths().height_legend, 1);
    assert_eq!(g.height(), 4);
    let scr = g.draw();
    assert!(star_at(&scr, 1, 0));
    assert!(star_at(&scr, 2, 2));
    // Steps 2 and up are negative: their columns show the axis only.
    for x in 3..6 {
        for y in 0..3 {
            assert!(plain_at(&scr, x, y, ' '));
        }
        assert!(plain_at(&scr, x, 3, '_'));
    }
}

#[test]
fn all_negative_samples_give_the_smallest_canvas() {
    let g = Graph::new(|_x: u32| -7, 3, None).unwrap();
    assert_eq!(g.widths(), GraphWidths { total: 3, graph: 2, height_legend: 1 });
    assert_eq!(g.height(), 1);
    let scr = g.draw();
    assert!(plain_at(&scr, 0, 0, '0'));
    assert!(plain_at(&scr, 1, 0, '|'));
    assert!(plain_at(&scr, 2, 0, '_'));
}

#[test]
fn with_samples_drops_the_tail_that_the_legend_displaces() {
    let g = Graph::with_samples(vec![5, 6, 7, 8, 9], 123, 20, None, GraphOptions::default()).unwrap();
    assert_eq!(g.widths(), GraphWidths { total: 20, graph: 17, height_legend: 3 });
    assert_eq!(g.height(), 124);
    assert_eq!(g.pts(), &vec![5, 6]);
    let few = Graph::with_samples(vec![5, 6], 123, 20, None, GraphOptions::default()).unwrap();
    assert!(few.pts().is_empty());
    let exact = Graph::with_samples(vec![5, 6, 7], 123, 20, None, GraphOptions::default()).unwrap();
    assert!(exact.pts().is_empty());
    let none = Graph::with_samples(vec![], 0, 20, None, GraphOptions::default()).unwrap();
    assert!(none.pts().is_empty());
    assert_eq!(none.height(), 1);
}

#[test]
fn with_samples_takes_the_maximum_as_given() {
    // A maximum above the samples, as rounding up gives it.
    let g = Graph::with_samples(vec![0, 9, 4, 0], 10, 12, None, GraphOptions::default()).unwrap();
    assert_eq!(g.widths(), GraphWidths { total: 12, graph: 10, height_legend: 2 });
    assert_eq!(g.graph_height(), 10);
    let scr = g.draw();
    assert!(star_at(&scr, 2, 10));
    assert!(star_at(&scr, 3, 1));
}

#[test]
fn graph_errors() {
    assert_eq!(Graph::new(|x: u32| x as i64, 10, Some(0)).err(), Some(GraphError::ZeroHeight));
    assert_eq!(Graph::new(|x: u32| x as i64, 1, None).err(), Some(GraphError::WidthTooSmall));
    assert_eq!(Graph::new(|x: u32| 100 * x as i64, 3, None).err(), Some(GraphError::WidthTooSmall));
    assert_eq!(Graph::new(|_x: u32| 0, 0, None).err(), Some(GraphError::WidthTooSmall));
    assert_eq!(
        Graph::new(|x: u32| 1_000_000_000 * x as i64, 9, None).err(),
        Some(GraphError::WidthTooSmall)
    );
    assert_eq!(
        Graph::new(|x: u32| 1_000_000_000 * x as i64, 80, None).err(),
        Some(GraphError::CanvasTooLarge)
    );
    assert_eq!(
        Graph::with_samples(vec![], 0, 70_000, Some(70_000), GraphOptions::default()).err(),
        Some(GraphError::CanvasTooLarge)
    );
}

#[test]
fn nothing_is_sampled_for_a_canvas_that_cannot_be() {
    let r = Graph::new(|_x: u32| -> i64 { panic!("sampled") }, u32::MAX, None);
    assert_eq!(r.err(), Some(GraphError::CanvasTooLarge));
    let r = Graph::new(|_x: u32| -> i64 { panic!("sampled") }, 10, Some(0));
    assert_eq!(r.err(), Some(GraphError::ZeroHeight));
}

#[test]
fn samples_that_are_not_negative_lie_on_the_canvas() {
    let f = |x: u32| ((x as i64 * 37) % 101) - 20;
    let g = Graph::new(f, 60, None).unwrap();
    let height = g.height() as i64;
    let axis = g.graph_height() as i64;
    let mut seen = 0;
    for y in g.pts() {
        if *y >= 0 {
            assert!(0 <= axis - *y && axis - *y < height);
            seen += 1;
        }
    }
    assert!(seen > 0);
    // Each such point is on the screen, in its column.
    let scr = g.draw();
    let legend = g.widths().height_legend as i32;
    for (k, y) in g.pts().iter().enumerate() {
        if *y >= 0 && (k as i32 + legend) < scr.get_width() as i32 {
            assert!(star_at(&scr, k as i32 + legend, (axis - *y) as i32));
        }
    }
}

#[test]
fn a_larger_value_is_plotted_higher() {
    let scr = Graph::with_samples(vec![1, 4, 4, 9], 9, 8, None, GraphOptions::default()).unwrap().draw();
    // One column of legend; the last sample falls to it.
    assert!(star_at(&scr, 1, 8));
    assert!(star_at(&scr, 2, 5));
    assert!(star_at(&scr, 3, 5));
    assert!(plain_at(&scr, 4, 0, ' '));
}

#[test]
fn legend_is_as_wide_as_the_top_row_number_is_long() {
    for peak in [0i64, 1, 9, 10, 11, 99, 100, 999, 1000, 4321] {
        let g = Graph::new(move |x: u32| if x == 3 { peak } else { 0 }, 40, None).unwrap();
        assert_eq!(g.widths().total, 40);
        assert_eq!(g.graph_height() as i64, peak);
        assert_eq!(g.height() as i64, peak + 1);
        assert_eq!(g.widths().height_legend as usize, format!("{}", g.graph_height()).len());
        assert_eq!(g.widths().graph + g.widths().height_legend, 40);
        assert!(g.widths().graph < 40);
    }
}

#[test]
fn a_plot_is_laid_out_exactly_when_it_can_be() {
    // Width against the digits of the tallest sample.
    assert!(Graph::with_samples(vec![], 99, 3, None, GraphOptions::default()).is_ok());
    assert_eq!(
        Graph::with_samples(vec![], 99, 2, None, GraphOptions::default()).err(),
        Some(GraphError::WidthTooSmall)
    );
    // Cells against what a screen holds: 32768 * 65536 is one too many.
    assert!(Graph::with_samples(vec![], 0, 32_768, Some(65_535), GraphOptions::default()).is_ok());
    assert_eq!(
        Graph::with_samples(vec![], 0, 32_768, Some(65_536), GraphOptions::default()).err(),
        Some(GraphError::CanvasTooLarge)
    );
    assert!(Graph::with_samples(vec![], 0, 0x7fff_ffff, None, GraphOptions::default()).is_ok());
    assert_eq!(
        Graph::with_samples(vec![], 0, 0x8000_0000, None, GraphOptions::default()).err(),
        Some(GraphError::CanvasTooLarge)
    );
}
