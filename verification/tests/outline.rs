use tgraph::{draw, Character, GraphError};

#[test]
fn outline_of_the_identity() {
    let scr = draw(|x: u32| x, Character::Star).unwrap();
    // The samples reach 80: the legend has room for 81, the axis lies in row 81.
    assert_eq!(scr.get_width(), 83);
    assert_eq!(scr.get_height(), 82);
    for y in 0..82 {
        assert_eq!(scr.get_pxl(2, y).unwrap().chr, '|');
    }
    // The horizontal axis ends at column 80; the two columns right of it stay blank.
    for x in 3..=80 {
        assert_eq!(scr.get_pxl(x, 81).unwrap().chr, '_');
    }
    assert_eq!(scr.get_pxl(81, 81).unwrap().chr, ' ');
    assert_eq!(scr.get_pxl(82, 81).unwrap().chr, ' ');
    assert_eq!(scr.get_pxl(0, 0).unwrap().chr, '8');
    assert_eq!(scr.get_pxl(1, 0).unwrap().chr, '1');
    assert_eq!(scr.get_pxl(0, 81).unwrap().chr, '0');
    assert_eq!(scr.get_pxl(1, 81).unwrap().chr, ' ');
    assert_eq!(scr.get_pxl(0, 71).unwrap().chr, '1');
    assert_eq!(scr.get_pxl(1, 71).unwrap().chr, '0');
    // No points.
    for x in 3..83 {
        for y in 0..81 {
            assert_eq!(scr.get_pxl(x, y).unwrap().chr, ' ');
        }
    }
}

#[test]
fn outline_of_a_flat_function() {
    let scr = draw(|_x: u32| 0, Character::Bullet).unwrap();
    assert_eq!(scr.get_width(), 82);
    assert_eq!(scr.get_height(), 2);
    assert_eq!(scr.get_pxl(0, 0).unwrap().chr, '1');
    assert_eq!(scr.get_pxl(0, 1).unwrap().chr, '0');
    assert_eq!(scr.get_pxl(1, 0).unwrap().chr, '|');
    assert_eq!(scr.get_pxl(1, 1).unwrap().chr, '|');
    assert_eq!(scr.get_pxl(2, 1).unwrap().chr, '_');
    for x in 2..=80 {
        assert_eq!(scr.get_pxl(x, 1).unwrap().chr, '_');
    }
    assert_eq!(scr.get_pxl(80, 1).unwrap().chr, '_');
    assert_eq!(scr.get_pxl(81, 1).unwrap().chr, ' ');
    for x in 2..82 {
        assert_eq!(scr.get_pxl(x, 0).unwrap().chr, ' ');
    }
    assert_eq!(scr.get_pxl(2, 0).unwrap().chr, ' ');
}

#[test]
fn outline_too_tall_for_a_screen() {
    assert_eq!(draw(|_x: u32| u32::MAX, Character::Star).err(), Some(GraphError::CanvasTooLarge));
    assert_eq!(draw(|x: u32| x * 1_000_000, Character::Star).err(), Some(GraphError::CanvasTooLarge));
}

#[test]
fn outline_axis_stops_at_column_eighty_whatever_the_legend() {
    // The samples reach 998: the legend has room for 999, three columns.
    let scr = draw(|x: u32| if x == 40 { 998 } else { 1 }, Character::Star).unwrap();
    assert_eq!(scr.get_width(), 84);
    assert_eq!(scr.get_height(), 1000);
    assert_eq!(scr.get_pxl(3, 999).unwrap().chr, '|');
    for x in 4..=80 {
        assert_eq!(scr.get_pxl(x, 999).unwrap().chr, '_');
    }
    for x in 81..84 {
        assert_eq!(scr.get_pxl(x, 999).unwrap().chr, ' ');
    }
    assert_eq!(scr.get_pxl(0, 0).unwrap().chr, '9');
    assert_eq!(scr.get_pxl(1, 0).unwrap().chr, '9');
    assert_eq!(scr.get_pxl(2, 0).unwrap().chr, '9');
    assert_eq!(scr.get_pxl(0, 999).unwrap().chr, '0');
}
