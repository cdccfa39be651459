use ipcli::image::Image;

fn grid_of(img: &Image) -> Vec<Vec<bool>> {
    let w = img.get_width();
    let h = img.get_height();
    let mut g = Vec::new();
    for y in 0..h {
        let mut row = Vec::new();
        for x in 0..w {
            row.push(img.read_pixel(x as i32, y as i32));
        }
        g.push(row);
    }
    g
}

#[test]
fn new_fills_canvas() {
    let img = Image::new(3, 2, true);
    assert_eq!(img.get_width(), 3);
    assert_eq!(img.get_height(), 2);
    for y in 0..2 {
        for x in 0..3 {
            assert!(img.read_pixel(x, y));
        }
    }
    let img2 = Image::new(4, 4, false);
    for y in 0..4 {
        for x in 0..4 {
            assert!(!img2.read_pixel(x, y));
        }
    }
}

#[test]
fn write_then_read() {
    let mut img = Image::new(4, 4, false);
    let ok = img.write_pixel(2, 1, true);
    assert!(ok);
    assert!(img.read_pixel(2, 1));
    for y in 0..4 {
        for x in 0..4 {
            if (x, y) != (2, 1) {
                assert!(!img.read_pixel(x, y));
            }
        }
    }
}

#[test]
fn out_of_bounds_writes_change_nothing() {
    let mut img = Image::new(3, 3, false);
    img.write_pixel(1, 1, true);
    let before = grid_of(&img);
    // past the high edge: silently clipped
    assert!(img.write_pixel(3, 0, true));
    assert!(img.write_pixel(0, 7, true));
    // negative: reported
    assert!(!img.write_pixel(-1, 0, true));
    assert!(!img.write_pixel(0, -5, true));
    assert_eq!(img.get_width(), 3);
    assert_eq!(img.get_height(), 3);
    assert_eq!(grid_of(&img), before);
}

#[test]
fn flip_pixel_negates() {
    let mut img = Image::new(2, 2, false);
    assert!(img.flip_pixel(0, 1));
    assert!(img.read_pixel(0, 1));
    assert!(img.flip_pixel(0, 1));
    assert!(!img.read_pixel(0, 1));
    assert!(!img.flip_pixel(-1, 0));
}

#[test]
fn clear_sets_every_cell() {
    let mut img = Image::new(3, 2, false);
    img.write_pixel(1, 1, true);
    img.clear(true);
    for y in 0..2 {
        for x in 0..3 {
            assert!(img.read_pixel(x, y));
        }
    }
    img.clear(false);
    for y in 0..2 {
        for x in 0..3 {
            assert!(!img.read_pixel(x, y));
        }
    }
}

#[test]
fn invert_twice_is_identity() {
    let mut img = Image::new(4, 3, false);
    img.write_pixel(0, 0, true);
    img.write_pixel(2, 1, true);
    img.write_pixel(3, 2, true);
    let before = grid_of(&img);
    img.invert();
    assert!(!img.read_pixel(0, 0));
    assert!(img.read_pixel(1, 0));
    img.invert();
    assert_eq!(grid_of(&img), before);
}

#[test]
fn resize_restores_dims_not_content() {
    let mut img = Image::new(4, 3, true);
    assert!(img.resize(2, 2));
    assert_eq!(img.get_width(), 2);
    assert_eq!(img.get_height(), 2);
    assert!(img.resize(4, 3));
    assert_eq!(img.get_width(), 4);
    assert_eq!(img.get_height(), 3);
    // the kept corner is still on; regrown cells are off, not restored
    for y in 0..3 {
        for x in 0..4 {
            assert_eq!(img.read_pixel(x, y), x < 2 && y < 2);
        }
    }
}

#[test]
fn resize_rejects_non_positive() {
    let mut img = Image::new(3, 3, true);
    let before = grid_of(&img);
    assert!(!img.resize(0, 5));
    assert!(!img.resize(5, -1));
    assert_eq!(img.get_width(), 3);
    assert_eq!(img.get_height(), 3);
    assert_eq!(grid_of(&img), before);
}

#[test]
fn pixel_coordinates_are_row_major() {
    let img = Image::new(3, 2, false);
    let coords = img.get_pixel_coordinates();
    assert_eq!(coords, vec![(0, 0), (1, 0), (2, 0), (0, 1), (1, 1), (2, 1)]);
}

#[test]
fn flood_fill_fills_connected_region() {
    // a vertical barrier of "on" pixels splits the canvas
    let mut img = Image::new(5, 3, false);
    for y in 0..3 {
        img.write_pixel(2, y, true);
    }
    assert!(img.flood_fill(0, 0, true));
    for y in 0..3 {
        for x in 0..5 {
            let expected = x <= 2;
            assert_eq!(img.read_pixel(x, y), expected, "at ({x}, {y})");
        }
    }
}

#[test]
fn flood_fill_is_idempotent() {
    let mut img = Image::new(5, 4, false);
    img.write_pixel(1, 1, true);
    img.write_pixel(2, 2, true);
    let mut img2 = Image::new(5, 4, false);
    img2.write_pixel(1, 1, true);
    img2.write_pixel(2, 2, true);
    img.flood_fill(0, 0, true);
    img2.flood_fill(0, 0, true);
    img2.flood_fill(0, 0, true);
    assert_eq!(grid_of(&img), grid_of(&img2));
}

#[test]
fn flood_fill_same_color_is_noop() {
    let mut img = Image::new(3, 3, false);
    img.write_pixel(1, 1, true);
    let before = grid_of(&img);
    assert!(img.flood_fill(0, 0, false));
    assert_eq!(grid_of(&img), before);
}

#[test]
fn flood_fill_guards_bad_seeds() {
    let mut img = Image::new(3, 3, false);
    let before = grid_of(&img);
    assert!(!img.flood_fill(-1, 0, true));
    assert!(img.flood_fill(9, 0, true));
    assert_eq!(grid_of(&img), before);
}

#[test]
fn duplicate_and_same_grid() {
    let mut img = Image::new(3, 3, false);
    img.write_pixel(1, 2, true);
    let copy = img.duplicate();
    assert!(img.same_grid(&copy));
    img.write_pixel(0, 0, true);
    assert!(!img.same_grid(&copy));
}
