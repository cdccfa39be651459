use ipcli::image::Image;
use ipcli::draw::Warn;

fn on_pixels(img: &Image) -> Vec<(i32, i32)> {
    let w = img.get_width() as i32;
    let h = img.get_height() as i32;
    let mut on = Vec::new();
    for y in 0..h {
        for x in 0..w {
            if img.read_pixel(x, y) {
                on.push((x, y));
            }
        }
    }
    on
}

#[test]
fn rectangle_sets_exactly_its_box() {
    let mut img = Image::new(10, 10, false);
    assert_eq!(img.draw_rectangle(1, 1, 5, 3, true), None);
    let on = on_pixels(&img);
    assert_eq!(on.len(), 15);
    for y in 0..10 {
        for x in 0..10 {
            let inside = 1 <= x && x < 6 && 1 <= y && y < 4;
            assert_eq!(img.read_pixel(x, y), inside, "at ({x}, {y})");
        }
    }
}

#[test]
fn rectangle_reports_bad_requests() {
    let mut img = Image::new(5, 5, false);
    assert_eq!(img.draw_rectangle(-1, 0, 2, 2, true), Some(Warn::Coords));
    assert_eq!(img.draw_rectangle(0, 0, 0, 2, true), Some(Warn::Dims));
    assert_eq!(on_pixels(&img).len(), 0);
}

#[test]
fn line_horizontal() {
    let mut img = Image::new(6, 6, false);
    img.draw_line(0, 2, 4, 2, true);
    let on = on_pixels(&img);
    assert_eq!(on, vec![(0, 2), (1, 2), (2, 2), (3, 2), (4, 2)]);
}

#[test]
fn line_vertical() {
    let mut img = Image::new(6, 6, false);
    img.draw_line(3, 1, 3, 4, true);
    let on = on_pixels(&img);
    assert_eq!(on, vec![(3, 1), (3, 2), (3, 3), (3, 4)]);
}

#[test]
fn line_diagonal() {
    let mut img = Image::new(6, 6, false);
    img.draw_line(0, 0, 3, 3, true);
    let on = on_pixels(&img);
    assert_eq!(on, vec![(0, 0), (1, 1), (2, 2), (3, 3)]);
}

#[test]
fn line_gentle_slope() {
    // from (0,0) to (4,2): the dominant axis is horizontal, the y value
    // follows the slope rounded to nearest (ties up)
    let mut img = Image::new(6, 6, false);
    img.draw_line(0, 0, 4, 2, true);
    let on = on_pixels(&img);
    assert_eq!(on, vec![(0, 0), (1, 1), (2, 1), (3, 2), (4, 2)]);
}

#[test]
fn line_endpoints_reversed_draw_same_horizontal() {
    let mut a = Image::new(8, 8, false);
    let mut b = Image::new(8, 8, false);
    a.draw_line(1, 3, 6, 3, true);
    b.draw_line(6, 3, 1, 3, true);
    assert!(a.same_grid(&b));
}

#[test]
fn rectangle_outline_draws_perimeter() {
    let mut img = Image::new(6, 6, false);
    img.draw_rectangle_outline(1, 1, 2, 2, true);
    for y in 0..6 {
        for x in 0..6 {
            let on_perimeter = (1 <= x && x <= 3 && (y == 1 || y == 3))
                || (1 <= y && y <= 3 && (x == 1 || x == 3));
            assert_eq!(img.read_pixel(x, y), on_perimeter, "at ({x}, {y})");
        }
    }
}

#[test]
fn circle_fills_strict_disk() {
    let mut img = Image::new(7, 7, false);
    assert_eq!(img.draw_circle(3, 3, 2, true), None);
    for y in 0..7 {
        for x in 0..7 {
            let dx = x - 3;
            let dy = y - 3;
            let inside = (2 <= x && x <= 4) && (2 <= y && y <= 4) && dx * dx + dy * dy < 4;
            assert_eq!(img.read_pixel(x, y), inside, "at ({x}, {y})");
        }
    }
}

#[test]
fn circle_reports_bad_requests() {
    let mut img = Image::new(5, 5, false);
    assert_eq!(img.draw_circle(-1, 2, 1, true), Some(Warn::Coords));
    assert_eq!(img.draw_circle(2, 2, -1, true), Some(Warn::Radius));
    assert_eq!(img.draw_circle_outline(2, -1, 1, true), Some(Warn::Coords));
    assert_eq!(img.draw_circle_outline(2, 2, -3, true), Some(Warn::Radius));
    assert_eq!(on_pixels(&img).len(), 0);
}

#[test]
fn circle_outline_radius_two() {
    let mut img = Image::new(7, 7, false);
    assert_eq!(img.draw_circle_outline(3, 3, 2, true), None);
    let expected = vec![
        (1, 2), (1, 3), (1, 4),
        (2, 1), (2, 5),
        (3, 1), (3, 5),
        (4, 1), (4, 5),
        (5, 2), (5, 3), (5, 4),
    ];
    let mut on = on_pixels(&img);
    on.sort();
    assert_eq!(on, expected);
}

#[test]
fn circle_outline_radius_zero_marks_center() {
    let mut img = Image::new(5, 5, false);
    img.draw_circle_outline(2, 2, 0, true);
    assert_eq!(on_pixels(&img), vec![(2, 2)]);
}

#[test]
fn curve_degenerate_draws_its_point() {
    // all three control points coincide: the bounding box is that single
    // pixel, and every sample rounds to it
    let mut img = Image::new(5, 5, false);
    img.draw_curve(2, 2, 2, 2, 2, 2, true);
    assert_eq!(on_pixels(&img), vec![(2, 2)]);
}

#[test]
fn curve_straight_diagonal() {
    // control points on one diagonal: samples land exactly on the
    // diagonal pixels of the bounding box, endpoints included
    let mut img = Image::new(6, 6, false);
    img.draw_curve(0, 0, 2, 2, 4, 4, true);
    let on = on_pixels(&img);
    assert_eq!(on, vec![(0, 0), (1, 1), (2, 2), (3, 3), (4, 4)]);
}

#[test]
fn line_steep_slope() {
    // from (0,0) to (1,3): the dominant axis is vertical
    let mut img = Image::new(6, 6, false);
    img.draw_line(0, 0, 1, 3, true);
    let on = on_pixels(&img);
    assert_eq!(on, vec![(0, 0), (0, 1), (1, 2), (1, 3)]);
}

#[test]
fn circle_outline_radius_one_marks_neighbors() {
    let mut img = Image::new(5, 5, false);
    img.draw_circle_outline(2, 2, 1, true);
    let mut on = on_pixels(&img);
    on.sort();
    assert_eq!(on, vec![(1, 2), (2, 1), (2, 3), (3, 2)]);
}

#[test]
fn curve_stays_in_bounding_box_and_hits_endpoints() {
    let mut img = Image::new(8, 8, false);
    img.draw_curve(0, 0, 0, 3, 3, 3, true);
    assert!(img.read_pixel(0, 0));
    assert!(img.read_pixel(3, 3));
    for (x, y) in on_pixels(&img) {
        assert!(x <= 3 && y <= 3, "({x}, {y}) escapes the box");
    }
}
