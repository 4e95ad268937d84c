use assext::geometry::{CoordinateCalculator, DisplayRect, LayoutError, Point, Rect, Rgb, Size, TextDirection};

fn rect(x0: i32, y0: i32, x1: i32, y1: i32) -> DisplayRect {
    DisplayRect { min: Point { x: x0, y: y0 }, max: Point { x: x1, y: y1 } }
}

fn black() -> Rgb {
    Rgb { r: 0, g: 0, b: 0 }
}

fn assert_inside(r: &Rect, w: i32, h: i32) {
    assert!(r.x >= 0 && r.y >= 0);
    assert!(r.width >= 1 && r.height >= 1);
    assert!(r.x as i64 + r.width as i64 <= w as i64);
    assert!(r.y as i64 + r.height as i64 <= h as i64);
}

#[test]
fn layout_fits_wide_image_by_width() {
    let calc = CoordinateCalculator::new();
    let (size, shown) = calc
        .calculate_image_display(Size { width: 820, height: 620 }, Size { width: 1600, height: 400 })
        .unwrap();
    assert_eq!(size, Size { width: 800, height: 200 });
    assert_eq!(shown, rect(0, 0, 800, 200));
}

#[test]
fn layout_fits_tall_image_by_height() {
    let calc = CoordinateCalculator::new();
    let (size, shown) = calc
        .calculate_image_display(Size { width: 800, height: 600 }, Size { width: 400, height: 300 })
        .unwrap();
    // 780 x 580 usable; 400/300 > 780/580 is false, so fit by height: 580 * 4 / 3 = 773.
    assert_eq!(size, Size { width: 773, height: 580 });
    assert_eq!(shown, rect(0, 0, 773, 580));
}

#[test]
fn layout_rejects_degenerate_input() {
    let calc = CoordinateCalculator::new();
    let bad = [
        (Size { width: 0, height: 600 }, Size { width: 10, height: 10 }),
        (Size { width: 800, height: 20 }, Size { width: 10, height: 10 }),
        (Size { width: 800, height: 600 }, Size { width: 0, height: 10 }),
        (Size { width: 800, height: 600 }, Size { width: 10, height: -5 }),
    ];
    for (available, image) in bad {
        assert_eq!(calc.calculate_image_display(available, image), Err(LayoutError::InvalidLayoutInput));
    }
}

#[test]
fn layout_keeps_a_sliver_one_pixel_thick() {
    let calc = CoordinateCalculator::new();
    let (size, _) = calc
        .calculate_image_display(Size { width: 120, height: 120 }, Size { width: 100000, height: 1 })
        .unwrap();
    assert_eq!(size, Size { width: 100, height: 1 });
}

#[test]
fn mapping_scales_and_translates() {
    let calc = CoordinateCalculator::new();
    let r = calc.ui_to_image_coords(
        rect(60, 35, 110, 75),
        rect(10, 15, 210, 165),
        Size { width: 200, height: 150 },
        Size { width: 400, height: 300 },
        Rgb { r: 1, g: 2, b: 3 },
    );
    assert_eq!((r.x, r.y, r.width, r.height), (100, 40, 100, 80));
    assert_eq!(r.text_color, Rgb { r: 1, g: 2, b: 3 });
    assert!(!r.enable_color_variation);
    assert_eq!(r.text_direction, TextDirection::Right);
}

#[test]
fn mapping_clamps_rect_outside_the_image() {
    let calc = CoordinateCalculator::new();
    let shown = rect(0, 0, 200, 150);
    let display = Size { width: 200, height: 150 };
    let image = Size { width: 400, height: 300 };
    let left_above = calc.ui_to_image_coords(rect(-90, -80, -10, -5), shown, display, image, black());
    assert_eq!((left_above.x, left_above.y, left_above.width, left_above.height), (0, 0, 160, 150));
    assert_inside(&left_above, 400, 300);
    let right_below = calc.ui_to_image_coords(rect(500, 400, 600, 450), shown, display, image, black());
    assert_eq!((right_below.x, right_below.y, right_below.width, right_below.height), (399, 299, 1, 1));
    assert_inside(&right_below, 400, 300);
}

#[test]
fn mapping_clamps_straddling_and_empty_rects() {
    let calc = CoordinateCalculator::new();
    let shown = rect(0, 0, 200, 150);
    let display = Size { width: 200, height: 150 };
    let image = Size { width: 400, height: 300 };
    let straddle = calc.ui_to_image_coords(rect(150, 100, 260, 200), shown, display, image, black());
    assert_eq!((straddle.x, straddle.y, straddle.width, straddle.height), (300, 200, 100, 100));
    assert_inside(&straddle, 400, 300);
    let empty = calc.ui_to_image_coords(rect(50, 50, 50, 50), shown, display, image, black());
    assert_eq!((empty.x, empty.y, empty.width, empty.height), (100, 100, 1, 1));
    assert_inside(&empty, 400, 300);
}

#[test]
fn mapping_many_rects_stays_inside() {
    let calc = CoordinateCalculator::new();
    let image = Size { width: 37, height: 23 };
    let display = Size { width: 91, height: 11 };
    let shown = rect(5, -3, 96, 8);
    for x0 in [-200, -1, 0, 7, 50, 95, 300] {
        for y0 in [-50, 0, 4, 10, 90] {
            for (w, h) in [(0, 0), (1, 1), (30, 2), (500, 500), (-7, -3)] {
                let r = calc.ui_to_image_coords(rect(x0, y0, x0 + w, y0 + h), shown, display, image, black());
                assert_inside(&r, 37, 23);
            }
        }
    }
}

#[test]
fn mapping_an_in_image_rect_at_full_size_is_identity() {
    let calc = CoordinateCalculator::new();
    let image = Size { width: 400, height: 300 };
    let r = calc.ui_to_image_coords(rect(50, 50, 150, 130), rect(0, 0, 400, 300), image, image, black());
    assert_eq!((r.x, r.y, r.width, r.height), (50, 50, 100, 80));
    let again = calc.ui_to_image_coords(
        rect(r.x, r.y, r.x + r.width as i32, r.y + r.height as i32),
        rect(0, 0, 400, 300),
        image,
        image,
        black(),
    );
    assert_eq!((again.x, again.y, again.width, again.height), (50, 50, 100, 80));
}

#[test]
fn display_rect_helpers() {
    let r = DisplayRect::from_two_pos(Point { x: 9, y: 2 }, Point { x: 3, y: 7 });
    assert_eq!(r, rect(3, 2, 9, 7));
    assert_eq!(r.clamped_to(&rect(0, 0, 5, 5)), rect(3, 2, 5, 5));
}

#[test]
fn mapping_cuts_the_extent_at_the_unrounded_origin() {
    // A 10 x 10 image shown at 3 x 3; the drag starts at display x = 1 (image
    // 3.33) and is 20 wide. The width is cut at 10 - 3.33, so it is 6.
    let calc = CoordinateCalculator::new();
    let r = calc.ui_to_image_coords(
        rect(1, 1, 21, 21),
        rect(0, 0, 3, 3),
        Size { width: 3, height: 3 },
        Size { width: 10, height: 10 },
        black(),
    );
    assert_eq!((r.x, r.y, r.width, r.height), (3, 3, 6, 6));
    assert_inside(&r, 10, 10);
}
