use assext::geometry::{CoordinateCalculator, DisplayRect, LayoutError, Point, Rgb, Size, TextDirection};
use assext::panel::ControlPanel;
use assext::selection::{PointerInput, SelectionHandler};

fn at(x: i32, y: i32) -> Option<Point> {
    Some(Point { x, y })
}

fn input(clicked: bool, dragged: bool, drag_released: bool, pos: Option<Point>) -> PointerInput {
    PointerInput { clicked, dragged, drag_released, pos }
}

fn dragged_handler(from: (i32, i32), to: (i32, i32)) -> SelectionHandler {
    let mut h = SelectionHandler::new();
    h.handle_mouse_interaction(input(false, true, false, at(from.0, from.1)));
    h.handle_mouse_interaction(input(false, true, false, at(to.0, to.1)));
    h.handle_mouse_interaction(input(false, false, true, None));
    h
}

#[test]
fn new_picker_defaults() {
    let h = SelectionHandler::new();
    assert!(!h.is_selecting());
    assert!(!h.has_selection());
    assert_eq!(h.get_text_color(), Rgb { r: 0, g: 0, b: 0 });
    assert!(h.get_enable_selection());
    assert_eq!(h.get_text_direction(), TextDirection::Down);
    assert!(!h.get_enable_color_variation());
    assert_eq!(ControlPanel::new(), ControlPanel);
}

#[test]
fn drag_starts_moves_and_ends_a_selection() {
    let mut h = SelectionHandler::new();
    h.handle_mouse_interaction(input(false, true, false, at(10, 20)));
    assert!(h.is_selecting());
    assert!(h.has_selection());
    h.handle_mouse_interaction(input(false, true, false, at(30, 5)));
    assert_eq!(
        h.selection_outline(DisplayRect { min: Point { x: 0, y: 0 }, max: Point { x: 100, y: 100 } }),
        Some(DisplayRect { min: Point { x: 10, y: 5 }, max: Point { x: 30, y: 20 } })
    );
    h.handle_mouse_interaction(input(false, false, true, None));
    assert!(!h.is_selecting());
    assert!(h.has_selection());
    h.reset_selection();
    assert!(!h.has_selection());
    assert_eq!(h.selection_outline(DisplayRect { min: Point { x: 0, y: 0 }, max: Point { x: 1, y: 1 } }), None);
}

#[test]
fn click_restarts_at_the_pointer() {
    let mut h = dragged_handler((10, 10), (50, 50));
    h.handle_mouse_interaction(input(true, false, false, at(7, 8)));
    assert!(h.is_selecting());
    assert_eq!(
        h.selection_outline(DisplayRect { min: Point { x: 0, y: 0 }, max: Point { x: 100, y: 100 } }),
        Some(DisplayRect { min: Point { x: 7, y: 8 }, max: Point { x: 7, y: 8 } })
    );
    h.handle_mouse_interaction(input(true, false, false, None));
    assert!(h.is_selecting());
}

#[test]
fn outline_is_clamped_to_the_image() {
    let h = dragged_handler((-20, 30), (500, 60));
    let shown = DisplayRect { min: Point { x: 0, y: 0 }, max: Point { x: 200, y: 100 } };
    assert_eq!(
        h.selection_outline(shown),
        Some(DisplayRect { min: Point { x: 0, y: 30 }, max: Point { x: 200, y: 60 } })
    );
}

#[test]
fn confirm_maps_the_drag_to_image_pixels() {
    // A 400 x 300 image is shown 773 x 580 in the estimated viewport.
    let mut h = dragged_handler((100, 100), (300, 250));
    h.set_text_color(Rgb { r: 200, g: 10, b: 10 });
    h.set_text_direction(TextDirection::Left);
    h.set_enable_color_variation(true);
    let calc = CoordinateCalculator::new();
    let r = h.confirm_selection(&calc, Size { width: 400, height: 300 }).unwrap();
    // 100 * 400 / 773 = 51, 100 * 300 / 580 = 51, 200 * 400 / 773 = 103, 150 * 300 / 580 = 77.
    assert_eq!((r.x, r.y, r.width, r.height), (51, 51, 103, 77));
    assert_eq!(r.text_color, Rgb { r: 200, g: 10, b: 10 });
    assert_eq!(r.text_direction, TextDirection::Left);
    assert!(r.enable_color_variation);
}

#[test]
fn confirm_clamps_a_drag_beyond_the_image() {
    let h = dragged_handler((700, 500), (900, 700));
    let r = h.confirm_selection(&CoordinateCalculator::new(), Size { width: 400, height: 300 }).unwrap();
    // Clamped to (700, 500)-(773, 580): 700 * 400 / 773 = 362, 73 * 400 / 773 = 37, 500 * 300 / 580 = 258, 80 * 300 / 580 = 41.
    assert_eq!((r.x, r.y, r.width, r.height), (362, 258, 37, 41));
}

#[test]
fn confirm_without_a_drag_uses_the_whole_image() {
    let h = SelectionHandler::new();
    let r = h.confirm_selection(&CoordinateCalculator::new(), Size { width: 640, height: 480 }).unwrap();
    assert_eq!((r.x, r.y, r.width, r.height), (0, 0, 640, 480));
    let mut off = dragged_handler((10, 10), (60, 60));
    off.set_enable_selection(false);
    assert!(!off.get_enable_selection());
    let r = off.confirm_selection(&CoordinateCalculator::new(), Size { width: 640, height: 480 }).unwrap();
    assert_eq!((r.x, r.y, r.width, r.height), (0, 0, 640, 480));
    assert_eq!(r.text_direction, TextDirection::Down);
}

#[test]
fn confirm_rejects_an_empty_image() {
    let h = dragged_handler((10, 10), (60, 60));
    assert_eq!(
        h.confirm_selection(&CoordinateCalculator::new(), Size { width: 0, height: 480 }),
        Err(LayoutError::InvalidLayoutInput)
    );
}

#[test]
fn selection_info_uses_the_actual_display() {
    let mut h = dragged_handler((60, 40), (160, 140));
    assert_eq!(h.get_selection_info(Size { width: 400, height: 300 }), None);
    h.set_actual_image_rect(DisplayRect { min: Point { x: 10, y: 15 }, max: Point { x: 210, y: 165 } });
    // Relative (50, 25), size (100, 100); the scale is 2 on both axes.
    assert_eq!(h.get_selection_info(Size { width: 400, height: 300 }), Some((100, 50, 200, 200)));
    h.set_actual_image_rect(DisplayRect { min: Point { x: 10, y: 15 }, max: Point { x: 10, y: 165 } });
    assert_eq!(h.get_selection_info(Size { width: 400, height: 300 }), None);
}

#[test]
fn confirm_maps_through_the_recorded_display() {
    // The image is shown at 200 x 150 from (10, 15): scale 2 on both axes.
    let mut h = dragged_handler((60, 40), (160, 140));
    h.set_actual_image_rect(DisplayRect { min: Point { x: 10, y: 15 }, max: Point { x: 210, y: 165 } });
    let r = h.confirm_selection(&CoordinateCalculator::new(), Size { width: 400, height: 300 }).unwrap();
    assert_eq!((r.x, r.y, r.width, r.height), (100, 50, 200, 200));
    assert_eq!(
        h.get_selection_info(Size { width: 400, height: 300 }),
        Some((r.x, r.y, r.width, r.height))
    );
    // An empty recorded display falls back to the estimated viewport.
    h.set_actual_image_rect(DisplayRect { min: Point { x: 10, y: 15 }, max: Point { x: 10, y: 165 } });
    let r = h.confirm_selection(&CoordinateCalculator::new(), Size { width: 400, height: 300 }).unwrap();
    // Drag (60, 40)-(160, 140) in a 773 x 580 display: 60 * 400 / 773 = 31, 40 * 300 / 580 = 20.
    assert_eq!((r.x, r.y), (31, 20));
}
