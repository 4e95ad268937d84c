//! The state of the rectangle picker: pointer events move it, and
//! confirming turns the dragged rectangle into a selection in image pixels.
use vstd::prelude::*;
use crate::geometry::{
    fitted_size, map_axis, map_extent, map_origin, mapped_rect, max, min, positive_size, CoordinateCalculator, DisplayRect,
    LayoutError, Point, Rect, Rgb, Size, TextDirection,
};

verus! {

/// The viewport size assumed when a selection is confirmed.
pub const ESTIMATED_VIEWPORT_WIDTH: i32 = 800;
pub const ESTIMATED_VIEWPORT_HEIGHT: i32 = 600;

/// What one frame of the picker reports about the pointer over the image.
#[derive(Clone, Copy, Debug, PartialEq, Eq, Structural)]
pub struct PointerInput {
    pub clicked: bool,
    pub dragged: bool,
    pub drag_released: bool,
    pub pos: Option<Point>,
}

/// The picker's state as plain values.
#[derive(Clone, Copy, Debug, PartialEq, Eq, Structural)]
pub struct SelectionModel {
    pub is_selecting: bool,
    pub start_pos: Option<Point>,
    pub current_pos: Option<Point>,
    pub text_color: Rgb,
    pub actual_image_rect: Option<DisplayRect>,
    pub enable_selection: bool,
    pub text_direction: TextDirection,
    pub enable_color_variation: bool,
}

/// The rectangle picker: a drag over the displayed image, the text colour,
/// the label's direction and whether colour variation is on.
pub struct SelectionHandler {
    is_selecting: bool,
    start_pos: Option<Point>,
    current_pos: Option<Point>,
    text_color: Rgb,
    actual_image_rect: Option<DisplayRect>,
    enable_selection: bool,
    text_direction: TextDirection,
    enable_color_variation: bool,
}

impl View for SelectionHandler {
    type V = SelectionModel;

    closed spec fn view(&self) -> SelectionModel {
        SelectionModel {
            is_selecting: self.is_selecting,
            start_pos: self.start_pos,
            current_pos: self.current_pos,
            text_color: self.text_color,
            actual_image_rect: self.actual_image_rect,
            enable_selection: self.enable_selection,
            text_direction: self.text_direction,
            enable_color_variation: self.enable_color_variation,
        }
    }
}

/// The picker after one frame of pointer input: a click starts a selection
/// at the pointer; a drag starts one there if none is under way and moves
/// its current corner to the pointer; releasing the drag ends selecting.
pub open spec fn pointer_step(m: SelectionModel, input: PointerInput) -> SelectionModel {
    let clicked = if input.clicked && input.pos is Some {
        SelectionModel { is_selecting: true, start_pos: input.pos, current_pos: input.pos, ..m }
    } else {
        m
    };
    let dragged = if input.dragged && input.pos is Some {
        if clicked.is_selecting {
            SelectionModel { current_pos: input.pos, ..clicked }
        } else {
            SelectionModel { is_selecting: true, start_pos: input.pos, current_pos: input.pos, ..clicked }
        }
    } else {
        clicked
    };
    if input.drag_released && dragged.is_selecting {
        SelectionModel { is_selecting: false, ..dragged }
    } else {
        dragged
    }
}

/// Whether both corners of a drag are known.
pub open spec fn has_drag(m: SelectionModel) -> bool {
    m.start_pos is Some && m.current_pos is Some
}

/// The display size the estimated viewport gives an image.
pub open spec fn estimated_display(image: Size) -> Size {
    let f = fitted_size(
        ESTIMATED_VIEWPORT_WIDTH - crate::geometry::VIEWPORT_MARGIN,
        ESTIMATED_VIEWPORT_HEIGHT - crate::geometry::VIEWPORT_MARGIN,
        image.width as int,
        image.height as int,
    );
    Size { width: f.0 as i32, height: f.1 as i32 }
}

pub open spec fn display_rect_of(size: Size) -> DisplayRect {
    DisplayRect { min: Point { x: 0, y: 0 }, max: Point { x: size.width, y: size.height } }
}

/// The dragged rectangle, corners in any order, clamped to the displayed image.
pub open spec fn dragged_rect(m: SelectionModel, image_rect: DisplayRect) -> DisplayRect {
    let a = m.start_pos.unwrap();
    let b = m.current_pos.unwrap();
    let r = DisplayRect {
        min: Point { x: min(a.x as int, b.x as int) as i32, y: min(a.y as int, b.y as int) as i32 },
        max: Point { x: max(a.x as int, b.x as int) as i32, y: max(a.y as int, b.y as int) as i32 },
    };
    r.clamped_to_spec(image_rect)
}

/// Whether a recorded display rectangle can serve as the scale of a
/// mapping: both sides positive and within an `i32`.
pub open spec fn usable_display_rect(r: DisplayRect) -> bool {
    0 < r.max.x - r.min.x <= i32::MAX && 0 < r.max.y - r.min.y <= i32::MAX
}

/// The display size and rectangle a drag is mapped through: where the image
/// is actually displayed when that has been recorded and is usable, else
/// where it would be displayed in the estimated viewport.
pub open spec fn mapping_frame(m: SelectionModel, image: Size) -> (Size, DisplayRect) {
    if m.actual_image_rect is Some && usable_display_rect(m.actual_image_rect.unwrap()) {
        let act = m.actual_image_rect.unwrap();
        (Size { width: (act.max.x - act.min.x) as i32, height: (act.max.y - act.min.y) as i32 }, act)
    } else {
        let display = estimated_display(image);
        (display, display_rect_of(display))
    }
}

/// The selection a confirmed picker hands on: the clamped drag mapped to
/// image pixels when selecting is on and a drag was made, else the whole
/// image; with the picker's colour, direction and variation setting.
pub open spec fn confirmed_rect(m: SelectionModel, image: Size) -> (int, int, int, int) {
    if m.enable_selection && has_drag(m) {
        let (display, image_rect) = mapping_frame(m, image);
        mapped_rect(dragged_rect(m, image_rect), image_rect, display, image)
    } else {
        (0, 0, image.width as int, image.height as int)
    }
}

/// The selection in image pixels that the panel shows while dragging,
/// scaled by the size at which the image is actually displayed.
pub open spec fn selection_info_spec(m: SelectionModel, image: Size) -> Option<(int, int, int, int)> {
    if m.actual_image_rect is Some && has_drag(m) && positive_size(image) {
        let act = m.actual_image_rect.unwrap();
        let aw = act.max.x - act.min.x;
        let ah = act.max.y - act.min.y;
        if aw > 0 && ah > 0 {
            let a = m.start_pos.unwrap();
            let b = m.current_pos.unwrap();
            let rel_x = max(min(a.x as int, b.x as int) - act.min.x, 0);
            let rel_y = max(min(a.y as int, b.y as int) - act.min.y, 0);
            let rel_w = min(max(a.x as int, b.x as int) - min(a.x as int, b.x as int), aw - rel_x);
            let rel_h = min(max(a.y as int, b.y as int) - min(a.y as int, b.y as int), ah - rel_y);
            let x = map_origin(rel_x, aw, image.width as int);
            let y = map_origin(rel_y, ah, image.height as int);
            Some((x, y, map_extent(rel_w, rel_x, aw, image.width as int), map_extent(rel_h, rel_y, ah, image.height as int)))
        } else {
            None
        }
    } else {
        None
    }
}

impl SelectionHandler {
    /// A picker with no drag, black text, upright labels, selecting on and
    /// colour variation off.
    pub fn new() -> (r: SelectionHandler)
        ensures
            r@ == (SelectionModel {
                is_selecting: false,
                start_pos: None,
                current_pos: None,
                text_color: Rgb::black(),
                actual_image_rect: None,
                enable_selection: true,
                text_direction: TextDirection::Down,
                enable_color_variation: false,
            }),
    {
        SelectionHandler {
            is_selecting: false,
            start_pos: None,
            current_pos: None,
            text_color: Rgb { r: 0, g: 0, b: 0 },
            actual_image_rect: None,
            enable_selection: true,
            text_direction: TextDirection::Down,
            enable_color_variation: false,
        }
    }

    /// Records where the image is actually displayed.
    pub fn set_actual_image_rect(&mut self, rect: DisplayRect)
        ensures
            final(self)@ == (SelectionModel { actual_image_rect: Some(rect), ..old(self)@ }),
    {
        self.actual_image_rect = Some(rect);
    }

    /// Advances the picker by one frame of pointer input.
    pub fn handle_mouse_interaction(&mut self, input: PointerInput)
        ensures
            final(self)@ == pointer_step(old(self)@, input),
    {
        if input.clicked {
            if let Some(p) = input.pos {
                self.is_selecting = true;
                self.start_pos = Some(p);
                self.current_pos = Some(p);
            }
        }
        if input.dragged {
            if let Some(p) = input.pos {
                if !self.is_selecting {
                    self.is_selecting = true;
                    self.start_pos = Some(p);
                }
                self.current_pos = Some(p);
            }
        }
        if input.drag_released && self.is_selecting {
            self.is_selecting = false;
        }
    }

    /// The outline to draw for the current drag: the dragged rectangle
    /// clamped to `image_rect`; `None` without a drag.
    pub fn selection_outline(&self, image_rect: DisplayRect) -> (r: Option<DisplayRect>)
        ensures
            r is Some <==> has_drag(self@),
            r matches Some(o) ==> o == dragged_rect(self@, image_rect),
    {
        match (self.start_pos, self.current_pos) {
            (Some(start), Some(current)) => {
                let rect = DisplayRect::from_two_pos(start, current);
                Some(rect.clamped_to(&image_rect))
            },
            _ => None,
        }
    }

    /// The selection to hand on, in image pixels. With selecting on and a
    /// drag made, the drag is clamped to where the image is displayed and
    /// mapped to image pixels; the recorded display rectangle is used when
    /// it is usable, else the layout of the estimated viewport. Otherwise
    /// the whole image is used. Colour, direction and variation come from the
    /// picker. Fails exactly when the image has a zero or negative side.
    pub fn confirm_selection(&self, coordinate_calculator: &CoordinateCalculator, image_size: Size) -> (r: Result<Rect, LayoutError>)
        ensures
            r is Err <==> !positive_size(image_size),
            r matches Ok(rect) ==> {
                &&& (rect.x as int, rect.y as int, rect.width as int, rect.height as int) == confirmed_rect(self@, image_size)
                &&& rect.text_color == self@.text_color
                &&& rect.text_direction == self@.text_direction
                &&& rect.enable_color_variation == self@.enable_color_variation
                &&& crate::geometry::rect_in_image(rect, image_size)
            },
    {
        if image_size.width <= 0 || image_size.height <= 0 {
            return Err(LayoutError::InvalidLayoutInput);
        }
        let mapped = match (self.enable_selection, self.start_pos, self.current_pos) {
            (true, Some(start), Some(current)) => {
                let recorded: Option<(Size, DisplayRect)> = match self.actual_image_rect {
                    Some(act) => {
                        let w: i64 = act.max.x as i64 - act.min.x as i64;
                        let h: i64 = act.max.y as i64 - act.min.y as i64;
                        if 0 < w && w <= i32::MAX as i64 && 0 < h && h <= i32::MAX as i64 {
                            Some((Size { width: w as i32, height: h as i32 }, act))
                        } else {
                            None
                        }
                    },
                    None => None,
                };
                let (display_size, image_rect) = match recorded {
                    Some(frame) => frame,
                    None => {
                        let available = Size { width: ESTIMATED_VIEWPORT_WIDTH, height: ESTIMATED_VIEWPORT_HEIGHT };
                        match coordinate_calculator.calculate_image_display(available, image_size) {
                            Ok(l) => l,
                            Err(e) => return Err(e),
                        }
                    },
                };
                let rect = DisplayRect::from_two_pos(start, current).clamped_to(&image_rect);
                coordinate_calculator.ui_to_image_coords(rect, image_rect, display_size, image_size, self.text_color)
            },
            _ => Rect {
                x: 0,
                y: 0,
                width: image_size.width as u32,
                height: image_size.height as u32,
                text_color: self.text_color,
                enable_color_variation: false,
                text_direction: self.text_direction,
            },
        };
        Ok(Rect {
            text_direction: self.text_direction,
            enable_color_variation: self.enable_color_variation,
            ..mapped
        })
    }

    /// Clears the drag.
    pub fn reset_selection(&mut self)
        ensures
            final(self)@ == (SelectionModel { is_selecting: false, start_pos: None, current_pos: None, ..old(self)@ }),
    {
        self.is_selecting = false;
        self.start_pos = None;
        self.current_pos = None;
    }

    pub fn is_selecting(&self) -> (r: bool)
        ensures
            r == self@.is_selecting,
    {
        self.is_selecting
    }

    pub fn has_selection(&self) -> (r: bool)
        ensures
            r == has_drag(self@),
    {
        self.start_pos.is_some() && self.current_pos.is_some()
    }

    /// The selection in image pixels as `(x, y, width, height)`, scaled by
    /// the size at which the image is actually displayed; `None` without a
    /// drag, without a known display rectangle of positive size, or for an
    /// image with an empty side.
    pub fn get_selection_info(&self, image_size: Size) -> (r: Option<(i32, i32, u32, u32)>)
        ensures
            r matches Some(v) ==> selection_info_spec(self@, image_size) == Some((v.0 as int, v.1 as int, v.2 as int, v.3 as int)),
            r is None <==> selection_info_spec(self@, image_size) is None,
    {
        let act = match self.actual_image_rect {
            Some(a) => a,
            None => return None,
        };
        let (start, current) = match (self.start_pos, self.current_pos) {
            (Some(s), Some(c)) => (s, c),
            _ => return None,
        };
        if image_size.width <= 0 || image_size.height <= 0 {
            return None;
        }
        let aw: i64 = act.max.x as i64 - act.min.x as i64;
        let ah: i64 = act.max.y as i64 - act.min.y as i64;
        if aw <= 0 || ah <= 0 {
            return None;
        }
        let sel = DisplayRect::from_two_pos(start, current);
        let dx: i64 = sel.min.x as i64 - act.min.x as i64;
        let dy: i64 = sel.min.y as i64 - act.min.y as i64;
        let rel_x: i64 = if dx < 0 { 0 } else { dx };
        let rel_y: i64 = if dy < 0 { 0 } else { dy };
        let sw: i64 = sel.max.x as i64 - sel.min.x as i64;
        let sh: i64 = sel.max.y as i64 - sel.min.y as i64;
        let rel_w: i64 = if sw <= aw - rel_x { sw } else { aw - rel_x };
        let rel_h: i64 = if sh <= ah - rel_y { sh } else { ah - rel_y };
        let (x, width) = map_axis(rel_x, rel_w, aw, image_size.width);
        let (y, height) = map_axis(rel_y, rel_h, ah, image_size.height);
        Some((x, y, width, height))
    }

    pub fn set_text_color(&mut self, color: Rgb)
        ensures
            final(self)@ == (SelectionModel { text_color: color, ..old(self)@ }),
    {
        self.text_color = color;
    }

    pub fn get_text_color(&self) -> (r: Rgb)
        ensures
            r == self@.text_color,
    {
        self.text_color
    }

    pub fn set_enable_selection(&mut self, enable: bool)
        ensures
            final(self)@ == (SelectionModel { enable_selection: enable, ..old(self)@ }),
    {
        self.enable_selection = enable;
    }

    pub fn get_enable_selection(&self) -> (r: bool)
        ensures
            r == self@.enable_selection,
    {
        self.enable_selection
    }

    pub fn set_text_direction(&mut self, direction: TextDirection)
        ensures
            final(self)@ == (SelectionModel { text_direction: direction, ..old(self)@ }),
    {
        self.text_direction = direction;
    }

    pub fn get_text_direction(&self) -> (r: TextDirection)
        ensures
            r == self@.text_direction,
    {
        self.text_direction
    }

    pub fn set_enable_color_variation(&mut self, enable: bool)
        ensures
            final(self)@ == (SelectionModel { enable_color_variation: enable, ..old(self)@ }),
    {
        self.enable_color_variation = enable;
    }

    pub fn get_enable_color_variation(&self) -> (r: bool)
        ensures
            r == self@.enable_color_variation,
    {
        self.enable_color_variation
    }
}

} // verus!
