//! Display-space and image-space geometry: fitting an image into a viewport
//! and mapping a rectangle picked on the display back to image pixels.
use vstd::prelude::*;

verus! {

/// Margin, in display pixels, kept free on each axis of the viewport.
pub const VIEWPORT_MARGIN: i32 = 20;

/// A point in display space.
#[derive(Clone, Copy, Debug, PartialEq, Eq, Structural)]
pub struct Point {
    pub x: i32,
    pub y: i32,
}

/// A size in pixels; a component may be zero or negative in input.
#[derive(Clone, Copy, Debug, PartialEq, Eq, Structural)]
pub struct Size {
    pub width: i32,
    pub height: i32,
}

/// An axis-aligned rectangle in display space, from `min` to `max`.
#[derive(Clone, Copy, Debug, PartialEq, Eq, Structural)]
pub struct DisplayRect {
    pub min: Point,
    pub max: Point,
}

/// An opaque text color.
#[derive(Clone, Copy, Debug, PartialEq, Eq, Structural)]
pub struct Rgb {
    pub r: u8,
    pub g: u8,
    pub b: u8,
}

/// The four cardinal orientations of a stamped label.
#[derive(Clone, Copy, Debug, PartialEq, Eq, Structural)]
pub enum TextDirection {
    Up,
    Down,
    Left,
    Right,
}

/// The selection in image pixels, with the parameters of the label drawn in it.
#[derive(Clone, Copy, Debug, PartialEq, Eq, Structural)]
pub struct Rect {
    pub x: i32,
    pub y: i32,
    pub width: u32,
    pub height: u32,
    pub text_color: Rgb,
    pub enable_color_variation: bool,
    pub text_direction: TextDirection,
}

/// Errors of the layout computation.
#[derive(Clone, Copy, Debug, PartialEq, Eq, Structural)]
pub enum LayoutError {
    /// The viewport, once the margin is taken off, or the image has a zero or
    /// negative component.
    InvalidLayoutInput,
}

impl Rgb {
    pub open spec fn black() -> Rgb {
        Rgb { r: 0, g: 0, b: 0 }
    }
}

impl DisplayRect {
    /// The rectangle spanned by two corners given in any order.
    pub fn from_two_pos(a: Point, b: Point) -> (r: DisplayRect)
        ensures
            r.min.x == min(a.x as int, b.x as int),
            r.min.y == min(a.y as int, b.y as int),
            r.max.x == max(a.x as int, b.x as int),
            r.max.y == max(a.y as int, b.y as int),
    {
        DisplayRect {
            min: Point { x: if a.x <= b.x { a.x } else { b.x }, y: if a.y <= b.y { a.y } else { b.y } },
            max: Point { x: if a.x <= b.x { b.x } else { a.x }, y: if a.y <= b.y { b.y } else { a.y } },
        }
    }

    /// `v` clamped into `[lo, hi]`, first raised to `lo`, then lowered to `hi`.
    pub open spec fn clamp_coord(v: int, lo: int, hi: int) -> int {
        min(max(v, lo), hi)
    }

    pub open spec fn clamped_to_spec(self, bounds: DisplayRect) -> DisplayRect {
        DisplayRect {
            min: Point {
                x: Self::clamp_coord(self.min.x as int, bounds.min.x as int, bounds.max.x as int) as i32,
                y: Self::clamp_coord(self.min.y as int, bounds.min.y as int, bounds.max.y as int) as i32,
            },
            max: Point {
                x: Self::clamp_coord(self.max.x as int, bounds.min.x as int, bounds.max.x as int) as i32,
                y: Self::clamp_coord(self.max.y as int, bounds.min.y as int, bounds.max.y as int) as i32,
            },
        }
    }

    /// Each corner of the rectangle clamped into `bounds`.
    pub fn clamped_to(&self, bounds: &DisplayRect) -> (r: DisplayRect)
        ensures
            r == self.clamped_to_spec(*bounds),
    {
        DisplayRect {
            min: Point {
                x: clamp_i32(self.min.x, bounds.min.x, bounds.max.x),
                y: clamp_i32(self.min.y, bounds.min.y, bounds.max.y),
            },
            max: Point {
                x: clamp_i32(self.max.x, bounds.min.x, bounds.max.x),
                y: clamp_i32(self.max.y, bounds.min.y, bounds.max.y),
            },
        }
    }
}

fn clamp_i32(v: i32, lo: i32, hi: i32) -> (r: i32)
    ensures
        r == DisplayRect::clamp_coord(v as int, lo as int, hi as int),
{
    let raised = if v < lo { lo } else { v };
    if raised > hi { hi } else { raised }
}

pub open spec fn min(a: int, b: int) -> int {
    if a <= b { a } else { b }
}

pub open spec fn max(a: int, b: int) -> int {
    if a >= b { a } else { b }
}

/// Floor division by a positive divisor.
pub fn floor_div(a: i64, b: i64) -> (r: i64)
    requires
        b > 0,
    ensures
        r == a as int / b as int,
{
    if a >= 0 {
        a / b
    } else {
        let n: u64 = (-1 - a) as u64;
        let q: u64 = n / (b as u64);
        proof {
            let ai = a as int;
            let bi = b as int;
            let qi = q as int;
            assert(qi * bi <= -1 - ai < qi * bi + bi) by (nonlinear_arith)
                requires
                    qi == (-1 - ai) / bi,
                    bi > 0,
                    -1 - ai >= 0,
            ;
            assert((-qi - 1) * bi <= ai < (-qi - 1) * bi + bi) by (nonlinear_arith)
                requires
                    qi * bi <= -1 - ai < qi * bi + bi,
            ;
            vstd::arithmetic::div_mod::lemma_fundamental_div_mod_converse(ai, bi, -qi - 1, ai - (-qi - 1) * bi);
        }
        -(q as i64) - 1
    }
}

/// Computes the on-screen placement of an image and maps selections made
/// on that display back to image pixels.
#[derive(Clone, Copy, Debug, PartialEq, Eq, Structural)]
pub struct CoordinateCalculator;

/// Display size of an image of `iw` x `ih` fitted into `aw` x `ah` with its
/// aspect ratio kept: fit by width when the image is relatively wider than
/// the area, else by height. A fitted side never drops below one pixel.
pub open spec fn fitted_size(aw: int, ah: int, iw: int, ih: int) -> (int, int) {
    if iw * ah > aw * ih {
        (aw, max(1, aw * ih / iw))
    } else {
        (max(1, ah * iw / ih), ah)
    }
}

/// Whether a layout can be computed for this viewport and image.
pub open spec fn layout_input_valid(available: Size, image: Size) -> bool {
    available.width - VIEWPORT_MARGIN > 0 && available.height - VIEWPORT_MARGIN > 0
        && image.width > 0 && image.height > 0
}

/// Display offset `d` scaled by `image_len / display_len` and clamped to
/// `[0, image_len - 1]`, before rounding: counted in units of
/// `1 / display_len` of an image pixel.
pub open spec fn scaled_offset(d: int, display_len: int, image_len: int) -> int {
    DisplayRect::clamp_coord(d * image_len, 0, (image_len - 1) * display_len)
}

/// Image coordinate of display offset `d`: the scaled, clamped offset
/// rounded down.
pub open spec fn map_origin(d: int, display_len: int, image_len: int) -> int {
    scaled_offset(d, display_len, image_len) / display_len
}

/// Image extent of display extent `e` whose origin is at display offset
/// `d`: the scaled extent, at least one pixel, cut at the distance from the
/// unrounded scaled origin to the image's far edge, then rounded down.
pub open spec fn map_extent(e: int, d: int, display_len: int, image_len: int) -> int {
    min(
        max(e * image_len / display_len, 1),
        (image_len * display_len - scaled_offset(d, display_len, image_len)) / display_len,
    )
}

/// A mapped axis starts inside the image, is at least one pixel long and
/// ends at the image's far edge at the latest.
pub proof fn lemma_axis_in_image(d: int, e: int, display_len: int, image_len: int)
    requires
        display_len > 0,
        image_len > 0,
    ensures
        0 <= map_origin(d, display_len, image_len) <= image_len - 1,
        1 <= map_extent(e, d, display_len, image_len),
        map_origin(d, display_len, image_len) + map_extent(e, d, display_len, image_len) <= image_len,
{
    let dl = display_len;
    let il = image_len;
    let a = scaled_offset(d, dl, il);
    let b = il * dl - a;
    assert((il - 1) * dl == il * dl - dl) by (nonlinear_arith);
    assert(0 <= (il - 1) * dl) by (nonlinear_arith)
        requires
            il >= 1,
            dl > 0,
    ;
    vstd::arithmetic::div_mod::lemma_div_pos_is_pos(a, dl);
    vstd::arithmetic::div_mod::lemma_div_is_ordered(a, (il - 1) * dl, dl);
    vstd::arithmetic::div_mod::lemma_div_multiples_vanish(il - 1, dl);
    assert(dl * (il - 1) == (il - 1) * dl) by (nonlinear_arith);
    vstd::arithmetic::div_mod::lemma_div_is_ordered(dl, b, dl);
    vstd::arithmetic::div_mod::lemma_div_by_self(dl);
    vstd::arithmetic::div_mod::lemma_fundamental_div_mod(a, dl);
    vstd::arithmetic::div_mod::lemma_fundamental_div_mod(b, dl);
    vstd::arithmetic::div_mod::lemma_mod_pos_bound(a, dl);
    vstd::arithmetic::div_mod::lemma_mod_pos_bound(b, dl);
    let qa = a / dl;
    let qb = b / dl;
    assert(qa + qb <= il) by (nonlinear_arith)
        requires
            a == dl * qa + a % dl,
            b == dl * qb + b % dl,
            a % dl >= 0,
            b % dl >= 0,
            a + b == il * dl,
            dl > 0,
    ;
}

/// Whether a size can serve as the scale of a mapping.
pub open spec fn positive_size(s: Size) -> bool {
    s.width > 0 && s.height > 0
}

/// The image-space rectangle for display rectangle `ui`; color fields at
/// their defaults.
pub open spec fn mapped_rect(ui: DisplayRect, image_rect: DisplayRect, display: Size, image: Size) -> (int, int, int, int) {
    let x = map_origin(ui.min.x - image_rect.min.x, display.width as int, image.width as int);
    let y = map_origin(ui.min.y - image_rect.min.y, display.height as int, image.height as int);
    (
        x,
        y,
        map_extent(ui.max.x - ui.min.x, ui.min.x - image_rect.min.x, display.width as int, image.width as int),
        map_extent(ui.max.y - ui.min.y, ui.min.y - image_rect.min.y, display.height as int, image.height as int),
    )
}

/// Whether pixel `(x, y)` lies in the selection `r`.
pub open spec fn rect_contains(r: Rect, x: int, y: int) -> bool {
    r.x <= x < r.x + r.width && r.y <= y < r.y + r.height
}

/// Whether pixel `(x, y)` lies in the selection `r`.
pub fn rect_contains_exec(r: &Rect, x: u32, y: u32) -> (b: bool)
    ensures
        b == rect_contains(*r, x as int, y as int),
{
    let x = x as i64;
    let y = y as i64;
    r.x as i64 <= x && x < r.x as i64 + r.width as i64 && r.y as i64 <= y && y < r.y as i64 + r.height as i64
}

/// Whether `r` lies within an image of `image` and has no empty side.
pub open spec fn rect_in_image(r: Rect, image: Size) -> bool {
    0 <= r.x && 0 <= r.y && r.width >= 1 && r.height >= 1
        && r.x + r.width <= image.width && r.y + r.height <= image.height
}

proof fn lemma_scaled_side_bounded(a: int, n: int, d: int, limit: int)
    requires
        d > 0,
        a * n >= 0,
        a * n <= d * limit,
    ensures
        a * n / d <= limit,
{
    vstd::arithmetic::div_mod::lemma_div_is_ordered(a * n, d * limit, d);
    vstd::arithmetic::div_mod::lemma_div_multiples_vanish(limit, d);
}

/// The display rectangle covering `r` when the display shows the image at
/// full size from the origin.
pub open spec fn identity_display_rect(r: Rect) -> DisplayRect {
    DisplayRect {
        min: Point { x: r.x, y: r.y },
        max: Point { x: (r.x + r.width) as i32, y: (r.y + r.height) as i32 },
    }
}

/// Whatever display rectangle is picked (inside, straddling or wholly outside
/// the displayed image, or of zero area), the mapped rectangle lies within
/// `[0, width) x [0, height)` of the image and has both sides at least one
/// pixel long.
pub proof fn lemma_mapped_rect_in_image(ui: DisplayRect, image_rect: DisplayRect, display: Size, image: Size)
    requires
        positive_size(display),
        positive_size(image),
    ensures
        ({
            let m = mapped_rect(ui, image_rect, display, image);
            &&& 0 <= m.0 && m.0 + m.2 <= image.width && m.2 >= 1
            &&& 0 <= m.1 && m.1 + m.3 <= image.height && m.3 >= 1
        }),
{
    lemma_axis_in_image(ui.min.x - image_rect.min.x, ui.max.x - ui.min.x, display.width as int, image.width as int);
    lemma_axis_in_image(ui.min.y - image_rect.min.y, ui.max.y - ui.min.y, display.height as int, image.height as int);
}

/// Clamping is idempotent: a rectangle that already lies inside the image,
/// mapped through a display that shows the image at full size, comes back
/// unchanged.
pub proof fn lemma_mapping_fixes_in_image_rect(r: Rect, image: Size)
    requires
        positive_size(image),
        rect_in_image(r, image),
    ensures
        mapped_rect(
            identity_display_rect(r),
            DisplayRect { min: Point { x: 0, y: 0 }, max: Point { x: image.width, y: image.height } },
            image,
            image,
        ) == (r.x as int, r.y as int, r.width as int, r.height as int),
{
    lemma_axis_identity(r.x as int, r.width as int, image.width as int);
    lemma_axis_identity(r.y as int, r.height as int, image.height as int);
}

proof fn lemma_axis_identity(x: int, w: int, len: int)
    requires
        0 <= x,
        1 <= w,
        x + w <= len,
    ensures
        map_origin(x, len, len) == x,
        map_extent(w, x, len, len) == w,
{
    assert(x * len <= (len - 1) * len) by (nonlinear_arith)
        requires
            0 <= x <= len - 1,
    ;
    assert(0 <= x * len) by (nonlinear_arith)
        requires
            0 <= x,
            len > 0,
    ;
    assert(len * len - x * len == (len - x) * len) by (nonlinear_arith);
    vstd::arithmetic::div_mod::lemma_div_multiples_vanish(x, len);
    vstd::arithmetic::div_mod::lemma_div_multiples_vanish(len - x, len);
    vstd::arithmetic::div_mod::lemma_div_multiples_vanish(w, len);
    assert(x * len == len * x) by (nonlinear_arith);
    assert((len - x) * len == len * (len - x)) by (nonlinear_arith);
    assert(w * len == len * w) by (nonlinear_arith);
}

fn fit_axis(a: i64, num: i64, den: i64) -> (r: i64)
    requires
        0 < a <= 0x1_0000_0000,
        0 < num < 0x8000_0000,
        0 < den < 0x8000_0000,
    ensures
        r == max(1, a as int * num as int / den as int),
{
    assert(0 <= a * num <= 0x1_0000_0000 * 0x7fff_ffff) by (nonlinear_arith)
        requires
            0 < a <= 0x1_0000_0000,
            0 < num < 0x8000_0000,
    ;
    let q: i64 = (a * num) / den;
    if q < 1 { 1 } else { q }
}

/// Maps one axis: the origin and the extent in image pixels.
pub(crate) fn map_axis(d: i64, e: i64, display_len: i64, image_len: i32) -> (r: (i32, u32))
    requires
        -0x1_0000_0000 < d < 0x1_0000_0000,
        -0x1_0000_0000 < e < 0x1_0000_0000,
        0 < display_len < 0x1_0000_0000,
        image_len > 0,
    ensures
        r.0 == map_origin(d as int, display_len as int, image_len as int),
        r.1 == map_extent(e as int, d as int, display_len as int, image_len as int),
        0 <= r.0 < image_len,
        1 <= r.1 <= image_len - r.0,
{
    let dl = display_len;
    let il = image_len as i64;
    proof {
        lemma_axis_in_image(d as int, e as int, dl as int, il as int);
    }
    assert(-0x1_0000_0000 * 0x7fff_ffff <= d * il <= 0x1_0000_0000 * 0x7fff_ffff) by (nonlinear_arith)
        requires
            -0x1_0000_0000 < d < 0x1_0000_0000,
            0 < il < 0x8000_0000,
    ;
    assert(-0x1_0000_0000 * 0x7fff_ffff <= e * il <= 0x1_0000_0000 * 0x7fff_ffff) by (nonlinear_arith)
        requires
            -0x1_0000_0000 < e < 0x1_0000_0000,
            0 < il < 0x8000_0000,
    ;
    assert(0 <= (il - 1) * dl <= il * dl <= 0x7fff_ffff * 0xffff_ffff) by (nonlinear_arith)
        requires
            0 < dl < 0x1_0000_0000,
            0 < il < 0x8000_0000,
    ;
    let scaled: i64 = d * il;
    let top: i64 = (il - 1) * dl;
    let offset: i64 = if scaled < 0 {
        0
    } else if scaled > top {
        top
    } else {
        scaled
    };
    let origin: i64 = offset / dl;
    let room: i64 = (il * dl - offset) / dl;
    let scaled_extent = floor_div(e * il, dl);
    let raised: i64 = if scaled_extent < 1 { 1 } else { scaled_extent };
    let extent: i64 = if raised > room { room } else { raised };
    (origin as i32, extent as u32)
}

impl CoordinateCalculator {
    pub fn new() -> (r: CoordinateCalculator)
        ensures
            r == CoordinateCalculator,
    {
        CoordinateCalculator
    }

    /// Fits an image into the viewport less its margin, keeping the aspect
    /// ratio, and anchors it at the viewport's top-left corner. Returns the
    /// display size and the rectangle the image occupies.
    pub fn calculate_image_display(&self, available_size: Size, image_size: Size) -> (r: Result<(Size, DisplayRect), LayoutError>)
        ensures
            match r {
                Ok((size, rect)) => {
                    &&& layout_input_valid(available_size, image_size)
                    &&& (size.width as int, size.height as int) == fitted_size(
                        available_size.width - VIEWPORT_MARGIN,
                        available_size.height - VIEWPORT_MARGIN,
                        image_size.width as int,
                        image_size.height as int,
                    )
                    &&& positive_size(size)
                    &&& rect == DisplayRect { min: Point { x: 0, y: 0 }, max: Point { x: size.width, y: size.height } }
                },
                Err(e) => !layout_input_valid(available_size, image_size) && e == LayoutError::InvalidLayoutInput,
            },
    {
        let aw: i64 = available_size.width as i64 - VIEWPORT_MARGIN as i64;
        let ah: i64 = available_size.height as i64 - VIEWPORT_MARGIN as i64;
        let iw: i64 = image_size.width as i64;
        let ih: i64 = image_size.height as i64;
        if aw <= 0 || ah <= 0 || iw <= 0 || ih <= 0 {
            return Err(LayoutError::InvalidLayoutInput);
        }
        assert(0 < iw * ah < 0x8000_0000 * 0x8000_0000) by (nonlinear_arith)
            requires
                0 < iw < 0x8000_0000,
                0 < ah < 0x8000_0000,
        ;
        assert(0 < aw * ih < 0x8000_0000 * 0x8000_0000) by (nonlinear_arith)
            requires
                0 < aw < 0x8000_0000,
                0 < ih < 0x8000_0000,
        ;
        let (w, h): (i64, i64) = if iw * ah > aw * ih {
            let h = fit_axis(aw, ih, iw);
            proof {
                lemma_scaled_side_bounded(aw as int, ih as int, iw as int, ah as int);
            }
            (aw, h)
        } else {
            let w = fit_axis(ah, iw, ih);
            proof {
                lemma_scaled_side_bounded(ah as int, iw as int, ih as int, aw as int);
            }
            (w, ah)
        };
        let size = Size { width: w as i32, height: h as i32 };
        Ok((size, DisplayRect { min: Point { x: 0, y: 0 }, max: Point { x: size.width, y: size.height } }))
    }

    /// Maps a rectangle picked in display space to image pixels: the origin,
    /// relative to where the image is displayed, is scaled by
    /// `image_size / display_size` and clamped into the image; each extent
    /// is scaled, raised to one pixel and cut at the image's edge. The
    /// result always lies inside the image; its direction is `Right`, color
    /// variation is off, and the text color is `text_color`.
    pub fn ui_to_image_coords(
        &self,
        ui_rect: DisplayRect,
        image_rect: DisplayRect,
        display_size: Size,
        image_size: Size,
        text_color: Rgb,
    ) -> (r: Rect)
        requires
            positive_size(display_size),
            positive_size(image_size),
        ensures
            (r.x as int, r.y as int, r.width as int, r.height as int) == mapped_rect(ui_rect, image_rect, display_size, image_size),
            rect_in_image(r, image_size),
            r.text_color == text_color,
            !r.enable_color_variation,
            r.text_direction == TextDirection::Right,
    {
        let (x, width) = map_axis(
            ui_rect.min.x as i64 - image_rect.min.x as i64,
            ui_rect.max.x as i64 - ui_rect.min.x as i64,
            display_size.width as i64,
            image_size.width,
        );
        let (y, height) = map_axis(
            ui_rect.min.y as i64 - image_rect.min.y as i64,
            ui_rect.max.y as i64 - ui_rect.min.y as i64,
            display_size.height as i64,
            image_size.height,
        );
        Rect {
            x,
            y,
            width,
            height,
            text_color,
            enable_color_variation: false,
            text_direction: TextDirection::Right,
        }
    }
}

} // verus!
