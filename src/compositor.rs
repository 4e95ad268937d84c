//! Placement of a label inside the selection and the quarter-turn
//! rotate-and-copy of a rendered label into the target image.
use vstd::prelude::*;
use crate::geometry::{floor_div, max, min, Rect, TextDirection};
use crate::raster::{Pixel, Raster};

verus! {

/// Transparent border, in pixels, around text rendered into a scratch raster.
pub const SCRATCH_MARGIN: u32 = 10;

/// Smallest and largest font size, in tenths of a pixel.
pub const MIN_FONT_TENTHS: u32 = 120;
pub const MAX_FONT_TENTHS: u32 = 2000;

impl TextDirection {
    /// Clockwise rotation applied to the label, in degrees.
    pub open spec fn spec_degrees(self) -> int {
        match self {
            TextDirection::Up => 180,
            TextDirection::Down => 0,
            TextDirection::Left => 90,
            TextDirection::Right => 270,
        }
    }

    pub fn rotation_degrees(&self) -> (r: u32)
        ensures
            r == self.spec_degrees(),
    {
        match self {
            TextDirection::Up => 180,
            TextDirection::Down => 0,
            TextDirection::Left => 90,
            TextDirection::Right => 270,
        }
    }

    /// Whether the label is drawn straight into the frame at its anchor.
    /// Only upright text (`Down`, no rotation) takes this path; the other
    /// directions are rendered into a scratch raster and turned into place.
    pub fn draws_directly(&self) -> (r: bool)
        ensures
            r == (self.spec_degrees() == 0),
            r == (*self == TextDirection::Down),
    {
        match self {
            TextDirection::Down => true,
            _ => false,
        }
    }

    /// Whether the label stands on its side, so that its footprint swaps
    /// width and height.
    pub open spec fn spec_is_vertical(self) -> bool {
        self is Left || self is Right
    }

    pub fn is_vertical(&self) -> (r: bool)
        ensures
            r == self.spec_is_vertical(),
    {
        match self {
            TextDirection::Left | TextDirection::Right => true,
            _ => false,
        }
    }
}

/// Offset `(dx, dy)` turned by the direction's angle, with y pointing down:
/// `(dx cos a - dy sin a, dx sin a + dy cos a)`.
pub open spec fn rotate_offset(dir: TextDirection, dx: int, dy: int) -> (int, int) {
    match dir {
        TextDirection::Down => (dx, dy),
        TextDirection::Up => (-dx, -dy),
        TextDirection::Left => (-dy, dx),
        TextDirection::Right => (dy, -dx),
    }
}

/// The offset that `rotate_offset` turns into `(qx, qy)`.
pub open spec fn unrotate_offset(dir: TextDirection, qx: int, qy: int) -> (int, int) {
    match dir {
        TextDirection::Down => (qx, qy),
        TextDirection::Up => (-qx, -qy),
        TextDirection::Left => (qy, -qx),
        TextDirection::Right => (-qy, qx),
    }
}

/// The source position whose rotated offset from the source's middle,
/// added to `(cx, cy)`, lands on target position `(qx, qy)`.
pub open spec fn blit_source(dir: TextDirection, source: Raster, cx: int, cy: int, qx: int, qy: int) -> (int, int) {
    let d = unrotate_offset(dir, qx - cx, qy - cy);
    (d.0 + source.spec_width() / 2, d.1 + source.spec_height() / 2)
}

/// The target position that source position `(x, y)` is copied to.
pub open spec fn blit_target(dir: TextDirection, source: Raster, cx: int, cy: int, x: int, y: int) -> (int, int) {
    let d = rotate_offset(dir, x - source.spec_width() / 2, y - source.spec_height() / 2);
    (cx + d.0, cy + d.1)
}

/// Whether source position `(px, py)` comes before `(x, y)` in row order.
pub open spec fn visited_before(px: int, py: int, x: int, y: int) -> bool {
    py < y || (py == y && px < x)
}

/// Target pixel `(qx, qy)` once the source pixels before `(x, y)` in row
/// order have been copied: the source pixel that lands there, when it has
/// been visited and is not fully transparent, else the target pixel as it was.
pub open spec fn partially_blitted(
    target: Raster,
    source: Raster,
    cx: int,
    cy: int,
    dir: TextDirection,
    x: int,
    y: int,
    qx: int,
    qy: int,
) -> Pixel {
    let p = blit_source(dir, source, cx, cy, qx, qy);
    if source.in_bounds(p.0, p.1) && visited_before(p.0, p.1, x, y) && source.spec_pixel(p.0, p.1).a > 0 {
        source.spec_pixel(p.0, p.1)
    } else {
        target.spec_pixel(qx, qy)
    }
}

/// Target pixel `(qx, qy)` after the whole source has been copied.
pub open spec fn blitted(target: Raster, source: Raster, cx: int, cy: int, dir: TextDirection, qx: int, qy: int) -> Pixel {
    let p = blit_source(dir, source, cx, cy, qx, qy);
    if source.in_bounds(p.0, p.1) && source.spec_pixel(p.0, p.1).a > 0 {
        source.spec_pixel(p.0, p.1)
    } else {
        target.spec_pixel(qx, qy)
    }
}

proof fn lemma_rotation_inverse(dir: TextDirection, dx: int, dy: int)
    ensures
        ({
            let q = rotate_offset(dir, dx, dy);
            unrotate_offset(dir, q.0, q.1) == (dx, dy)
        }),
        ({
            let d = unrotate_offset(dir, dx, dy);
            rotate_offset(dir, d.0, d.1) == (dx, dy)
        }),
{
}

/// Copies `source` into `target`, turned by the direction's angle about the
/// source's middle and placed so that the middle lands on
/// `(center_x, center_y)`. Nearest-neighbour, no blending: a source pixel
/// with non-zero alpha that lands inside the target replaces the target
/// pixel; every other target pixel stays as it was.
pub fn copy_rotated_image(target: &mut Raster, source: &Raster, center_x: i32, center_y: i32, direction: TextDirection)
    requires
        old(target).wf(),
        source.wf(),
    ensures
        final(target).wf(),
        final(target).spec_width() == old(target).spec_width(),
        final(target).spec_height() == old(target).spec_height(),
        forall|qx: int, qy: int| #[trigger] final(target).in_bounds(qx, qy)
            ==> final(target).spec_pixel(qx, qy) == blitted(*old(target), *source, center_x as int, center_y as int, direction, qx, qy),
{
    let ghost initial = *target;
    let ghost cx = center_x as int;
    let ghost cy = center_y as int;
    let source_width: u32 = source.width();
    let source_height: u32 = source.height();
    let target_width: u32 = target.width();
    let target_height: u32 = target.height();
    let half_width: i64 = (source_width / 2) as i64;
    let half_height: i64 = (source_height / 2) as i64;
    let mut y: u32 = 0;
    while y < source_height
        invariant
            y <= source_height,
            source_width == source.spec_width(),
            source_height == source.spec_height(),
            source.wf(),
            cx == center_x as int,
            cy == center_y as int,
            half_width == source.spec_width() / 2,
            half_height == source.spec_height() / 2,
            target.wf(),
            target.spec_width() == initial.spec_width() == target_width,
            target.spec_height() == initial.spec_height() == target_height,
            forall|qx: int, qy: int| #[trigger] target.in_bounds(qx, qy)
                ==> target.spec_pixel(qx, qy) == partially_blitted(initial, *source, cx, cy, direction, 0, y as int, qx, qy),
        decreases source_height - y,
    {
        let mut x: u32 = 0;
        while x < source_width
            invariant
                x <= source_width,
                y < source_height,
                source_width == source.spec_width(),
                source_height == source.spec_height(),
                source.wf(),
                cx == center_x as int,
                cy == center_y as int,
                half_width == source.spec_width() / 2,
                half_height == source.spec_height() / 2,
                target.wf(),
                target.spec_width() == initial.spec_width() == target_width,
                target.spec_height() == initial.spec_height() == target_height,
                forall|qx: int, qy: int| #[trigger] target.in_bounds(qx, qy)
                    ==> target.spec_pixel(qx, qy) == partially_blitted(initial, *source, cx, cy, direction, x as int, y as int, qx, qy),
            decreases source_width - x,
        {
            let rel_x: i64 = x as i64 - half_width;
            let rel_y: i64 = y as i64 - half_height;
            let (new_x, new_y): (i64, i64) = match direction {
                TextDirection::Down => (rel_x, rel_y),
                TextDirection::Up => (-rel_x, -rel_y),
                TextDirection::Left => (-rel_y, rel_x),
                TextDirection::Right => (rel_y, -rel_x),
            };
            assert((new_x as int, new_y as int) == rotate_offset(direction, rel_x as int, rel_y as int));
            let target_x: i64 = center_x as i64 + new_x;
            let target_y: i64 = center_y as i64 + new_y;
            let ghost before = *target;
            proof {
                lemma_rotation_inverse(direction, x as int - half_width, y as int - half_height);
            }
            if 0 <= target_x && target_x < target_width as i64 && 0 <= target_y && target_y < target_height as i64 {
                let source_pixel = source.get_pixel(x, y);
                if source_pixel.a > 0 {
                    target.put_pixel(target_x as u32, target_y as u32, source_pixel);
                }
            }
            proof {
                assert forall|qx: int, qy: int| #[trigger] target.in_bounds(qx, qy) implies target.spec_pixel(qx, qy)
                    == partially_blitted(initial, *source, cx, cy, direction, x + 1, y as int, qx, qy) by {
                    assert(before.in_bounds(qx, qy));
                    let p = blit_source(direction, *source, cx, cy, qx, qy);
                    lemma_rotation_inverse(direction, qx - cx, qy - cy);
                    if p == (x as int, y as int) {
                        let d = unrotate_offset(direction, qx - cx, qy - cy);
                        assert(d.0 == rel_x && d.1 == rel_y);
                        assert(rotate_offset(direction, d.0, d.1) == (qx - cx, qy - cy));
                        assert(qx == target_x && qy == target_y);
                    }
                }
            }
            x = x + 1;
        }
        proof {
            assert forall|qx: int, qy: int| #[trigger] target.in_bounds(qx, qy) implies target.spec_pixel(qx, qy)
                == partially_blitted(initial, *source, cx, cy, direction, 0, y + 1, qx, qy) by {
                assert(target.spec_pixel(qx, qy) == partially_blitted(initial, *source, cx, cy, direction, x as int, y as int, qx, qy));
            }
        }
        y = y + 1;
    }
    proof {
        assert forall|qx: int, qy: int| #[trigger] target.in_bounds(qx, qy) implies target.spec_pixel(qx, qy)
            == blitted(initial, *source, cx, cy, direction, qx, qy) by {
            assert(target.spec_pixel(qx, qy) == partially_blitted(initial, *source, cx, cy, direction, 0, y as int, qx, qy));
        }
    }
}

/// A blit with `Up` is the upright blit of the same raster turned half a
/// turn about the centre: at offset `-d` from the centre it shows exactly
/// what the upright (`Down`) blit shows at offset `d`, so the non-transparent
/// regions of the two are identical up to that rotation, and turning an
/// offset half a turn twice gives it back.
pub proof fn lemma_half_turn_mirrors_upright(target: Raster, source: Raster, cx: int, cy: int, dx: int, dy: int)
    requires
        target.in_bounds(cx + dx, cy + dy),
        target.in_bounds(cx - dx, cy - dy),
    ensures
        rotate_offset(TextDirection::Up, rotate_offset(TextDirection::Up, dx, dy).0, rotate_offset(TextDirection::Up, dx, dy).1) == (dx, dy),
        ({
            let px = dx + source.spec_width() / 2;
            let py = dy + source.spec_height() / 2;
            let upright = blitted(target, source, cx, cy, TextDirection::Down, cx + dx, cy + dy);
            let turned = blitted(target, source, cx, cy, TextDirection::Up, cx - dx, cy - dy);
            if source.in_bounds(px, py) && source.spec_pixel(px, py).a > 0 {
                upright == source.spec_pixel(px, py) && turned == source.spec_pixel(px, py)
            } else {
                upright == target.spec_pixel(cx + dx, cy + dy) && turned == target.spec_pixel(cx - dx, cy - dy)
            }
        }),
{
}

/// `content` centred in `[origin, origin + extent)`, rounding down.
pub open spec fn centered(origin: int, extent: int, content: int) -> int {
    origin + (extent - content) / 2
}

/// Width and height of the area a label of `text_width` x `text_height`
/// covers once turned.
pub open spec fn footprint(dir: TextDirection, text_width: int, text_height: int) -> (int, int) {
    if dir.spec_is_vertical() {
        (text_height, text_width)
    } else {
        (text_width, text_height)
    }
}

/// Where a label of the given size is anchored in the selection: its
/// footprint centred in the rectangle.
pub open spec fn anchor_spec(rect: Rect, text_width: int, text_height: int) -> (int, int) {
    let f = footprint(rect.text_direction, text_width, text_height);
    (centered(rect.x as int, rect.width as int, f.0), centered(rect.y as int, rect.height as int, f.1))
}

/// Whether the rectangle lies in the non-negative quadrant and its far
/// edges fit an `i32`.
pub open spec fn rect_in_plane(rect: Rect) -> bool {
    0 <= rect.x && 0 <= rect.y && rect.x + rect.width <= i32::MAX && rect.y + rect.height <= i32::MAX
}

/// The anchor of a label measured at `text_width` x `text_height` pixels in
/// `rect`: the top-left corner for upright text, the turning centre for the
/// other directions. A vertical label swaps width and height first.
/// Fractions are dropped towards the top-left.
pub fn text_anchor(rect: &Rect, text_width: u32, text_height: u32) -> (r: (i32, i32))
    requires
        rect_in_plane(*rect),
        text_width <= i32::MAX,
        text_height <= i32::MAX,
    ensures
        (r.0 as int, r.1 as int) == anchor_spec(*rect, text_width as int, text_height as int),
{
    let (along_x, along_y): (u32, u32) = if rect.text_direction.is_vertical() {
        (text_height, text_width)
    } else {
        (text_width, text_height)
    };
    let dx = floor_div(rect.width as i64 - along_x as i64, 2);
    let dy = floor_div(rect.height as i64 - along_y as i64, 2);
    ((rect.x as i64 + dx) as i32, (rect.y as i64 + dy) as i32)
}

/// The point a label turns about: the middle of its footprint centred in
/// `rect`, which is the middle of the selection to within a pixel.
pub open spec fn turn_center_spec(rect: Rect, text_width: int, text_height: int) -> (int, int) {
    let a = anchor_spec(rect, text_width, text_height);
    let f = footprint(rect.text_direction, text_width, text_height);
    (a.0 + f.0 / 2, a.1 + f.1 / 2)
}

/// Where the middle of a label measured at `text_width` x `text_height`
/// pixels goes in `rect`: the middle of its centred footprint. A label
/// rendered with equal margins and turned about this point is centred in
/// the selection.
pub fn turn_center(rect: &Rect, text_width: u32, text_height: u32) -> (r: (i32, i32))
    requires
        rect_in_plane(*rect),
        text_width <= i32::MAX,
        text_height <= i32::MAX,
    ensures
        (r.0 as int, r.1 as int) == turn_center_spec(*rect, text_width as int, text_height as int),
        rect.x + rect.width / 2 - 1 <= r.0 <= rect.x + rect.width / 2,
        rect.y + rect.height / 2 - 1 <= r.1 <= rect.y + rect.height / 2,
{
    let (x, y) = text_anchor(rect, text_width, text_height);
    let (along_x, along_y): (u32, u32) = if rect.text_direction.is_vertical() {
        (text_height, text_width)
    } else {
        (text_width, text_height)
    };
    ((x as i64 + (along_x / 2) as i64) as i32, (y as i64 + (along_y / 2) as i64) as i32)
}

/// Font size, in tenths of a pixel, for a label of `len` bytes in a
/// `w` x `h` rectangle: the smaller of `w / (0.6 len)` and `0.8 h`, kept
/// within 12 and 200 pixels.
pub open spec fn font_size_tenths(len: int, w: int, h: int) -> int {
    let by_height = 8 * h;
    let fitted = if len == 0 { by_height } else { min(100 * w / (6 * len), by_height) };
    min(max(fitted, MIN_FONT_TENTHS as int), MAX_FONT_TENTHS as int)
}

/// The font size for `text` in a rectangle of the given size, in tenths of
/// a pixel. A glyph is taken to be about 0.6 of the size wide, and the
/// label to use 80% of the height.
pub fn calculate_font_size(text: &str, rect_width: u32, rect_height: u32) -> (r: u32)
    ensures
        r == font_size_tenths(text.len() as int, rect_width as int, rect_height as int),
        MIN_FONT_TENTHS <= r <= MAX_FONT_TENTHS,
{
    let len: u128 = text.len() as u128;
    let by_height: u128 = 8 * rect_height as u128;
    let fitted: u128 = if len == 0 {
        by_height
    } else {
        let by_width: u128 = (100 * rect_width as u128) / (6 * len);
        if by_width <= by_height { by_width } else { by_height }
    };
    let raised: u128 = if fitted < MIN_FONT_TENTHS as u128 { MIN_FONT_TENTHS as u128 } else { fitted };
    let size: u128 = if raised > MAX_FONT_TENTHS as u128 { MAX_FONT_TENTHS as u128 } else { raised };
    size as u32
}

/// A transparent raster for rendering a label of `text_width` x
/// `text_height` pixels with `SCRATCH_MARGIN` free on every side; `None`
/// when that raster cannot be held.
pub fn scratch_canvas(text_width: u32, text_height: u32) -> (r: Option<Raster>)
    ensures
        r is Some <==> {
            &&& text_width + 2 * SCRATCH_MARGIN <= u32::MAX
            &&& text_height + 2 * SCRATCH_MARGIN <= u32::MAX
            &&& (text_width + 2 * SCRATCH_MARGIN) * (text_height + 2 * SCRATCH_MARGIN) <= usize::MAX
        },
        r matches Some(img) ==> {
            &&& img.wf()
            &&& img.spec_width() == text_width + 2 * SCRATCH_MARGIN
            &&& img.spec_height() == text_height + 2 * SCRATCH_MARGIN
            &&& forall|x: int, y: int| img.in_bounds(x, y) ==> #[trigger] img.spec_pixel(x, y) == Pixel::transparent()
        },
{
    let w: u64 = text_width as u64 + 2 * SCRATCH_MARGIN as u64;
    let h: u64 = text_height as u64 + 2 * SCRATCH_MARGIN as u64;
    if w > u32::MAX as u64 || h > u32::MAX as u64 {
        return None;
    }
    assert(w * h <= 0xffff_ffff * 0xffff_ffff) by (nonlinear_arith)
        requires
            w <= 0xffff_ffff,
            h <= 0xffff_ffff,
    ;
    if (w * h) as u128 > usize::MAX as u128 {
        return None;
    }
    Some(Raster::new(w as u32, h as u32))
}

} // verus!
