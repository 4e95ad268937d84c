//! The frame pipeline: a fresh copy of the source image per frame, the
//! label placed in the selection, then the optional colour variation.
use vstd::prelude::*;
use crate::color::{apply_color_variation, tint_spec, varied_pixel};
use crate::compositor::{
    anchor_spec, blit_target, blitted, copy_rotated_image, lemma_half_turn_mirrors_upright, rect_in_plane, turn_center,
    turn_center_spec, SCRATCH_MARGIN,
};
use crate::geometry::{rect_contains, Rect, TextDirection};
use crate::hue::hue_spec;
use crate::raster::{Pixel, Raster};

verus! {

/// Holds the source image of a batch; every frame starts from a copy of it.
pub struct ImageProcessor {
    original_image: Raster,
}

impl ImageProcessor {
    pub closed spec fn spec_source(&self) -> Raster {
        self.original_image
    }

    pub closed spec fn wf(&self) -> bool {
        self.original_image.wf()
    }

    pub fn new(original_image: Raster) -> (r: ImageProcessor)
        requires
            original_image.wf(),
        ensures
            r.wf(),
            r.spec_source() == original_image,
    {
        ImageProcessor { original_image }
    }

    /// The source image, read only.
    pub fn original_image(&self) -> (r: &Raster)
        ensures
            *r == self.spec_source(),
    {
        &self.original_image
    }

    /// A new buffer holding the source image, for one frame; the source
    /// itself is never written.
    pub fn fresh_canvas(&self) -> (r: Raster)
        requires
            self.wf(),
        ensures
            r.wf(),
            r.same_image(&self.spec_source()),
    {
        self.original_image.duplicate()
    }
}

/// Places a label that was rendered into `scratch` with `SCRATCH_MARGIN`
/// free on every side: the scratch is turned by the selection's direction
/// about its middle, which lands on the turning centre, the middle of the
/// label's centred footprint. The label thus ends up centred in `rect` to
/// within a pixel.
pub fn draw_rotated_text(canvas: &mut Raster, scratch: &Raster, rect: &Rect, text_width: u32, text_height: u32)
    requires
        old(canvas).wf(),
        scratch.wf(),
        rect_in_plane(*rect),
        text_width <= i32::MAX,
        text_height <= i32::MAX,
    ensures
        final(canvas).wf(),
        final(canvas).spec_width() == old(canvas).spec_width(),
        final(canvas).spec_height() == old(canvas).spec_height(),
        ({
            let c = turn_center_spec(*rect, text_width as int, text_height as int);
            &&& rect.x + rect.width / 2 - 1 <= c.0 <= rect.x + rect.width / 2
            &&& rect.y + rect.height / 2 - 1 <= c.1 <= rect.y + rect.height / 2
            &&& forall|qx: int, qy: int| #[trigger] final(canvas).in_bounds(qx, qy)
                ==> final(canvas).spec_pixel(qx, qy) == blitted(*old(canvas), *scratch, c.0, c.1, rect.text_direction, qx, qy)
        }),
{
    let (x, y) = turn_center(rect, text_width, text_height);
    copy_rotated_image(canvas, scratch, x, y, rect.text_direction);
}

/// A label placed upside down is the upright label turned half a turn.
/// Both turn about the same centre; the upright placement puts the
/// scratch's glyph origin `(SCRATCH_MARGIN, SCRATCH_MARGIN)` on the label's
/// anchor, where upright text is drawn; and at offset `-d` from the centre
/// the upside-down placement shows exactly what the upright one shows at
/// offset `d`, so their non-transparent pixels match up to that rotation.
pub proof fn lemma_upside_down_label_is_upright_label_turned(
    canvas: Raster,
    scratch: Raster,
    rect: Rect,
    text_width: int,
    text_height: int,
    dx: int,
    dy: int,
)
    requires
        rect.text_direction == TextDirection::Up,
        0 <= text_width,
        0 <= text_height,
        scratch.spec_width() == text_width + 2 * SCRATCH_MARGIN,
        scratch.spec_height() == text_height + 2 * SCRATCH_MARGIN,
        canvas.in_bounds(turn_center_spec(rect, text_width, text_height).0 + dx, turn_center_spec(rect, text_width, text_height).1 + dy),
        canvas.in_bounds(turn_center_spec(rect, text_width, text_height).0 - dx, turn_center_spec(rect, text_width, text_height).1 - dy),
    ensures
        ({
            let upright = Rect { text_direction: TextDirection::Down, ..rect };
            let c = turn_center_spec(rect, text_width, text_height);
            let a = anchor_spec(rect, text_width, text_height);
            &&& turn_center_spec(upright, text_width, text_height) == c
            &&& anchor_spec(upright, text_width, text_height) == a
            &&& blit_target(TextDirection::Down, scratch, c.0, c.1, SCRATCH_MARGIN as int, SCRATCH_MARGIN as int) == a
            &&& ({
                let px = dx + scratch.spec_width() / 2;
                let py = dy + scratch.spec_height() / 2;
                let up = blitted(canvas, scratch, c.0, c.1, TextDirection::Up, c.0 - dx, c.1 - dy);
                let down = blitted(canvas, scratch, c.0, c.1, TextDirection::Down, c.0 + dx, c.1 + dy);
                if scratch.in_bounds(px, py) && scratch.spec_pixel(px, py).a > 0 {
                    up == scratch.spec_pixel(px, py) && down == scratch.spec_pixel(px, py)
                } else {
                    up == canvas.spec_pixel(c.0 - dx, c.1 - dy) && down == canvas.spec_pixel(c.0 + dx, c.1 + dy)
                }
            })
        }),
{
    let c = turn_center_spec(rect, text_width, text_height);
    lemma_half_turn_mirrors_upright(canvas, scratch, c.0, c.1, dx, dy);
}

/// Pixel `(x, y)` of `canvas` after the last step of frame `index`.
pub open spec fn finished_pixel(canvas: Raster, rect: Rect, index: int, x: int, y: int) -> Pixel {
    if rect.enable_color_variation && rect_contains(rect, x, y) {
        varied_pixel(canvas.spec_pixel(x, y), tint_spec(hue_spec(index)))
    } else {
        canvas.spec_pixel(x, y)
    }
}

/// Frames differ only inside the selection: outside it, the last step of
/// any two frames leaves the canvas's pixel as it was, so frames finished
/// from the same canvas agree there byte for byte.
pub proof fn lemma_frames_differ_only_in_selection(canvas: Raster, rect: Rect, i: int, j: int, x: int, y: int)
    requires
        !rect_contains(rect, x, y),
    ensures
        finished_pixel(canvas, rect, i, x, y) == canvas.spec_pixel(x, y),
        finished_pixel(canvas, rect, i, x, y) == finished_pixel(canvas, rect, j, x, y),
{
}

/// The last step of a frame: when the selection asks for it, the colour
/// variation of frame `index` inside the selection; every pixel outside
/// the selection, and every pixel when variation is off, stays as it is.
pub fn finish_frame(canvas: &mut Raster, rect: &Rect, index: u32)
    requires
        old(canvas).wf(),
    ensures
        final(canvas).wf(),
        final(canvas).spec_width() == old(canvas).spec_width(),
        final(canvas).spec_height() == old(canvas).spec_height(),
        forall|x: int, y: int| #[trigger] final(canvas).in_bounds(x, y)
            ==> final(canvas).spec_pixel(x, y) == finished_pixel(*old(canvas), *rect, index as int, x, y),
{
    if rect.enable_color_variation {
        apply_color_variation(canvas, rect, index);
    }
}

} // verus!
