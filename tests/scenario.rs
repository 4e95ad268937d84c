use assext::batch::{number_label, FileManager};
use assext::color::{tint_for_hue, vary_pixel};
use assext::compositor::{scratch_canvas, text_anchor, turn_center, SCRATCH_MARGIN};
use assext::geometry::{Rect, Rgb, TextDirection};
use assext::hue::hue_for_index;
use assext::processor::{draw_rotated_text, finish_frame, ImageProcessor};
use assext::raster::{Pixel, Raster};

/// A 400 x 300 source: a gradient with dark and bright bands.
fn source() -> Raster {
    let mut bytes = Vec::new();
    for y in 0..300u32 {
        for x in 0..400u32 {
            if y < 20 {
                bytes.extend_from_slice(&[5, 5, 5, 255]);
            } else if y > 280 {
                bytes.extend_from_slice(&[250, 250, 250, 255]);
            } else {
                let v = ((x + y) % 200 + 30) as u8;
                bytes.extend_from_slice(&[v, (v / 2) + 40, 255 - v, 255]);
            }
        }
    }
    Raster::from_rgba_bytes(400, 300, &bytes).unwrap()
}

/// A stand-in for rendered glyphs: a solid 30 x 12 block with the margin.
fn rendered_label(color: Rgb) -> Raster {
    let mut s = scratch_canvas(30, 12).unwrap();
    for y in 0..12 {
        for x in 0..30 {
            s.put_pixel(SCRATCH_MARGIN + x, SCRATCH_MARGIN + y, Pixel { r: color.r, g: color.g, b: color.b, a: 255 });
        }
    }
    s
}

fn selection(direction: TextDirection, variation: bool) -> Rect {
    Rect {
        x: 50,
        y: 50,
        width: 100,
        height: 80,
        text_color: Rgb { r: 200, g: 30, b: 30 },
        enable_color_variation: variation,
        text_direction: direction,
    }
}

fn inside(rect: &Rect, x: u32, y: u32) -> bool {
    x as i32 >= rect.x && (x as i32) < rect.x + rect.width as i32 && y as i32 >= rect.y && (y as i32) < rect.y + rect.height as i32
}

fn frame(processor: &ImageProcessor, rect: &Rect, index: u32) -> Raster {
    let mut canvas = processor.fresh_canvas();
    draw_rotated_text(&mut canvas, &rendered_label(rect.text_color), rect, 30, 12);
    finish_frame(&mut canvas, rect, index);
    canvas
}

#[test]
fn batch_of_three_with_color_variation() {
    let original = source();
    let processor = ImageProcessor::new(source());
    let rect = selection(TextDirection::Down, true);
    let fm = FileManager::new("output", "hero", true);
    let count = 3;
    let mut outputs = Vec::new();
    for i in 1..=count {
        let label = number_label(i, count);
        assert_eq!(fm.output_png_path(i, count), format!("output/hero_{}.png", label));
        outputs.push(frame(&processor, &rect, i));
    }
    assert_eq!(outputs.len(), 3);
    assert_eq!(hue_for_index(1), 22249);
    // The source is never written.
    assert_eq!(processor.original_image().to_rgba_bytes(), original.to_rgba_bytes());
    let ink = Pixel { r: 200, g: 30, b: 30, a: 255 };
    for (k, out) in outputs.iter().enumerate() {
        let tint = tint_for_hue(hue_for_index(k as u32 + 1));
        for y in 0..300 {
            for x in 0..400 {
                let src = original.get_pixel(x, y);
                let got = out.get_pixel(x, y);
                if !inside(&rect, x, y) {
                    // Outside the selection every pixel keeps the source's bytes.
                    assert_eq!(got, src, "({}, {})", x, y);
                } else if !((85..115).contains(&x) && (84..96).contains(&y)) {
                    // Inside, away from the label, only the colour variation acts.
                    assert_eq!(got, vary_pixel(src, &tint), "({}, {})", x, y);
                } else {
                    assert_eq!(got, vary_pixel(ink, &tint));
                }
            }
        }
    }
    for a in 0..3 {
        for b in 0..3 {
            for y in 0..300 {
                for x in 0..400 {
                    if outputs[a].get_pixel(x, y) != outputs[b].get_pixel(x, y) {
                        assert!(inside(&rect, x, y));
                    }
                }
            }
        }
    }
    assert_ne!(outputs[0].to_rgba_bytes(), outputs[1].to_rgba_bytes());
    assert_ne!(outputs[1].to_rgba_bytes(), outputs[2].to_rgba_bytes());
}

#[test]
fn upright_label_lands_centred_in_the_selection() {
    let processor = ImageProcessor::new(source());
    let rect = selection(TextDirection::Down, false);
    let out = frame(&processor, &rect, 1);
    let original = source();
    // Anchor (85, 84), turning centre (100, 90): the 50 x 32 scratch's middle
    // (25, 16) lands there, so the glyph block starts at the anchor and covers
    // x 85..115 and y 84..96, centred in the selection 50..150 x 50..130.
    assert_eq!(text_anchor(&rect, 30, 12), (85, 84));
    assert_eq!(turn_center(&rect, 30, 12), (100, 90));
    let ink = Pixel { r: 200, g: 30, b: 30, a: 255 };
    for y in 0..300u32 {
        for x in 0..400u32 {
            let expected = if (85..115).contains(&x) && (84..96).contains(&y) { ink } else { original.get_pixel(x, y) };
            assert_eq!(out.get_pixel(x, y), expected, "({}, {})", x, y);
        }
    }
}

#[test]
fn turned_label_occupies_the_swapped_footprint() {
    let processor = ImageProcessor::new(source());
    let rect = selection(TextDirection::Left, false);
    let out = frame(&processor, &rect, 1);
    let ink = Pixel { r: 200, g: 30, b: 30, a: 255 };
    let mut xs = Vec::new();
    let mut ys = Vec::new();
    for y in 0..300u32 {
        for x in 0..400u32 {
            if out.get_pixel(x, y) == ink {
                xs.push(x);
                ys.push(y);
            }
        }
    }
    assert_eq!(xs.len(), 360);
    let width = xs.iter().max().unwrap() - xs.iter().min().unwrap() + 1;
    let height = ys.iter().max().unwrap() - ys.iter().min().unwrap() + 1;
    assert_eq!((width, height), (12, 30));
}

#[test]
fn upside_down_label_is_centred_in_the_selection() {
    // A 40 x 20 label turned half a turn in a 100 x 100 selection at the origin.
    let rect = Rect {
        x: 0,
        y: 0,
        width: 100,
        height: 100,
        text_color: Rgb { r: 9, g: 9, b: 9 },
        enable_color_variation: false,
        text_direction: TextDirection::Up,
    };
    assert_eq!(turn_center(&rect, 40, 20), (50, 50));
    let mut scratch = scratch_canvas(40, 20).unwrap();
    let ink = Pixel { r: 9, g: 9, b: 9, a: 255 };
    for y in 0..20 {
        for x in 0..40 {
            scratch.put_pixel(SCRATCH_MARGIN + x, SCRATCH_MARGIN + y, ink);
        }
    }
    let mut canvas = Raster::new(100, 100);
    draw_rotated_text(&mut canvas, &scratch, &rect, 40, 20);
    for y in 0..100u32 {
        for x in 0..100u32 {
            let inked = canvas.get_pixel(x, y) == ink;
            assert_eq!(inked, (31..71).contains(&x) && (41..61).contains(&y), "({}, {})", x, y);
        }
    }
}

#[test]
fn turned_label_of_odd_size_stays_within_a_pixel_of_the_middle() {
    for dir in [TextDirection::Up, TextDirection::Left, TextDirection::Right] {
        for (w, h) in [(101u32, 81u32), (100, 80), (7, 3)] {
            let rect = Rect {
                x: 10,
                y: 20,
                width: w,
                height: h,
                text_color: Rgb { r: 0, g: 0, b: 0 },
                enable_color_variation: false,
                text_direction: dir,
            };
            for (tw, th) in [(41u32, 13u32), (40, 20), (200, 90)] {
                let (cx, cy) = turn_center(&rect, tw, th);
                let mx = 10 + (w / 2) as i32;
                let my = 20 + (h / 2) as i32;
                assert!(cx == mx || cx == mx - 1, "{:?} {} {}", dir, w, tw);
                assert!(cy == my || cy == my - 1, "{:?} {} {}", dir, h, th);
            }
        }
    }
}
