use assext::color::{apply_color_variation, tint_for_hue, vary_pixel, Tint};
use assext::geometry::{Rect, Rgb, TextDirection};
use assext::hue::hue_for_index;
use assext::raster::{Pixel, Raster};

fn region(x: i32, y: i32, width: u32, height: u32) -> Rect {
    Rect {
        x,
        y,
        width,
        height,
        text_color: Rgb { r: 0, g: 0, b: 0 },
        enable_color_variation: true,
        text_direction: TextDirection::Down,
    }
}

fn brightness_sum(p: Pixel) -> i32 {
    p.r as i32 + p.g as i32 + p.b as i32
}

#[test]
fn hue_of_index_zero_is_zero() {
    assert_eq!(hue_for_index(0), 0);
}

#[test]
fn hue_follows_the_golden_ratio() {
    // 360 * frac(i * phi) in hundredths of a degree.
    assert_eq!(hue_for_index(1), 22249);
    assert_eq!(hue_for_index(2), 8498);
    assert_eq!(hue_for_index(3), 30747);
    assert_eq!(hue_for_index(7), 11744);
    assert_eq!(hue_for_index(1), hue_for_index(1));
    assert!(hue_for_index(u32::MAX) < 36000);
}

#[test]
fn first_five_hues_are_distinct_and_spread() {
    let hues: Vec<u32> = (1..=5).map(hue_for_index).collect();
    assert_eq!(hues, vec![22249, 8498, 30747, 16996, 3246]);
    for i in 0..5 {
        for j in 0..5 {
            if i != j {
                assert_ne!(hues[i], hues[j]);
            }
        }
    }
    let span = hues.iter().max().unwrap() - hues.iter().min().unwrap();
    assert!(span > 25000);
}

#[test]
fn tint_offsets_follow_cosines() {
    assert_eq!(tint_for_hue(0), Tint { red: 459, green: -229, blue: -230 });
    assert_eq!(tint_for_hue(6000), Tint { red: 229, green: -459, blue: 230 });
    assert_eq!(tint_for_hue(22249), Tint { red: -337, green: 437, blue: -100 });
    for h in 0..36000 {
        let t = tint_for_hue(h);
        assert_eq!(t.red + t.green + t.blue, 0);
        assert!(t.red.abs() <= 459 && t.green.abs() <= 459 && t.blue.abs() <= 459);
    }
}

#[test]
fn variation_recolors_mid_tones() {
    let p = Pixel { r: 128, g: 128, b: 128, a: 77 };
    let q = vary_pixel(p, &tint_for_hue(0));
    assert_eq!(q, Pixel { r: 204, g: 89, b: 89, a: 77 });
    let diff = brightness_sum(p) - brightness_sum(q);
    assert!(diff >= 0 && diff < 3);
}

#[test]
fn variation_skips_dark_and_bright_pixels() {
    let t = tint_for_hue(12345);
    for p in [
        Pixel { r: 0, g: 0, b: 0, a: 255 },
        Pixel { r: 25, g: 25, b: 25, a: 255 },
        Pixel { r: 250, g: 250, b: 250, a: 10 },
        Pixel { r: 255, g: 255, b: 255, a: 0 },
    ] {
        assert_eq!(vary_pixel(p, &t), p);
    }
}

#[test]
fn variation_keeps_brightness_within_tolerance() {
    for h in (0..36000).step_by(500) {
        let t = tint_for_hue(h);
        for v in (77..=229).step_by(4) {
            let p = Pixel { r: v as u8, g: (v / 2) as u8, b: (765 - v - v - v / 2).min(255) as u8, a: 200 };
            let q = vary_pixel(p, &t);
            let sum = brightness_sum(p);
            if 10 * sum >= 765 * 3 && 10 * sum <= 765 * 7 {
                // No channel can be cut in this range, so the mean moves by under a level.
                let d = sum - brightness_sum(q);
                assert!(d >= 0 && d < 3, "hue {} pixel {:?}", h, p);
            }
            assert!(20 * (sum - brightness_sum(q)).abs() <= 765 || 10 * sum < 765 * 3 || 10 * sum > 765 * 7);
            assert_eq!(q.a, 200);
        }
    }
}

#[test]
fn clamping_near_the_dark_edge_breaks_the_tolerance() {
    let p = Pixel { r: 30, g: 30, b: 30, a: 255 };
    let q = vary_pixel(p, &tint_for_hue(6000));
    assert_eq!(q, Pixel { r: 68, g: 0, b: 68, a: 255 });
}

#[test]
fn apply_variation_over_a_raster() {
    let bytes: Vec<u8> = vec![128, 128, 128, 9, 10, 10, 10, 255, 250, 250, 250, 255, 100, 150, 200, 1];
    let mut img = Raster::from_rgba_bytes(2, 2, &bytes).unwrap();
    apply_color_variation(&mut img, &region(0, 0, 2, 2), 0);
    assert_eq!(img.get_pixel(0, 0), Pixel { r: 204, g: 89, b: 89, a: 9 });
    assert_eq!(img.get_pixel(1, 0), Pixel { r: 10, g: 10, b: 10, a: 255 });
    assert_eq!(img.get_pixel(0, 1), Pixel { r: 250, g: 250, b: 250, a: 255 });
    // sum 450: red (900 + 459) / 6 = 226, green (900 - 229) / 6 = 111, blue (900 - 230) / 6 = 111.
    assert_eq!(img.get_pixel(1, 1), Pixel { r: 226, g: 111, b: 111, a: 1 });
    assert_eq!(img.width(), 2);
    assert_eq!(img.height(), 2);
}

fn circular_distance(a: u32, b: u32) -> u32 {
    let d = if a >= b { a - b } else { b - a };
    d.min(36000 - d)
}

#[test]
fn hues_of_a_batch_stay_apart() {
    for n in 2u32..=100 {
        for i in 1..=n {
            for j in (i + 1)..=n {
                let d = circular_distance(hue_for_index(i), hue_for_index(j));
                assert!((n - 1) * d >= 13700, "n {} i {} j {}", n, i, j);
            }
        }
    }
}

#[test]
fn apply_variation_stays_inside_the_selection() {
    let bytes: Vec<u8> = [128u8, 128, 128, 9].repeat(9);
    let mut img = Raster::from_rgba_bytes(3, 3, &bytes).unwrap();
    apply_color_variation(&mut img, &region(1, 1, 5, 1), 0);
    for y in 0..3 {
        for x in 0..3 {
            let expected = if y == 1 && x >= 1 {
                Pixel { r: 204, g: 89, b: 89, a: 9 }
            } else {
                Pixel { r: 128, g: 128, b: 128, a: 9 }
            };
            assert_eq!(img.get_pixel(x, y), expected, "({}, {})", x, y);
        }
    }
    let mut outside = Raster::from_rgba_bytes(3, 3, &bytes).unwrap();
    apply_color_variation(&mut outside, &region(-10, -10, 5, 5), 0);
    assert_eq!(outside.to_rgba_bytes(), bytes);
}
