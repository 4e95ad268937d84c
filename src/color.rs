//! The per-frame colour variation: a hue-driven tint that keeps each
//! pixel's brightness and alpha and leaves near-black and near-white
//! pixels alone.
use vstd::prelude::*;
use crate::geometry::{max, min, rect_contains, rect_contains_exec, Rect};
use crate::hue::{hue_for_index, hue_spec, FULL_TURN};
use crate::compositor::visited_before;
use crate::raster::{Pixel, Raster};

verus! {

/// Amplitude of the tint: 0.3 of full scale, in sixths of a level
/// (`0.3 * 255 * 6`).
pub const TINT_AMPLITUDE: u64 = 459;

/// Half a turn and a quarter turn, in hundredths of a degree.
pub const HALF_TURN: u32 = 18000;
pub const QUARTER_TURN: u32 = 9000;

/// A third of a turn: the phase step between the channels.
pub const THIRD_TURN: u32 = 12000;

/// `TINT_AMPLITUDE * sin(t)` for `t` in `[0, 180]` degrees (given in
/// hundredths), by Bhaskara's rational approximation
/// `4 t (180 - t) / (40500 - t (180 - t))`, rounded down.
pub open spec fn half_wave(t: int) -> int {
    let s = t * (HALF_TURN - t);
    4 * (TINT_AMPLITUDE as int) * s / (405000000 - s)
}

/// `TINT_AMPLITUDE * cos(h)` for a hue `h` in `[0, 360)` degrees (given in
/// hundredths), in sixths of a level.
pub open spec fn cosine_wave(h: int) -> int {
    let t = (h + QUARTER_TURN) % (FULL_TURN as int);
    if t <= HALF_TURN {
        half_wave(t)
    } else {
        -half_wave(t - HALF_TURN)
    }
}

/// The offsets added to the red, green and blue channels, in sixths of a
/// level: the cosines of the hue and of the hue plus 120 degrees, and for
/// blue the cosine of the hue plus 240 degrees written as the negated sum
/// of the other two (the three phase-shifted cosines sum to zero).
#[derive(Clone, Copy, Debug, PartialEq, Eq, Structural)]
pub struct Tint {
    pub red: i32,
    pub green: i32,
    pub blue: i32,
}

pub open spec fn tint_spec(hue: int) -> Tint {
    let red = cosine_wave(hue);
    let green = cosine_wave((hue + THIRD_TURN) % (FULL_TURN as int));
    Tint { red: red as i32, green: green as i32, blue: (-(red + green)) as i32 }
}

proof fn lemma_half_wave_bounds(t: int)
    requires
        0 <= t <= HALF_TURN,
    ensures
        0 <= half_wave(t) <= TINT_AMPLITUDE,
{
    let s = t * (HALF_TURN - t);
    assert(0 <= s <= 81000000) by (nonlinear_arith)
        requires
            0 <= t <= 18000,
            s == t * (18000 - t),
    {
        assert((t - 9000) * (t - 9000) >= 0);
    }
    let num = 1836 * s;
    let den = 405000000 - s;
    assert(num <= 459 * den);
    vstd::arithmetic::div_mod::lemma_div_is_ordered(num, 459 * den, den);
    vstd::arithmetic::div_mod::lemma_div_multiples_vanish(459, den);
    assert(459 * den == den * 459);
    vstd::arithmetic::div_mod::lemma_div_pos_is_pos(num, den);
}

fn half_wave_exec(t: u32) -> (r: i32)
    requires
        t <= HALF_TURN,
    ensures
        r == half_wave(t as int),
        0 <= r <= TINT_AMPLITUDE,
{
    proof {
        lemma_half_wave_bounds(t as int);
    }
    let rest: u64 = (HALF_TURN - t) as u64;
    assert(t * rest <= 18000 * 18000) by (nonlinear_arith)
        requires
            t <= 18000,
            rest <= 18000,
    ;
    let s: u64 = t as u64 * rest;
    assert(s <= 81000000) by (nonlinear_arith)
        requires
            t <= 18000,
            s == t * (18000 - t),
    {
        assert((t - 9000) * (t - 9000) >= 0);
    }
    (4 * TINT_AMPLITUDE * s / (405000000 - s)) as i32
}

fn cosine_wave_exec(h: u32) -> (r: i32)
    requires
        h < FULL_TURN,
    ensures
        r == cosine_wave(h as int),
        -(TINT_AMPLITUDE as int) <= r <= TINT_AMPLITUDE,
{
    let t: u32 = (h + QUARTER_TURN) % FULL_TURN;
    if t <= HALF_TURN {
        half_wave_exec(t)
    } else {
        -half_wave_exec(t - HALF_TURN)
    }
}

/// The tint for a hue given in hundredths of a degree.
pub fn tint_for_hue(hue: u32) -> (r: Tint)
    requires
        hue < FULL_TURN,
    ensures
        r == tint_spec(hue as int),
        r.red + r.green + r.blue == 0,
        -(TINT_AMPLITUDE as int) <= r.red <= TINT_AMPLITUDE,
        -(TINT_AMPLITUDE as int) <= r.green <= TINT_AMPLITUDE,
        -(TINT_AMPLITUDE as int) <= r.blue <= TINT_AMPLITUDE,
{
    proof {
        lemma_blue_bounded(hue as int);
    }
    let red = cosine_wave_exec(hue);
    let green = cosine_wave_exec((hue + THIRD_TURN) % FULL_TURN);
    Tint { red, green, blue: -(red + green) }
}

/// `r + g + b`: three times the brightness, in levels.
pub open spec fn channel_sum(p: Pixel) -> int {
    p.r + p.g + p.b
}

/// Whether the brightness `(r + g + b) / 765` lies in `[0.1, 0.9]`, the
/// range that the tint touches.
pub open spec fn in_tint_range(p: Pixel) -> bool {
    765 <= 10 * channel_sum(p) <= 6885
}

/// One tinted channel: `brightness + 0.3 cos(phase)` of full scale, cut to
/// `[0, 255]` and rounded down; `offset` is in sixths of a level.
pub open spec fn tinted_channel(sum: int, offset: int) -> int {
    min(max((2 * sum + offset) / 6, 0), 255)
}

/// A pixel after the variation with `tint`: outside the brightness range
/// it is unchanged; inside, every channel is recomputed from the brightness
/// and alpha is kept.
pub open spec fn varied_pixel(p: Pixel, tint: Tint) -> Pixel {
    if in_tint_range(p) {
        Pixel {
            r: tinted_channel(channel_sum(p), tint.red as int) as u8,
            g: tinted_channel(channel_sum(p), tint.green as int) as u8,
            b: tinted_channel(channel_sum(p), tint.blue as int) as u8,
            a: p.a,
        }
    } else {
        p
    }
}

fn tinted_channel_exec(sum: i32, offset: i32) -> (r: u8)
    requires
        0 <= sum <= 765,
        -2000 <= offset <= 2000,
    ensures
        r == tinted_channel(sum as int, offset as int),
{
    let v = crate::geometry::floor_div(2 * sum as i64 + offset as i64, 6);
    if v < 0 {
        0
    } else if v > 255 {
        255
    } else {
        v as u8
    }
}

/// The pixel after the variation with `tint`.
pub fn vary_pixel(p: Pixel, tint: &Tint) -> (r: Pixel)
    requires
        tint.red + tint.green + tint.blue == 0,
        -(TINT_AMPLITUDE as int) <= tint.red <= TINT_AMPLITUDE,
        -(TINT_AMPLITUDE as int) <= tint.green <= TINT_AMPLITUDE,
    ensures
        r == varied_pixel(p, *tint),
{
    let sum: i32 = p.r as i32 + p.g as i32 + p.b as i32;
    if 10 * sum < 765 || 10 * sum > 6885 {
        return p;
    }
    Pixel {
        r: tinted_channel_exec(sum, tint.red),
        g: tinted_channel_exec(sum, tint.green),
        b: tinted_channel_exec(sum, tint.blue),
        a: p.a,
    }
}

/// The variation of frame `index`, confined to the selection `rect`: every
/// pixel of `image` inside `rect` goes through `varied_pixel` with the tint
/// of the frame's hue; every pixel outside it keeps every byte. Inside,
/// pixels whose brightness lies outside `[0.1, 0.9]` keep every byte too,
/// and alpha is never touched.
///
/// The cosines are not exact: they come from Bhaskara's rational
/// approximation (`half_wave`), and the blue offset is the negated sum of
/// the red and green ones rather than a third cosine. Against the
/// floating-point formula `brightness + 0.3 cos(phase)` a channel is
/// therefore sometimes one level off, in roughly one pixel in ten.
pub fn apply_color_variation(image: &mut Raster, rect: &Rect, index: u32)
    requires
        old(image).wf(),
    ensures
        final(image).wf(),
        final(image).spec_width() == old(image).spec_width(),
        final(image).spec_height() == old(image).spec_height(),
        forall|x: int, y: int| #[trigger] final(image).in_bounds(x, y) ==> final(image).spec_pixel(x, y) == if rect_contains(*rect, x, y) {
            varied_pixel(old(image).spec_pixel(x, y), tint_spec(hue_spec(index as int)))
        } else {
            old(image).spec_pixel(x, y)
        },
{
    let ghost initial = *image;
    let tint = tint_for_hue(hue_for_index(index));
    let width: u32 = image.width();
    let height: u32 = image.height();
    let mut y: u32 = 0;
    while y < height
        invariant
            y <= height,
            image.wf(),
            image.spec_width() == initial.spec_width() == width,
            image.spec_height() == initial.spec_height() == height,
            tint == tint_spec(hue_spec(index as int)),
            tint.red + tint.green + tint.blue == 0,
            -(TINT_AMPLITUDE as int) <= tint.red <= TINT_AMPLITUDE,
            -(TINT_AMPLITUDE as int) <= tint.green <= TINT_AMPLITUDE,
            forall|a: int, b: int| #[trigger] image.in_bounds(a, b) ==> image.spec_pixel(a, b) == if visited_before(a, b, 0, y as int) && rect_contains(*rect, a, b) {
                varied_pixel(initial.spec_pixel(a, b), tint)
            } else {
                initial.spec_pixel(a, b)
            },
        decreases height - y,
    {
        let mut x: u32 = 0;
        while x < width
            invariant
                x <= width,
                y < height,
                image.wf(),
                image.spec_width() == initial.spec_width() == width,
                image.spec_height() == initial.spec_height() == height,
                tint == tint_spec(hue_spec(index as int)),
                tint.red + tint.green + tint.blue == 0,
                -(TINT_AMPLITUDE as int) <= tint.red <= TINT_AMPLITUDE,
                -(TINT_AMPLITUDE as int) <= tint.green <= TINT_AMPLITUDE,
                forall|a: int, b: int| #[trigger] image.in_bounds(a, b) ==> image.spec_pixel(a, b) == if visited_before(a, b, x as int, y as int) && rect_contains(*rect, a, b) {
                    varied_pixel(initial.spec_pixel(a, b), tint)
                } else {
                    initial.spec_pixel(a, b)
                },
            decreases width - x,
        {
            let ghost before = *image;
            if rect_contains_exec(rect, x, y) {
                let p = image.get_pixel(x, y);
                let q = vary_pixel(p, &tint);
                image.put_pixel(x, y, q);
            }
            proof {
                assert forall|a: int, b: int| #[trigger] image.in_bounds(a, b) implies image.spec_pixel(a, b) == if visited_before(a, b, x + 1, y as int) && rect_contains(*rect, a, b) {
                    varied_pixel(initial.spec_pixel(a, b), tint)
                } else {
                    initial.spec_pixel(a, b)
                } by {
                    assert(before.in_bounds(a, b));
                }
            }
            x = x + 1;
        }
        proof {
            assert forall|a: int, b: int| #[trigger] image.in_bounds(a, b) implies image.spec_pixel(a, b) == if visited_before(a, b, 0, y + 1) && rect_contains(*rect, a, b) {
                varied_pixel(initial.spec_pixel(a, b), tint)
            } else {
                initial.spec_pixel(a, b)
            } by {
                assert(visited_before(a, b, x as int, y as int) == visited_before(a, b, 0, y + 1));
            }
        }
        y = y + 1;
    }
}

/// The tint keeps the brightness. For a pixel in the tinted range whose
/// channels are not cut at 0 or 255, the mean of the three channels after
/// the variation lies within one level below the mean before, well inside
/// 0.05 of full scale; alpha is kept. A pixel outside the range keeps every
/// byte.
pub proof fn lemma_variation_preserves_brightness(p: Pixel, hue: int)
    requires
        0 <= hue < FULL_TURN,
        in_tint_range(p) ==> {
            let t = tint_spec(hue);
            &&& 0 <= 2 * channel_sum(p) + t.red < 6 * 256
            &&& 0 <= 2 * channel_sum(p) + t.green < 6 * 256
            &&& 0 <= 2 * channel_sum(p) + t.blue < 6 * 256
        },
    ensures
        !in_tint_range(p) ==> varied_pixel(p, tint_spec(hue)) == p,
        in_tint_range(p) ==> {
            let q = varied_pixel(p, tint_spec(hue));
            &&& channel_sum(p) - 3 < channel_sum(q) <= channel_sum(p)
            &&& 20 * (channel_sum(p) - channel_sum(q)) <= 765
            &&& q.a == p.a
        },
{
    if in_tint_range(p) {
        let t = tint_spec(hue);
        let red = cosine_wave(hue);
        let green = cosine_wave((hue + THIRD_TURN) % (FULL_TURN as int));
        lemma_cosine_wave_bounds(hue);
        lemma_cosine_wave_bounds((hue + THIRD_TURN) % (FULL_TURN as int));
        assert(t.red + t.green + t.blue == 0);
    }
}

proof fn lemma_cosine_wave_bounds(h: int)
    requires
        0 <= h < FULL_TURN,
    ensures
        -(TINT_AMPLITUDE as int) <= cosine_wave(h) <= TINT_AMPLITUDE,
{
    let t = (h + QUARTER_TURN) % (FULL_TURN as int);
    if t <= HALF_TURN {
        lemma_half_wave_bounds(t);
    } else {
        lemma_half_wave_bounds(t - HALF_TURN);
    }
}

proof fn lemma_adjacent_waves_bounded(w: int)
    requires
        0 <= w <= 6000,
    ensures
        half_wave(w) + half_wave(w + THIRD_TURN) <= TINT_AMPLITUDE,
{
    let s1 = w * (18000 - w);
    let s2 = (w + 12000) * (6000 - w);
    let d1 = 405000000 - s1;
    let d2 = 405000000 - s2;
    assert(1836 * (s1 * d2 + s2 * d1) < 460 * (d1 * d2)) by (nonlinear_arith)
        requires
            0 <= w <= 6000,
            s1 == w * (18000 - w),
            s2 == (w + 12000) * (6000 - w),
            d1 == 405000000 - s1,
            d2 == 405000000 - s2,
    ;
    lemma_half_wave_bounds(w);
    lemma_half_wave_bounds(w + THIRD_TURN);
    assert(0 <= s1 <= 81000000 && 0 <= s2 <= 81000000) by (nonlinear_arith)
        requires
            0 <= w <= 6000,
            s1 == w * (18000 - w),
            s2 == (w + 12000) * (6000 - w),
    {
        assert((w - 9000) * (w - 9000) >= 0);
        assert((w + 3000) * (w + 3000) >= 0);
    }
    let f1 = half_wave(w);
    let f2 = half_wave(w + THIRD_TURN);
    vstd::arithmetic::div_mod::lemma_fundamental_div_mod(1836 * s1, d1);
    vstd::arithmetic::div_mod::lemma_mod_pos_bound(1836 * s1, d1);
    vstd::arithmetic::div_mod::lemma_fundamental_div_mod(1836 * s2, d2);
    vstd::arithmetic::div_mod::lemma_mod_pos_bound(1836 * s2, d2);
    assert(d1 * f1 <= 1836 * s1);
    assert(d2 * f2 <= 1836 * s2);
    assert(f1 + f2 < 460) by (nonlinear_arith)
        requires
            d1 * f1 <= 1836 * s1,
            d2 * f2 <= 1836 * s2,
            d1 > 0,
            d2 > 0,
            1836 * (s1 * d2 + s2 * d1) < 460 * (d1 * d2),
    {
        assert(d1 * f1 * d2 <= 1836 * s1 * d2);
        assert(d2 * f2 * d1 <= 1836 * s2 * d1);
        assert((f1 + f2) * (d1 * d2) < 460 * (d1 * d2));
    }
}

/// The blue offset, minus the sum of the red and green ones, stays within
/// the tint's amplitude for every hue.
proof fn lemma_blue_bounded(hue: int)
    requires
        0 <= hue < FULL_TURN,
    ensures
        -(TINT_AMPLITUDE as int) <= cosine_wave(hue) + cosine_wave((hue + THIRD_TURN) % (FULL_TURN as int)) <= TINT_AMPLITUDE,
{
    let u = (hue + QUARTER_TURN) % (FULL_TURN as int);
    let g = (hue + THIRD_TURN) % (FULL_TURN as int);
    let v = (g + QUARTER_TURN) % (FULL_TURN as int);
    assert(v == (u + THIRD_TURN) % (FULL_TURN as int));
    if u <= 6000 {
        lemma_adjacent_waves_bounded(u);
        lemma_half_wave_bounds(u);
        lemma_half_wave_bounds(u + THIRD_TURN);
    } else if u <= HALF_TURN {
        lemma_half_wave_bounds(u);
        lemma_half_wave_bounds(u - 6000);
    } else if u < 24000 {
        lemma_adjacent_waves_bounded(u - HALF_TURN);
        lemma_half_wave_bounds(u - HALF_TURN);
        lemma_half_wave_bounds(u - 6000);
    } else {
        lemma_half_wave_bounds(u - HALF_TURN);
        lemma_half_wave_bounds(u - 24000);
    }
}

/// Mid tones are never clipped: for a pixel whose brightness lies in
/// `[0.3, 0.7]` (channel sum `230..=535`), no channel of the tint of any
/// hue reaches 0 or 255, so `lemma_variation_preserves_brightness` applies.
pub proof fn lemma_mid_tones_are_not_clipped(p: Pixel, hue: int)
    requires
        0 <= hue < FULL_TURN,
        230 <= channel_sum(p) <= 535,
    ensures
        in_tint_range(p),
        ({
            let t = tint_spec(hue);
            &&& 0 <= 2 * channel_sum(p) + t.red < 6 * 256
            &&& 0 <= 2 * channel_sum(p) + t.green < 6 * 256
            &&& 0 <= 2 * channel_sum(p) + t.blue < 6 * 256
        }),
{
    lemma_cosine_wave_bounds(hue);
    lemma_cosine_wave_bounds((hue + THIRD_TURN) % (FULL_TURN as int));
    lemma_blue_bounded(hue);
}

} // verus!
