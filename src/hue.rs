//! The per-frame hue: index `i` goes to `360 * frac(i * phi)` degrees, so
//! that consecutive frames land far apart on the colour circle.
use vstd::prelude::*;

verus! {

/// The fractional part of the golden ratio in 32-bit fixed point,
/// `floor((phi - 1) * 2^32)`.
pub const GOLDEN_FRACTION: u64 = 2654435769;

/// One full turn, in hundredths of a degree.
pub const FULL_TURN: u32 = 36000;

/// `2^32`, the scale of `GOLDEN_FRACTION`.
pub const FIXED_ONE: u64 = 0x1_0000_0000;

/// The position of frame `index` on the circle: `frac(index * phi)` in
/// 32-bit fixed point.
pub open spec fn golden_point(index: int) -> int {
    (index * GOLDEN_FRACTION) % (FIXED_ONE as int)
}

/// The hue of frame `index`, in hundredths of a degree:
/// `36000 * frac(index * phi)`, with `frac(index * phi)` taken in 32-bit
/// fixed point and rounded down.
pub open spec fn hue_spec(index: int) -> int {
    golden_point(index) * (FULL_TURN as int) / (FIXED_ONE as int)
}

/// The hue of frame `index`, in hundredths of a degree. It depends on the
/// index alone; index 0 has hue 0.
pub fn hue_for_index(index: u32) -> (r: u32)
    ensures
        r == hue_spec(index as int),
        r < FULL_TURN,
{
    assert(index * GOLDEN_FRACTION <= 0xffff_ffff * 2654435769) by (nonlinear_arith)
        requires
            index <= 0xffff_ffff,
    ;
    let product: u64 = index as u64 * GOLDEN_FRACTION;
    let fraction: u64 = product % FIXED_ONE;
    assert(fraction * 36000 < FIXED_ONE * 36000) by (nonlinear_arith)
        requires
            fraction < FIXED_ONE,
    ;
    let hue: u64 = fraction * FULL_TURN as u64 / FIXED_ONE;
    proof {
        vstd::arithmetic::div_mod::lemma_fundamental_div_mod(fraction * 36000, FIXED_ONE as int);
    }
    hue as u32
}

/// Inverse of `GOLDEN_FRACTION` modulo `2^32`.
pub const GOLDEN_FRACTION_INVERSE: u64 = 340573321;

/// The golden-ratio points of distinct frames are distinct: a frame's
/// fixed-point position `frac(i * phi)` determines `i` among all `u32`
/// indices, since the step is odd and so invertible modulo `2^32`.
pub proof fn lemma_golden_points_distinct(i: u32, j: u32)
    requires
        i != j,
    ensures
        golden_point(i as int) != golden_point(j as int),
{
    lemma_golden_point_recovers_index(i);
    lemma_golden_point_recovers_index(j);
}

proof fn lemma_golden_point_recovers_index(i: u32)
    ensures
        (golden_point(i as int) * GOLDEN_FRACTION_INVERSE) % (FIXED_ONE as int) == i,
{
    let m = FIXED_ONE as int;
    let a = i * GOLDEN_FRACTION;
    vstd::arithmetic::div_mod::lemma_mul_mod_noop_left(a, GOLDEN_FRACTION_INVERSE as int, m);
    vstd::arithmetic::mul::lemma_mul_is_associative(i as int, GOLDEN_FRACTION as int, GOLDEN_FRACTION_INVERSE as int);
    assert(GOLDEN_FRACTION * GOLDEN_FRACTION_INVERSE == 1 + 210485888 * m);
    assert(i * (1 + 210485888 * m) == i + (i * 210485888) * m) by (nonlinear_arith);
    vstd::arithmetic::div_mod::lemma_mod_multiples_vanish(i * 210485888, i as int, m);
    vstd::arithmetic::div_mod::lemma_small_mod(i as nat, m as nat);
}

/// Distance to the nearest multiple of `FIXED_ONE`, for a point in
/// `[0, FIXED_ONE)`: its distance to 0 around the circle.
pub open spec fn circle_norm(g: int) -> int {
    if g <= (FIXED_ONE as int) / 2 { g } else { FIXED_ONE as int - g }
}

/// `golden_point(n)` by stepping: add `GOLDEN_FRACTION`, wrap at `2^32`.
pub open spec fn golden_walk(n: nat) -> int
    decreases n,
{
    if n == 0 {
        0
    } else {
        let prev = golden_walk((n - 1) as nat);
        if prev + GOLDEN_FRACTION >= FIXED_ONE { prev + GOLDEN_FRACTION - FIXED_ONE } else { prev + GOLDEN_FRACTION }
    }
}

/// For every step `q` in `[1, n]`, `q * ||q * phi||` in hundredths of a
/// degree (`36000 * q * ||q * phi||`, with `||.||` scaled by `2^32`)
/// exceeds `13700 + q`: enough to survive rounding the hues.
pub open spec fn steps_well_spread(n: nat) -> bool
    decreases n,
{
    if n == 0 {
        true
    } else {
        36000 * (n * circle_norm(golden_walk(n))) >= FIXED_ONE * (13700 + n) && steps_well_spread((n - 1) as nat)
    }
}

/// The first 99 golden points, each computed from the one before, with
/// the spread of each checked.
proof fn lemma_steps_well_spread_below_hundred()
    ensures
        steps_well_spread(99),
{
    assert(golden_walk(0) == 0 && steps_well_spread(0));
    assert(golden_walk(1) == 2654435769 && steps_well_spread(1));
    assert(golden_walk(2) == 1013904242 && steps_well_spread(2));
    assert(golden_walk(3) == 3668340011 && steps_well_spread(3));
    assert(golden_walk(4) == 2027808484 && steps_well_spread(4));
    assert(golden_walk(5) == 387276957 && steps_well_spread(5));
    assert(golden_walk(6) == 3041712726 && steps_well_spread(6));
    assert(golden_walk(7) == 1401181199 && steps_well_spread(7));
    assert(golden_walk(8) == 4055616968 && steps_well_spread(8));
    assert(golden_walk(9) == 2415085441 && steps_well_spread(9));
    assert(golden_walk(10) == 774553914 && steps_well_spread(10));
    assert(golden_walk(11) == 3428989683 && steps_well_spread(11));
    assert(golden_walk(12) == 1788458156 && steps_well_spread(12));
    assert(golden_walk(13) == 147926629 && steps_well_spread(13));
    assert(golden_walk(14) == 2802362398 && steps_well_spread(14));
    assert(golden_walk(15) == 1161830871 && steps_well_spread(15));
    assert(golden_walk(16) == 3816266640 && steps_well_spread(16));
    assert(golden_walk(17) == 2175735113 && steps_well_spread(17));
    assert(golden_walk(18) == 535203586 && steps_well_spread(18));
    assert(golden_walk(19) == 3189639355 && steps_well_spread(19));
    assert(golden_walk(20) == 1549107828 && steps_well_spread(20));
    assert(golden_walk(21) == 4203543597 && steps_well_spread(21));
    assert(golden_walk(22) == 2563012070 && steps_well_spread(22));
    assert(golden_walk(23) == 922480543 && steps_well_spread(23));
    assert(golden_walk(24) == 3576916312 && steps_well_spread(24));
    assert(golden_walk(25) == 1936384785 && steps_well_spread(25));
    assert(golden_walk(26) == 295853258 && steps_well_spread(26));
    assert(golden_walk(27) == 2950289027 && steps_well_spread(27));
    assert(golden_walk(28) == 1309757500 && steps_well_spread(28));
    assert(golden_walk(29) == 3964193269 && steps_well_spread(29));
    assert(golden_walk(30) == 2323661742 && steps_well_spread(30));
    assert(golden_walk(31) == 683130215 && steps_well_spread(31));
    assert(golden_walk(32) == 3337565984 && steps_well_spread(32));
    assert(golden_walk(33) == 1697034457 && steps_well_spread(33));
    assert(golden_walk(34) == 56502930 && steps_well_spread(34));
    assert(golden_walk(35) == 2710938699 && steps_well_spread(35));
    assert(golden_walk(36) == 1070407172 && steps_well_spread(36));
    assert(golden_walk(37) == 3724842941 && steps_well_spread(37));
    assert(golden_walk(38) == 2084311414 && steps_well_spread(38));
    assert(golden_walk(39) == 443779887 && steps_well_spread(39));
    assert(golden_walk(40) == 3098215656 && steps_well_spread(40));
    assert(golden_walk(41) == 1457684129 && steps_well_spread(41));
    assert(golden_walk(42) == 4112119898 && steps_well_spread(42));
    assert(golden_walk(43) == 2471588371 && steps_well_spread(43));
    assert(golden_walk(44) == 831056844 && steps_well_spread(44));
    assert(golden_walk(45) == 3485492613 && steps_well_spread(45));
    assert(golden_walk(46) == 1844961086 && steps_well_spread(46));
    assert(golden_walk(47) == 204429559 && steps_well_spread(47));
    assert(golden_walk(48) == 2858865328 && steps_well_spread(48));
    assert(golden_walk(49) == 1218333801 && steps_well_spread(49));
    assert(golden_walk(50) == 3872769570 && steps_well_spread(50));
    assert(golden_walk(51) == 2232238043 && steps_well_spread(51));
    assert(golden_walk(52) == 591706516 && steps_well_spread(52));
    assert(golden_walk(53) == 3246142285 && steps_well_spread(53));
    assert(golden_walk(54) == 1605610758 && steps_well_spread(54));
    assert(golden_walk(55) == 4260046527 && steps_well_spread(55));
    assert(golden_walk(56) == 2619515000 && steps_well_spread(56));
    assert(golden_walk(57) == 978983473 && steps_well_spread(57));
    assert(golden_walk(58) == 3633419242 && steps_well_spread(58));
    assert(golden_walk(59) == 1992887715 && steps_well_spread(59));
    assert(golden_walk(60) == 352356188 && steps_well_spread(60));
    assert(golden_walk(61) == 3006791957 && steps_well_spread(61));
    assert(golden_walk(62) == 1366260430 && steps_well_spread(62));
    assert(golden_walk(63) == 4020696199 && steps_well_spread(63));
    assert(golden_walk(64) == 2380164672 && steps_well_spread(64));
    assert(golden_walk(65) == 739633145 && steps_well_spread(65));
    assert(golden_walk(66) == 3394068914 && steps_well_spread(66));
    assert(golden_walk(67) == 1753537387 && steps_well_spread(67));
    assert(golden_walk(68) == 113005860 && steps_well_spread(68));
    assert(golden_walk(69) == 2767441629 && steps_well_spread(69));
    assert(golden_walk(70) == 1126910102 && steps_well_spread(70));
    assert(golden_walk(71) == 3781345871 && steps_well_spread(71));
    assert(golden_walk(72) == 2140814344 && steps_well_spread(72));
    assert(golden_walk(73) == 500282817 && steps_well_spread(73));
    assert(golden_walk(74) == 3154718586 && steps_well_spread(74));
    assert(golden_walk(75) == 1514187059 && steps_well_spread(75));
    assert(golden_walk(76) == 4168622828 && steps_well_spread(76));
    assert(golden_walk(77) == 2528091301 && steps_well_spread(77));
    assert(golden_walk(78) == 887559774 && steps_well_spread(78));
    assert(golden_walk(79) == 3541995543 && steps_well_spread(79));
    assert(golden_walk(80) == 1901464016 && steps_well_spread(80));
    assert(golden_walk(81) == 260932489 && steps_well_spread(81));
    assert(golden_walk(82) == 2915368258 && steps_well_spread(82));
    assert(golden_walk(83) == 1274836731 && steps_well_spread(83));
    assert(golden_walk(84) == 3929272500 && steps_well_spread(84));
    assert(golden_walk(85) == 2288740973 && steps_well_spread(85));
    assert(golden_walk(86) == 648209446 && steps_well_spread(86));
    assert(golden_walk(87) == 3302645215 && steps_well_spread(87));
    assert(golden_walk(88) == 1662113688 && steps_well_spread(88));
    assert(golden_walk(89) == 21582161 && steps_well_spread(89));
    assert(golden_walk(90) == 2676017930 && steps_well_spread(90));
    assert(golden_walk(91) == 1035486403 && steps_well_spread(91));
    assert(golden_walk(92) == 3689922172 && steps_well_spread(92));
    assert(golden_walk(93) == 2049390645 && steps_well_spread(93));
    assert(golden_walk(94) == 408859118 && steps_well_spread(94));
    assert(golden_walk(95) == 3063294887 && steps_well_spread(95));
    assert(golden_walk(96) == 1422763360 && steps_well_spread(96));
    assert(golden_walk(97) == 4077199129 && steps_well_spread(97));
    assert(golden_walk(98) == 2436667602 && steps_well_spread(98));
    assert(golden_walk(99) == 796136075 && steps_well_spread(99));
}

proof fn lemma_walk_is_golden_point(n: nat)
    ensures
        golden_walk(n) == golden_point(n as int),
        0 <= golden_point(n as int) < FIXED_ONE,
    decreases n,
{
    let m = FIXED_ONE as int;
    vstd::arithmetic::div_mod::lemma_mod_pos_bound(n * GOLDEN_FRACTION, m);
    if n > 0 {
        lemma_walk_is_golden_point((n - 1) as nat);
        let prev = golden_point(n - 1);
        assert(n * GOLDEN_FRACTION == (n - 1) * GOLDEN_FRACTION + GOLDEN_FRACTION) by (nonlinear_arith);
        vstd::arithmetic::div_mod::lemma_add_mod_noop((n - 1) * GOLDEN_FRACTION, GOLDEN_FRACTION as int, m);
        vstd::arithmetic::div_mod::lemma_small_mod(GOLDEN_FRACTION as nat, m as nat);
        if prev + GOLDEN_FRACTION >= m {
            vstd::arithmetic::div_mod::lemma_mod_sub_multiples_vanish(prev + GOLDEN_FRACTION - m, m);
            vstd::arithmetic::div_mod::lemma_small_mod((prev + GOLDEN_FRACTION - m) as nat, m as nat);
        } else {
            vstd::arithmetic::div_mod::lemma_small_mod((prev + GOLDEN_FRACTION) as nat, m as nat);
        }
    }
}

proof fn lemma_well_spread_step(n: nat, q: nat)
    requires
        steps_well_spread(n),
        1 <= q <= n,
    ensures
        36000 * (q * circle_norm(golden_walk(q))) >= FIXED_ONE * (13700 + q),
    decreases n,
{
    if q < n {
        lemma_well_spread_step((n - 1) as nat, q);
    }
}

/// Distance between two hues around the circle, in hundredths of a degree.
pub open spec fn hue_distance(a: int, b: int) -> int {
    let d = if a >= b { a - b } else { b - a };
    if d <= FULL_TURN / 2 { d } else { FULL_TURN - d }
}

/// The hues of a batch are spread out: among the frames `1..=n` of a batch
/// of up to 100 frames, any two hues lie at least `137 / (n - 1)` degrees
/// apart around the colour circle, a bound that shrinks like `1 / n`
/// (the golden ratio's `q * ||q * phi|| >= 1 / phi^2`, about `137.5 / q`
/// degrees, less the rounding of the hues to hundredths of a degree).
pub proof fn lemma_hues_spread(i: u32, j: u32, n: u32)
    requires
        2 <= n <= 100,
        1 <= i < j <= n,
    ensures
        (n - 1) * hue_distance(hue_spec(i as int), hue_spec(j as int)) >= 13700,
{
    let m = FIXED_ONE as int;
    let q = (j - i) as nat;
    lemma_steps_well_spread_below_hundred();
    lemma_well_spread_step(99, q);
    lemma_walk_is_golden_point(q);
    lemma_walk_is_golden_point(i as nat);
    lemma_walk_is_golden_point(j as nat);
    let gq = golden_point(q as int);
    let a = golden_point(i as int);
    let b = golden_point(j as int);
    let c = circle_norm(gq);
    // b is a + gq around the circle.
    assert(j * GOLDEN_FRACTION == i * GOLDEN_FRACTION + q * GOLDEN_FRACTION) by (nonlinear_arith)
        requires
            q == j - i,
    ;
    vstd::arithmetic::div_mod::lemma_add_mod_noop(i * GOLDEN_FRACTION, q * GOLDEN_FRACTION, m);
    if a + gq >= m {
        vstd::arithmetic::div_mod::lemma_mod_sub_multiples_vanish(a + gq - m, m);
        vstd::arithmetic::div_mod::lemma_small_mod((a + gq - m) as nat, m as nat);
    } else {
        vstd::arithmetic::div_mod::lemma_small_mod((a + gq) as nat, m as nat);
    }
    // Rounding a and b down to hundredths of a degree.
    let ha = hue_spec(i as int);
    let hb = hue_spec(j as int);
    vstd::arithmetic::div_mod::lemma_fundamental_div_mod(a * 36000, m);
    vstd::arithmetic::div_mod::lemma_mod_pos_bound(a * 36000, m);
    vstd::arithmetic::div_mod::lemma_fundamental_div_mod(b * 36000, m);
    vstd::arithmetic::div_mod::lemma_mod_pos_bound(b * 36000, m);
    assert(m * ha <= 36000 * a < m * ha + m);
    assert(m * hb <= 36000 * b < m * hb + m);
    assert(0 <= ha < 36000 && 0 <= hb < 36000);
    let hd = hue_distance(ha, hb);
    assert(m * (hd + 1) > 36000 * c);
    assert(hd >= 0);
    assert(36000 * (q * c) >= m * (13700 + q));
    let t = q * (hd + 1);
    assert(m * t > 36000 * (q * c)) by (nonlinear_arith)
        requires
            m * (hd + 1) > 36000 * c,
            q >= 1,
            t == q * (hd + 1),
    ;
    assert(t > 13700 + q);
    assert(t == q * hd + q) by (nonlinear_arith)
        requires
            t == q * (hd + 1),
    ;
    assert((n - 1) * hd >= q * hd) by (nonlinear_arith)
        requires
            n - 1 >= q,
            hd >= 0,
    ;
}

} // verus!
