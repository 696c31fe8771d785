use vstd::prelude::*;

use crate::color::{lerp_spec, scale_spec, Color};
use crate::fixed::{abs, isqrt, isqrt_u64, LIMIT, ONE};
use crate::fragment::Fragment;
use crate::planet_type::PlanetType;
use crate::transform::Uniforms;

verus! {

/// A point at which a material samples the coherent-noise field, in fixed
/// point: two-dimensional or three-dimensional.
#[derive(Clone, Copy, Debug, PartialEq, Eq, Structural)]
pub enum NoiseQuery {
    Plane { x: i64, y: i64 },
    Space { x: i64, y: i64, z: i64 },
}

/// 0.1 in fixed point.
pub const TENTH: i64 = 6554;

/// 0.2 in fixed point.
pub const FIFTH: i64 = 13107;

/// 0.3 in fixed point.
pub const THREE_TENTHS: i64 = 19661;

/// 0.4 in fixed point.
pub const TWO_FIFTHS: i64 = 26214;

/// 0.5 in fixed point.
pub const HALF: i64 = 32768;

/// 0.7 in fixed point.
pub const SEVEN_TENTHS: i64 = 45875;

/// 1.2 in fixed point.
pub const SIX_FIFTHS: i64 = 78643;

/// Overlay brightness above which the cloud layer is composited (0.3).
pub const CLOUD_THRESHOLD: i64 = THREE_TENTHS;

/// Opacity of the cloud layer where it is composited (0.7).
pub const CLOUD_OPACITY: i64 = SEVEN_TENTHS;

pub open spec fn rgb(r: u8, g: u8, b: u8) -> Color {
    Color { r, g, b }
}

/// A noise sample limited to its nominal range `[-ONE, ONE]`.
pub open spec fn unit_noise(n: i64) -> int {
    if n < -ONE {
        -ONE as int
    } else if n > ONE {
        ONE as int
    } else {
        n as int
    }
}

/// Magnitude of a noise sample, in `[0, ONE]`.
pub open spec fn noise_mag(n: i64) -> int {
    abs(unit_noise(n))
}

/// Fixed-point product, rounded to the nearest unit (halves up).
pub open spec fn fmul(a: int, b: int) -> int {
    (a * b + ONE / 2) / (ONE as int)
}

/// `time` scaled by `num / den`, in fixed point.
pub open spec fn time_scaled(time: u32, num: int, den: int) -> int {
    time * ONE * num / den
}

fn unit_noise_exec(n: i64) -> (r: i64)
    ensures
        r == unit_noise(n),
{
    if n < -ONE {
        -ONE
    } else if n > ONE {
        ONE
    } else {
        n
    }
}

fn noise_mag_exec(n: i64) -> (r: i64)
    ensures
        r == noise_mag(n),
        0 <= r <= ONE,
{
    let u = unit_noise_exec(n);
    if u < 0 {
        -u
    } else {
        u
    }
}

fn fmul_exec(a: i64, b: i64) -> (r: i64)
    requires
        0 <= a <= 16 * ONE,
        0 <= b <= 16 * ONE,
    ensures
        r == fmul(a as int, b as int),
        0 <= r <= 16 * a,
        b <= ONE ==> r <= a,
        a <= ONE && b <= ONE ==> r <= ONE,
{
    let ghost h = (ONE / 2) as int;
    assert(0 <= a * b <= a * 16 * ONE) by (nonlinear_arith)
        requires
            0 <= a <= 16 * ONE,
            0 <= b <= 16 * ONE,
    ;
    proof {
        vstd::arithmetic::div_mod::lemma_div_is_ordered(a * b + h, ONE * (a * 16) + h, ONE as int);
        vstd::arithmetic::div_mod::lemma_div_multiples_vanish_fancy(a * 16, h, ONE as int);
        vstd::arithmetic::div_mod::lemma_div_is_ordered(h, a * b + h, ONE as int);
        if b <= ONE {
            assert(a * b <= ONE * a) by (nonlinear_arith)
                requires
                    0 <= a,
                    b <= ONE,
            ;
            vstd::arithmetic::div_mod::lemma_div_is_ordered(a * b + h, ONE * a + h, ONE as int);
            vstd::arithmetic::div_mod::lemma_div_multiples_vanish_fancy(a as int, h, ONE as int);
        }
    }
    (a * b + ONE / 2) / ONE
}

fn time_scaled_exec(time: u32, num: i64, den: i64) -> (r: i64)
    requires
        0 <= num <= 4,
        1 <= den <= 100,
    ensures
        r == time_scaled(time, num as int, den as int),
        0 <= r <= 4 * ONE * 4294967296,
{
    assert(0 <= time * ONE * num <= 4294967296 * ONE * 4) by (nonlinear_arith)
        requires
            0 <= time < 4294967296,
            0 <= num <= 4,
    ;
    proof {
        vstd::arithmetic::div_mod::lemma_div_is_ordered_by_denominator(time * ONE * num, 1, den as int);
    }
    (time as i64) * ONE * num / den
}

// ---- the sun ----
/// Brightness of the sun's surface: the mean of two samples, raised by 0.2, at most one.
pub open spec fn lava_level(n1: i64, n2: i64) -> int {
    let v = (unit_noise(n1) + unit_noise(n2)) / 2 + FIFTH;
    if v > ONE {
        ONE as int
    } else {
        v
    }
}

pub open spec fn lava_spec(n1: i64, n2: i64, intensity: i64) -> Color {
    let c = lerp_spec(rgb(255, 140, 0), rgb(255, 255, 100), lava_level(n1, n2));
    scale_spec(scale_spec(c, intensity as int), SIX_FIFTHS as int)
}

/// The sun: orange to bright yellow by the mean of two noise samples, brightened by 1.2.
pub fn lava_shader(fragment: &Fragment, n1: i64, n2: i64) -> (c: Color)
    ensures
        c == lava_spec(n1, n2, fragment.intensity),
{
    let s: i64 = unit_noise_exec(n1) + unit_noise_exec(n2);
    let half: i64 = (s + 2 * ONE) / 2 - ONE;
    let v: i64 = half + FIFTH;
    let level: i64 = if v > ONE {
        ONE
    } else {
        v
    };
    let dark = Color::new(255, 140, 0);
    let bright = Color::new(255, 255, 100);
    dark.lerp(&bright, level).scale(fragment.intensity).scale(SIX_FIFTHS)
}

// ---- Earth ----
/// Share of land where the terrain noise magnitude is `nv`: none below 0.4,
/// all above 0.6, linear between.
pub open spec fn land_factor(nv: int) -> int {
    if nv < HALF - TENTH {
        0
    } else if nv > HALF + TENTH {
        ONE as int
    } else {
        (nv - (HALF - TENTH)) * ONE / (2 * TENTH)
    }
}

/// Rim brightening: `(1 - |normal_z|)^2 * 0.4`.
pub open spec fn earth_rim(normal_z: i64) -> int {
    let q = ONE - abs(normal_z as int);
    fmul(fmul(q, q), TWO_FIFTHS as int)
}

pub open spec fn earth_spec(n: i64, normal_z: i64, intensity: i64) -> Color {
    let base = lerp_spec(rgb(25, 80, 180), rgb(50, 160, 80), land_factor(noise_mag(n)));
    scale_spec(lerp_spec(base, rgb(150, 200, 255), earth_rim(normal_z)), intensity as int)
}

/// Earth's surface: ocean or land by a threshold band on the noise
/// magnitude, with a pale rim toward the silhouette.
pub fn earth_shader(fragment: &Fragment, n: i64) -> (c: Color)
    requires
        fragment.wf(),
    ensures
        c == earth_spec(n, fragment.normal.z, fragment.intensity),
{
    let nv = noise_mag_exec(n);
    let lf: i64 = if nv < HALF - TENTH {
        0
    } else if nv > HALF + TENTH {
        ONE
    } else {
        (nv - (HALF - TENTH)) * ONE / (2 * TENTH)
    };
    let ocean = Color::new(25, 80, 180);
    let land = Color::new(50, 160, 80);
    let base = ocean.lerp(&land, lf);
    let nz: i128 = fragment.normal.z as i128;
    let q: i128 = (ONE as i128) - (if nz < 0 {
        -nz
    } else {
        nz
    });
    proof {
        crate::fixed::lemma_mul_abs_le(q as int, q as int, 2 * LIMIT, 2 * LIMIT);
    }
    assert(0 <= q * q) by (nonlinear_arith);
    let sq: i128 = (q * q + (ONE as i128) / 2) / (ONE as i128);
    assert(sq <= 4 * LIMIT * LIMIT);
    let rim: i128 = (sq * (TWO_FIFTHS as i128) + (ONE as i128) / 2) / (ONE as i128);
    assert(rim >= 0) by {
        assert(sq * TWO_FIFTHS >= 0) by (nonlinear_arith)
            requires
                sq >= 0,
        ;
    }
    let t: i64 = if rim > ONE as i128 {
        ONE
    } else {
        rim as i64
    };
    let atmosphere = Color::new(150, 200, 255);
    base.lerp(&atmosphere, t).scale(fragment.intensity)
}

// ---- clouds ----
/// Cloud cover where the sample is `n`: none up to 0.1, then rising
/// linearly to full cover at 1.
pub open spec fn cloud_factor(n: i64) -> int {
    let nv = unit_noise(n);
    if nv > TENTH {
        let v = (nv - TENTH) * ONE / (ONE - TENTH);
        if v > ONE {
            ONE as int
        } else {
            v
        }
    } else {
        0
    }
}

pub open spec fn cloud_spec(n: i64, intensity: i64) -> Color {
    scale_spec(rgb(255, 255, 255), fmul(cloud_factor(n), intensity as int))
}

/// The cloud layer: white in proportion to the cloud cover.
pub fn cloud_shader(fragment: &Fragment, n: i64) -> (c: Color)
    requires
        fragment.wf(),
    ensures
        c == cloud_spec(n, fragment.intensity),
{
    let nv = unit_noise_exec(n);
    let factor: i64 = if nv > TENTH {
        let v: i64 = (nv - TENTH) * ONE / (ONE - TENTH);
        if v > ONE {
            ONE
        } else {
            v
        }
    } else {
        0
    };
    Color::new(255, 255, 255).scale(fmul_exec(factor, fragment.intensity))
}

/// The overlay composited on the base: the base itself where the overlay's
/// brightness is at most `CLOUD_THRESHOLD`, else their interpolation at `CLOUD_OPACITY`.
pub open spec fn composite_spec(base: Color, overlay: Color, brightness: int) -> Color {
    if brightness > CLOUD_THRESHOLD {
        lerp_spec(base, overlay, CLOUD_OPACITY as int)
    } else {
        base
    }
}

/// Brightness of a color: the mean of its channels, in fixed point.
pub open spec fn brightness(c: Color) -> int {
    (c.r + c.g + c.b) * ONE / 765
}

/// Composites `overlay` on `base` given the overlay's brightness.
pub fn composite_layers(base: Color, overlay: Color, brightness: i64) -> (c: Color)
    ensures
        c == composite_spec(base, overlay, brightness as int),
{
    if brightness > CLOUD_THRESHOLD {
        base.lerp(&overlay, CLOUD_OPACITY)
    } else {
        base
    }
}

/// Composites a cloud layer on a base color by the cloud layer's own brightness.
pub fn blend_layers(base: Color, clouds: Color) -> (c: Color)
    ensures
        c == composite_spec(base, clouds, brightness(clouds)),
{
    let sum: i64 = (clouds.r as i64) + (clouds.g as i64) + (clouds.b as i64);
    composite_layers(base, clouds, sum * ONE / 765)
}

/// At exactly the threshold brightness the base passes unchanged; just above
/// it the result is the interpolation at the fixed opacity.
pub proof fn lemma_cloud_threshold(base: Color, overlay: Color)
    ensures
        composite_spec(base, overlay, CLOUD_THRESHOLD as int) == base,
        composite_spec(base, overlay, CLOUD_THRESHOLD + 1) == lerp_spec(base, overlay, CLOUD_OPACITY as int),
{
}

// ---- Mercury ----
pub open spec fn mercury_spec(n1: i64, n2: i64, intensity: i64) -> Color {
    let base = lerp_spec(rgb(80, 75, 70), rgb(170, 160, 150), noise_mag(n1));
    let c = if noise_mag(n2) > SEVEN_TENTHS {
        lerp_spec(base, rgb(60, 55, 50), HALF as int)
    } else {
        base
    };
    scale_spec(c, intensity as int)
}

/// Mercury: grey terrain by one sample, darkened halfway toward crater grey
/// where a finer sample exceeds 0.7 in magnitude.
pub fn mercury_shader(fragment: &Fragment, n1: i64, n2: i64) -> (c: Color)
    ensures
        c == mercury_spec(n1, n2, fragment.intensity),
{
    let dark = Color::new(80, 75, 70);
    let light = Color::new(170, 160, 150);
    let crater = Color::new(60, 55, 50);
    let base = dark.lerp(&light, noise_mag_exec(n1));
    let c = if noise_mag_exec(n2) > SEVEN_TENTHS {
        base.lerp(&crater, HALF)
    } else {
        base
    };
    c.scale(fragment.intensity)
}

// ---- Venus ----
/// Haze toward the rim: `sqrt(1 - normal_z) * 0.3`, with `1 - normal_z` taken
/// within `[0, 16]` (beyond 16 the interpolation is saturated anyway).
pub open spec fn venus_haze(normal_z: i64) -> int {
    let d = ONE - normal_z;
    let dc = if d < 0 {
        0
    } else if d > 16 * ONE {
        16 * ONE
    } else {
        d
    };
    fmul(isqrt(dc * ONE), THREE_TENTHS as int)
}

pub open spec fn venus_spec(n: i64, normal_z: i64, intensity: i64) -> Color {
    let c = lerp_spec(rgb(230, 180, 50), rgb(255, 198, 88), noise_mag(n));
    scale_spec(lerp_spec(c, rgb(255, 220, 150), venus_haze(normal_z)), intensity as int)
}

/// Venus: yellow cloud deck by the noise magnitude, with haze toward the rim.
pub fn venus_shader(fragment: &Fragment, n: i64) -> (c: Color)
    requires
        fragment.wf(),
    ensures
        c == venus_spec(n, fragment.normal.z, fragment.intensity),
{
    let base = Color::new(230, 180, 50);
    let cloud = Color::new(255, 198, 88);
    let c = base.lerp(&cloud, noise_mag_exec(n));
    let d: i64 = ONE - fragment.normal.z;
    let dc: i64 = if d < 0 {
        0
    } else if d > 16 * ONE {
        16 * ONE
    } else {
        d
    };
    let root = isqrt_u64((dc * ONE) as u64);
    assert(root <= 4 * ONE) by {
        if root > 4 * ONE {
            assert(root * root > (4 * ONE) * (4 * ONE)) by (nonlinear_arith)
                requires
                    root > 4 * ONE,
            ;
        }
    }
    let haze = fmul_exec(root as i64, THREE_TENTHS);
    let atmosphere = Color::new(255, 220, 150);
    c.lerp(&atmosphere, haze).scale(fragment.intensity)
}

// ---- Mars ----
pub open spec fn mars_spec(n1: i64, n2: i64, intensity: i64) -> Color {
    let base = lerp_spec(rgb(145, 50, 20), rgb(200, 80, 30), noise_mag(n1));
    scale_spec(lerp_spec(base, rgb(230, 130, 50), fmul(noise_mag(n2), THREE_TENTHS as int)), intensity as int)
}

/// Mars: red terrain by one sample, dusted by a finer one.
pub fn mars_shader(fragment: &Fragment, n1: i64, n2: i64) -> (c: Color)
    ensures
        c == mars_spec(n1, n2, fragment.intensity),
{
    let dark = Color::new(145, 50, 20);
    let light = Color::new(200, 80, 30);
    let dust = Color::new(230, 130, 50);
    let base = dark.lerp(&light, noise_mag_exec(n1));
    base.lerp(&dust, fmul_exec(noise_mag_exec(n2), THREE_TENTHS)).scale(fragment.intensity)
}

// ---- Jupiter ----
pub open spec fn jupiter_spec(bands: i64, turbulence: i64, intensity: i64) -> Color {
    let base = lerp_spec(rgb(180, 140, 100), rgb(255, 220, 180), noise_mag(bands));
    scale_spec(
        lerp_spec(base, rgb(255, 160, 120), fmul(noise_mag(turbulence), THREE_TENTHS as int)),
        intensity as int,
    )
}

/// Jupiter: light and dark bands by a 2D sample along the vertical axis,
/// tinted toward storm red by 3D turbulence.
pub fn jupiter_shader(fragment: &Fragment, bands: i64, turbulence: i64) -> (c: Color)
    ensures
        c == jupiter_spec(bands, turbulence, fragment.intensity),
{
    let light = Color::new(255, 220, 180);
    let dark = Color::new(180, 140, 100);
    let storm = Color::new(255, 160, 120);
    let base = dark.lerp(&light, noise_mag_exec(bands));
    base.lerp(&storm, fmul_exec(noise_mag_exec(turbulence), THREE_TENTHS)).scale(fragment.intensity)
}

// ---- Saturn ----
pub open spec fn saturn_spec(bands: i64, turbulence: i64, intensity: i64) -> Color {
    let t = fmul(noise_mag(bands), ONE - fmul(noise_mag(turbulence), THREE_TENTHS as int));
    scale_spec(lerp_spec(rgb(255, 240, 200), rgb(200, 180, 140), t), intensity as int)
}

/// Saturn: pale bands by a 2D sample, softened by 3D turbulence.
pub fn saturn_shader(fragment: &Fragment, bands: i64, turbulence: i64) -> (c: Color)
    ensures
        c == saturn_spec(bands, turbulence, fragment.intensity),
{
    let light = Color::new(255, 240, 200);
    let dark = Color::new(200, 180, 140);
    let soft: i64 = ONE - fmul_exec(noise_mag_exec(turbulence), THREE_TENTHS);
    light.lerp(&dark, fmul_exec(noise_mag_exec(bands), soft)).scale(fragment.intensity)
}

// ---- Uranus ----
pub open spec fn uranus_spec(n: i64, intensity: i64) -> Color {
    scale_spec(
        lerp_spec(rgb(150, 210, 230), rgb(180, 230, 255), fmul(noise_mag(n), TWO_FIFTHS as int)),
        intensity as int,
    )
}

/// Uranus: soft cyan clouds by the noise magnitude.
pub fn uranus_shader(fragment: &Fragment, n: i64) -> (c: Color)
    ensures
        c == uranus_spec(n, fragment.intensity),
{
    let base = Color::new(150, 210, 230);
    let cloud = Color::new(180, 230, 255);
    base.lerp(&cloud, fmul_exec(noise_mag_exec(n), TWO_FIFTHS)).scale(fragment.intensity)
}

// ---- Neptune ----
pub open spec fn neptune_spec(storms: i64, bands: i64, intensity: i64) -> Color {
    let t = fmul(noise_mag(storms) + fmul(noise_mag(bands), HALF as int), TWO_FIFTHS as int);
    scale_spec(lerp_spec(rgb(30, 100, 200), rgb(100, 160, 255), t), intensity as int)
}

/// Neptune: deep blue with lighter storms from a 3D sample and faint bands from a 2D one.
pub fn neptune_shader(fragment: &Fragment, storms: i64, bands: i64) -> (c: Color)
    ensures
        c == neptune_spec(storms, bands, fragment.intensity),
{
    let base = Color::new(30, 100, 200);
    let storm = Color::new(100, 160, 255);
    let mix: i64 = noise_mag_exec(storms) + fmul_exec(noise_mag_exec(bands), HALF);
    base.lerp(&storm, fmul_exec(mix, TWO_FIFTHS)).scale(fragment.intensity)
}

// ---- dispatch ----
/// How many noise samples the material reads.
pub open spec fn sample_count(pt: PlanetType) -> nat {
    match pt {
        PlanetType::Venus | PlanetType::Uranus => 1,
        _ => 2,
    }
}

/// How many noise samples the material reads.
pub fn noise_sample_count(pt: PlanetType) -> (n: usize)
    ensures
        n == sample_count(pt),
{
    match pt {
        PlanetType::Venus | PlanetType::Uranus => 1,
        _ => 2,
    }
}

pub open spec fn space(x: int, y: int, z: int) -> NoiseQuery {
    NoiseQuery::Space { x: x as i64, y: y as i64, z: z as i64 }
}

pub open spec fn plane(x: int, y: int) -> NoiseQuery {
    NoiseQuery::Plane { x: x as i64, y: y as i64 }
}

/// The points, in order, at which the material samples noise for a fragment.
pub open spec fn queries_spec(pt: PlanetType, f: Fragment, u: Uniforms) -> Seq<NoiseQuery> {
    let p = f.vertex_position;
    let (x, y, z) = (p.x as int, p.y as int, p.z as int);
    match pt {
        PlanetType::Sun => {
            let k = 1000 * ONE;
            seq![
                space(x * 800, y * 800, (z + u.pulse) * 800),
                space((x + k) * 800, (y + k) * 800, (z + k + u.pulse) * 800),
            ]
        },
        PlanetType::Mercury => seq![space(x * 300, y * 300, z * 300), space(x * 600, y * 600, z * 600)],
        PlanetType::Venus => {
            let t = time_scaled(u.time, 1, 20);
            seq![space(x * 150 + t, y * 150, z * 150)]
        },
        PlanetType::Earth => {
            let t = time_scaled(u.time, 1, 10);
            seq![space(x * 250, y * 250, z * 250), plane(x * 100 + 100 * ONE + t, y * 100 + 100 * ONE)]
        },
        PlanetType::Mars => seq![space(x * 250, y * 250, z * 250), space(x * 400, y * 400, z * 400)],
        PlanetType::Jupiter => {
            let t = time_scaled(u.time, 1, 10);
            seq![plane(y * 100, t), space(x * 300 + t, y * 300, z * 300)]
        },
        PlanetType::Saturn => {
            let t = time_scaled(u.time, 2, 25);
            seq![plane(y * 120, t), space(x * 350 + t, y * 350, z * 350)]
        },
        PlanetType::Uranus => {
            let t = time_scaled(u.time, 3, 100);
            seq![space(x * 200 + t, y * 200, z * 200)]
        },
        PlanetType::Neptune => {
            let t = time_scaled(u.time, 3, 50);
            seq![space(x * 250 + t, y * 250, z * 250), plane(y * 150, t)]
        },
    }
}

/// The color of a fragment of the material, given the noise samples taken at
/// the points of `queries_spec`, in that order.
pub open spec fn shade_spec(pt: PlanetType, f: Fragment, s: Seq<i64>) -> Color {
    match pt {
        PlanetType::Sun => lava_spec(s[0], s[1], f.intensity),
        PlanetType::Mercury => mercury_spec(s[0], s[1], f.intensity),
        PlanetType::Venus => venus_spec(s[0], f.normal.z, f.intensity),
        PlanetType::Earth => {
            let surface = earth_spec(s[0], f.normal.z, f.intensity);
            let clouds = cloud_spec(s[1], f.intensity);
            composite_spec(surface, clouds, brightness(clouds))
        },
        PlanetType::Mars => mars_spec(s[0], s[1], f.intensity),
        PlanetType::Jupiter => jupiter_spec(s[0], s[1], f.intensity),
        PlanetType::Saturn => saturn_spec(s[0], s[1], f.intensity),
        PlanetType::Uranus => uranus_spec(s[0], f.intensity),
        PlanetType::Neptune => neptune_spec(s[0], s[1], f.intensity),
    }
}

/// A coordinate scaled by a zoom factor and shifted.
fn zoomed(v: i64, zoom: i64, shift: i64) -> (r: i64)
    requires
        abs(v as int) <= 2 * LIMIT,
        0 <= zoom <= 800,
        abs(shift as int) <= 8 * ONE * 4294967296,
    ensures
        r == v * zoom + shift,
{
    assert(abs(v * zoom) <= 2 * LIMIT * 800) by (nonlinear_arith)
        requires
            abs(v as int) <= 2 * LIMIT,
            0 <= zoom <= 800,
    ;
    v * zoom + shift
}

/// The points, in order, at which the material samples noise for `fragment`.
pub fn noise_queries(planet_type: PlanetType, fragment: &Fragment, uniforms: &Uniforms) -> (r: Vec<NoiseQuery>)
    requires
        fragment.wf(),
        abs(uniforms.pulse as int) <= ONE,
    ensures
        r@ == queries_spec(planet_type, *fragment, *uniforms),
        r@.len() == sample_count(planet_type),
{
    let p = fragment.vertex_position;
    let r = match planet_type {
        PlanetType::Sun => {
            let k: i64 = 1000 * ONE;
            vec![
                NoiseQuery::Space { x: zoomed(p.x, 800, 0), y: zoomed(p.y, 800, 0), z: zoomed(p.z + uniforms.pulse, 800, 0) },
                NoiseQuery::Space {
                    x: zoomed(p.x + k, 800, 0),
                    y: zoomed(p.y + k, 800, 0),
                    z: zoomed(p.z + k + uniforms.pulse, 800, 0),
                },
            ]
        },
        PlanetType::Mercury => vec![
            NoiseQuery::Space { x: zoomed(p.x, 300, 0), y: zoomed(p.y, 300, 0), z: zoomed(p.z, 300, 0) },
            NoiseQuery::Space { x: zoomed(p.x, 600, 0), y: zoomed(p.y, 600, 0), z: zoomed(p.z, 600, 0) },
        ],
        PlanetType::Venus => {
            let t = time_scaled_exec(uniforms.time, 1, 20);
            vec![NoiseQuery::Space { x: zoomed(p.x, 150, t), y: zoomed(p.y, 150, 0), z: zoomed(p.z, 150, 0) }]
        },
        PlanetType::Earth => {
            let t = time_scaled_exec(uniforms.time, 1, 10);
            vec![
                NoiseQuery::Space { x: zoomed(p.x, 250, 0), y: zoomed(p.y, 250, 0), z: zoomed(p.z, 250, 0) },
                NoiseQuery::Plane { x: zoomed(p.x, 100, 100 * ONE + t), y: zoomed(p.y, 100, 100 * ONE) },
            ]
        },
        PlanetType::Mars => vec![
            NoiseQuery::Space { x: zoomed(p.x, 250, 0), y: zoomed(p.y, 250, 0), z: zoomed(p.z, 250, 0) },
            NoiseQuery::Space { x: zoomed(p.x, 400, 0), y: zoomed(p.y, 400, 0), z: zoomed(p.z, 400, 0) },
        ],
        PlanetType::Jupiter => {
            let t = time_scaled_exec(uniforms.time, 1, 10);
            vec![
                NoiseQuery::Plane { x: zoomed(p.y, 100, 0), y: t },
                NoiseQuery::Space { x: zoomed(p.x, 300, t), y: zoomed(p.y, 300, 0), z: zoomed(p.z, 300, 0) },
            ]
        },
        PlanetType::Saturn => {
            let t = time_scaled_exec(uniforms.time, 2, 25);
            vec![
                NoiseQuery::Plane { x: zoomed(p.y, 120, 0), y: t },
                NoiseQuery::Space { x: zoomed(p.x, 350, t), y: zoomed(p.y, 350, 0), z: zoomed(p.z, 350, 0) },
            ]
        },
        PlanetType::Uranus => {
            let t = time_scaled_exec(uniforms.time, 3, 100);
            vec![NoiseQuery::Space { x: zoomed(p.x, 200, t), y: zoomed(p.y, 200, 0), z: zoomed(p.z, 200, 0) }]
        },
        PlanetType::Neptune => {
            let t = time_scaled_exec(uniforms.time, 3, 50);
            vec![
                NoiseQuery::Space { x: zoomed(p.x, 250, t), y: zoomed(p.y, 250, 0), z: zoomed(p.z, 250, 0) },
                NoiseQuery::Plane { x: zoomed(p.y, 150, 0), y: t },
            ]
        },
    };
    assert(r@ =~= queries_spec(planet_type, *fragment, *uniforms));
    r
}

/// The color of `fragment` in the material `planet_type`, given the noise
/// samples taken at the points that `noise_queries` lists, in that order.
/// Earth composites its cloud layer over its surface.
pub fn fragment_shader(fragment: &Fragment, samples: &Vec<i64>, planet_type: PlanetType) -> (c: Color)
    requires
        fragment.wf(),
        samples@.len() == sample_count(planet_type),
    ensures
        c == shade_spec(planet_type, *fragment, samples@),
{
    match planet_type {
        PlanetType::Sun => lava_shader(fragment, samples[0], samples[1]),
        PlanetType::Mercury => mercury_shader(fragment, samples[0], samples[1]),
        PlanetType::Venus => venus_shader(fragment, samples[0]),
        PlanetType::Earth => {
            let surface = earth_shader(fragment, samples[0]);
            let clouds = cloud_shader(fragment, samples[1]);
            blend_layers(surface, clouds)
        },
        PlanetType::Mars => mars_shader(fragment, samples[0], samples[1]),
        PlanetType::Jupiter => jupiter_shader(fragment, samples[0], samples[1]),
        PlanetType::Saturn => saturn_shader(fragment, samples[0], samples[1]),
        PlanetType::Uranus => uranus_shader(fragment, samples[0]),
        PlanetType::Neptune => neptune_shader(fragment, samples[0], samples[1]),
    }
}

} // verus!
