//! The raycasting renderer: one ray per screen column, marched in fixed
//! steps through the maze until the first wall hit, projected into a
//! vertical slice whose height is inversely proportional to the
//! fish-eye-corrected distance, and textured from the hit wall's symbol.

use vstd::prelude::*;
use crate::color::Color;
use crate::fixed::{
    FP_ONE, FP_HALF, fp_mul, fp_mul_spec, fp_frac, fp_fract, div_nonneg,
    lemma_fp_mul_one, lemma_fp_mul_le_arg, lemma_fp_mul_bounded,
};
use crate::framebuffer::Framebuffer;
use crate::maze::{Maze, wall_at_spec};
use crate::player::POS_LIMIT;
use crate::textures::{Texture, TextureManager, lookup_spec, sample_spec};

verus! {

/// Ray length cap in fixed-point units: past it a column counts as "no
/// wall visible" and stays untouched.
pub const MAX_DEPTH_FP: i64 = 20 * 65536;

/// Fixed marching increment in fixed-point units (a hundredth of a
/// cell), independent of the frame rate.
pub const STEP_FP: i64 = 655;

/// One more than the largest step index the march can reach before the
/// depth cap.
pub const STEP_LIMIT: i64 = 2002;

/// Projection constant: three halves of a cell, in fixed-point units.
/// The projected slice height is screen height times this, over the
/// corrected distance.
pub const PROJ_SCALE: i64 = 98304;

/// What one ray march produces: whether a wall was hit before the depth
/// cap, and if so which symbol, where, and after what march distance.
#[derive(Clone, Copy, PartialEq, Eq, Structural, Debug)]
pub struct RayHit {
    pub hit: bool,
    pub symbol: u8,
    pub x: i64,
    pub y: i64,
    pub distance: i64,
}

/// X world coordinate of the sample point at march distance `d`.
pub open spec fn ray_x(px: int, dx: int, d: int) -> int {
    px + fp_mul_spec(d, dx)
}

/// Y world coordinate of the sample point at march distance `d`.
pub open spec fn ray_y(py: int, dy: int, d: int) -> int {
    py + fp_mul_spec(d, dy)
}

/// Whether the sample point at step `k` of the march lands in a wall.
pub open spec fn hit_at_step(
    g: Seq<Seq<u8>>, px: int, py: int, dx: int, dy: int, k: int,
) -> bool {
    wall_at_spec(g,
        ray_x(px, dx, k * (STEP_FP as int)),
        ray_y(py, dy, k * (STEP_FP as int))) is Some
}

/// The first marching step at or after step `k` whose sample point lands
/// in a wall, if the march reaches one before the depth cap.
pub open spec fn first_hit_from(
    g: Seq<Seq<u8>>, px: int, py: int, dx: int, dy: int, k: int,
) -> Option<int>
    decreases STEP_LIMIT as int - k,
{
    if k * (STEP_FP as int) >= MAX_DEPTH_FP as int || k >= STEP_LIMIT as int {
        None
    } else if hit_at_step(g, px, py, dx, dy, k) {
        Some(k)
    } else {
        first_hit_from(g, px, py, dx, dy, k + 1)
    }
}

/// What the march finds from step `k` on: the first hit step hits, no
/// step before it hits, and a miss means no step before the depth cap
/// hits at all.
pub proof fn lemma_first_hit_from(
    g: Seq<Seq<u8>>, px: int, py: int, dx: int, dy: int, k: int,
)
    requires
        0 <= k,
    ensures
        match first_hit_from(g, px, py, dx, dy, k) {
            Some(m) => k <= m && m * (STEP_FP as int) < MAX_DEPTH_FP as int
                && hit_at_step(g, px, py, dx, dy, m)
                && (forall|j: int| k <= j < m ==> !hit_at_step(g, px, py, dx, dy, j)),
            None => forall|j: int| k <= j && j * (STEP_FP as int) < MAX_DEPTH_FP as int
                ==> !hit_at_step(g, px, py, dx, dy, j),
        },
    decreases STEP_LIMIT as int - k,
{
    if k * (STEP_FP as int) >= MAX_DEPTH_FP as int || k >= STEP_LIMIT as int {
        assert forall|j: int| k <= j && j * (STEP_FP as int) < MAX_DEPTH_FP as int
            implies !hit_at_step(g, px, py, dx, dy, j) by {
            assert(j * (STEP_FP as int) >= k * (STEP_FP as int)) by (nonlinear_arith)
                requires j >= k && STEP_FP as int > 0;
            assert(k < STEP_LIMIT as int ==> k * (STEP_FP as int) >= MAX_DEPTH_FP as int);
            assert(j * (STEP_FP as int) >= MAX_DEPTH_FP as int) by (nonlinear_arith)
                requires
                    j >= k,
                    STEP_FP as int > 0,
                    j >= STEP_LIMIT as int || k * (STEP_FP as int) >= MAX_DEPTH_FP as int,
                    j * (STEP_FP as int) >= k * (STEP_FP as int),
            ;
        }
    } else if hit_at_step(g, px, py, dx, dy, k) {
    } else {
        lemma_first_hit_from(g, px, py, dx, dy, k + 1);
    }
}

/// Marches a ray from `(px, py)` along the unit direction `(dx, dy)`: in
/// increments of `STEP_FP` up to `MAX_DEPTH_FP`, stopping at the first
/// sample point that lands in a wall. Returns the hit record, or a miss
/// when no wall lies within the depth cap.
pub fn cast_ray(maze: &Maze, px: i64, py: i64, dx: i64, dy: i64) -> (r: RayHit)
    requires
        -POS_LIMIT <= px <= POS_LIMIT,
        -POS_LIMIT <= py <= POS_LIMIT,
        -FP_ONE <= dx <= FP_ONE,
        -FP_ONE <= dy <= FP_ONE,
    ensures
        match first_hit_from(maze@, px as int, py as int, dx as int, dy as int, 0) {
            Some(m) => r.hit
                && r.distance == m * (STEP_FP as int)
                && 0 <= r.distance < MAX_DEPTH_FP
                && r.x == ray_x(px as int, dx as int, r.distance as int)
                && r.y == ray_y(py as int, dy as int, r.distance as int)
                && wall_at_spec(maze@, r.x as int, r.y as int) == Some(r.symbol),
            None => !r.hit,
        },
{
    let ghost g = maze@;
    let mut d: i64 = 0;
    let ghost mut k: int = 0;
    while d < MAX_DEPTH_FP
        invariant
            -POS_LIMIT <= px <= POS_LIMIT,
            -POS_LIMIT <= py <= POS_LIMIT,
            -FP_ONE <= dx <= FP_ONE,
            -FP_ONE <= dy <= FP_ONE,
            g == maze@,
            0 <= k <= STEP_LIMIT,
            d == k * (STEP_FP as int),
            0 <= d <= MAX_DEPTH_FP + STEP_FP,
            first_hit_from(g, px as int, py as int, dx as int, dy as int, 0)
                == first_hit_from(g, px as int, py as int, dx as int, dy as int, k),
        decreases MAX_DEPTH_FP + STEP_FP - d,
    {
        proof {
            lemma_fp_mul_bounded(d as int, dx as int, MAX_DEPTH_FP as int, FP_ONE as int);
            lemma_fp_mul_bounded(d as int, dy as int, MAX_DEPTH_FP as int, FP_ONE as int);
            assert(k < STEP_LIMIT) by (nonlinear_arith)
                requires
                    k * (STEP_FP as int) < MAX_DEPTH_FP as int,
                    STEP_FP as int == 655,
                    MAX_DEPTH_FP as int == 1310720,
                    STEP_LIMIT as int == 2002,
                    k >= 0,
            ;
        }
        let x: i64 = px + fp_mul(d, dx);
        let y: i64 = py + fp_mul(d, dy);
        match maze.get_wall(x, y) {
            Some(ch) => {
                proof {
                    assert(hit_at_step(g, px as int, py as int, dx as int, dy as int, k));
                    assert(first_hit_from(g, px as int, py as int, dx as int, dy as int, k)
                        == Some(k));
                }
                return RayHit { hit: true, symbol: ch, x, y, distance: d };
            },
            None => {
                proof {
                    assert(!hit_at_step(g, px as int, py as int, dx as int, dy as int, k));
                    assert(first_hit_from(g, px as int, py as int, dx as int, dy as int, k)
                        == first_hit_from(g, px as int, py as int, dx as int, dy as int, k + 1));
                }
            },
        }
        d = d + STEP_FP;
        proof {
            k = k + 1;
        }
    }
    proof {
        assert(first_hit_from(g, px as int, py as int, dx as int, dy as int, k) is None);
    }
    RayHit { hit: false, symbol: crate::maze::EMPTY_CELL, x: 0, y: 0, distance: d }
}

/// The cosine of the angle between the facing direction `(fx, fy)` and
/// the ray direction `(dx, dy)`, as the dot product of the two unit
/// vectors.
pub fn fisheye_cos(fx: i64, fy: i64, dx: i64, dy: i64) -> (c: i64)
    requires
        -FP_ONE <= fx <= FP_ONE,
        -FP_ONE <= fy <= FP_ONE,
        -FP_ONE <= dx <= FP_ONE,
        -FP_ONE <= dy <= FP_ONE,
    ensures
        c == fp_mul_spec(fx as int, dx as int) + fp_mul_spec(fy as int, dy as int),
        -2 * FP_ONE <= c <= 2 * FP_ONE,
{
    proof {
        lemma_fp_mul_bounded(fx as int, dx as int, FP_ONE as int, FP_ONE as int);
        lemma_fp_mul_bounded(fy as int, dy as int, FP_ONE as int, FP_ONE as int);
    }
    fp_mul(fx, dx) + fp_mul(fy, dy)
}

/// Removes the fish-eye distortion: scales the raw march distance by the
/// cosine of the ray's angular offset from the facing direction. With no
/// offset (cosine exactly one) the corrected distance equals the raw
/// distance; a cosine at most one never grows it.
pub fn corrected_distance(distance: i64, cos_off: i64) -> (r: i64)
    requires
        0 <= distance <= MAX_DEPTH_FP,
        -2 * FP_ONE <= cos_off <= 2 * FP_ONE,
    ensures
        r == fp_mul_spec(distance as int, cos_off as int),
        cos_off == FP_ONE ==> r == distance,
        0 <= cos_off <= FP_ONE ==> 0 <= r <= distance,
        -2 * MAX_DEPTH_FP <= r <= 2 * MAX_DEPTH_FP,
{
    proof {
        if cos_off == FP_ONE {
            lemma_fp_mul_one(distance as int);
        }
        if 0 <= cos_off && cos_off <= FP_ONE {
            lemma_fp_mul_le_arg(distance as int, cos_off as int);
        }
        lemma_fp_mul_bounded(distance as int, cos_off as int,
            MAX_DEPTH_FP as int, 2 * FP_ONE as int);
    }
    fp_mul(distance, cos_off)
}

/// Projected wall slice height in pixels for screen height `h` at
/// corrected distance `cd`: inversely proportional to the distance.
pub open spec fn wall_height_spec(h: int, cd: int) -> int {
    (h * (PROJ_SCALE as int)) / cd
}

/// Projected wall height is strictly decreasing in the corrected
/// distance: comparing the exact ratios by cross-multiplication, the
/// height at the nearer distance exceeds the height at the farther one,
/// and the integer pixel height never increases.
pub proof fn lemma_wall_height_antitone(h: int, cd1: int, cd2: int)
    requires
        0 < h,
        0 < cd1 < cd2,
    ensures
        wall_height_spec(h, cd1) >= wall_height_spec(h, cd2),
        h * (PROJ_SCALE as int) * cd2 > h * (PROJ_SCALE as int) * cd1,
{
    assert(h * (PROJ_SCALE as int) > 0) by (nonlinear_arith)
        requires 0 < h;
    vstd::arithmetic::div_mod::lemma_div_is_ordered_by_denominator(
        h * (PROJ_SCALE as int), cd1, cd2);
    assert(h * (PROJ_SCALE as int) * cd2 > h * (PROJ_SCALE as int) * cd1) by (nonlinear_arith)
        requires h * (PROJ_SCALE as int) > 0 && cd1 < cd2;
}

/// The vertical span `[start, end)` of the wall slice for screen height
/// `h` at corrected distance `cd`, centered on mid-screen and clamped to
/// the screen; a non-positive distance (a hit at the player's own
/// position) fills the whole column.
pub open spec fn slice_bounds_spec(h: int, cd: int) -> (int, int) {
    if cd <= 0 {
        (0, h)
    } else {
        let wh = wall_height_spec(h, cd);
        let s = if h / 2 - wh / 2 >= 0 { h / 2 - wh / 2 } else { 0 };
        let e = if h / 2 + wh / 2 <= h { h / 2 + wh / 2 } else { h };
        (s, e)
    }
}

/// Computes the clamped vertical span of the wall slice.
pub fn slice_bounds(h: usize, cd: i64) -> (r: (usize, usize))
    requires
        h <= 32768,
        cd <= 2 * MAX_DEPTH_FP,
    ensures
        (r.0 as int, r.1 as int) == slice_bounds_spec(h as int, cd as int),
        r.0 <= r.1 <= h,
{
    if cd <= 0 {
        return (0, h);
    }
    let num: i64 = (h as i64) * PROJ_SCALE;
    let wh: i64 = div_nonneg(num, cd);
    let half: i64 = div_nonneg(wh, 2);
    proof {
        vstd::arithmetic::div_mod::lemma_div_pos_is_pos(num as int, cd as int);
        vstd::arithmetic::div_mod::lemma_div_pos_is_pos(wh as int, 2);
    }
    let hh: i64 = (h / 2) as i64;
    let s: i64 = if hh > half { hh - half } else { 0 };
    let e: i64 = if hh + half < (h as i64) { hh + half } else { h as i64 };
    (s as usize, e as usize)
}

/// The horizontal texture coordinate of a wall hit, before scaling: the
/// fractional part of whichever hit coordinate deviates more from the
/// cell center, which selects the axis that varies along the wall face.
pub open spec fn hit_frac_spec(hx: int, hy: int) -> int {
    let fx = fp_fract(hx);
    let fy = fp_fract(hy);
    if vstd::math::abs(fx - FP_HALF as int) > vstd::math::abs(fy - FP_HALF as int) {
        fx
    } else {
        fy
    }
}

/// The texture column of a wall hit for a texture of width `tw`: the
/// selected fractional coordinate scaled to the texture width, with a
/// negative fraction clamped to the first column.
pub open spec fn tex_x_spec(hx: int, hy: int, tw: int) -> int {
    let f = hit_frac_spec(hx, hy);
    if f < 0 {
        0
    } else {
        f * tw / (FP_ONE as int)
    }
}

/// Computes the texture column of a wall hit.
pub fn tex_x(hx: i64, hy: i64, tw: u32) -> (tx: u32)
    requires
        i64::MIN < hx,
        i64::MIN < hy,
        0 < tw,
    ensures
        tx == tex_x_spec(hx as int, hy as int, tw as int),
        tx < tw,
{
    let fx: i64 = fp_frac(hx);
    let fy: i64 = fp_frac(hy);
    let devx: i64 = if fx >= FP_HALF { fx - FP_HALF } else { FP_HALF - fx };
    let devy: i64 = if fy >= FP_HALF { fy - FP_HALF } else { FP_HALF - fy };
    let f: i64 = if devx > devy { fx } else { fy };
    if f < 0 {
        0
    } else {
        proof {
            assert((f as int) * (tw as int) <= 65536 * 0xFFFF_FFFF) by (nonlinear_arith)
                requires 0 <= (f as int) < 65536 && 0 < (tw as int) <= 0xFFFF_FFFF;
        }
        let p: u64 = (f as u64) * (tw as u64);
        let q: u64 = p / 65536u64;
        proof {
            assert(p < 65536 * (tw as int)) by (nonlinear_arith)
                requires p == (f as int) * (tw as int) && 0 <= (f as int) < 65536
                    && 0 < (tw as int);
            vstd::arithmetic::div_mod::lemma_fundamental_div_mod(p as int, 65536int);
            assert(q < tw) by (nonlinear_arith)
                requires
                    (p as int) == 65536 * (q as int) + ((p as int) % 65536),
                    0 <= (p as int) % 65536,
                    p < 65536 * (tw as int),
            ;
        }
        q as u32
    }
}

/// The vertical texture coordinate for screen row `y` of a slice
/// spanning `[start, end)`: linear interpolation over the texture height.
pub open spec fn tex_y_spec(y: int, start: int, end: int, th: int) -> int {
    (y - start) * th / (end - start)
}

/// Computes the vertical texture coordinate for one screen row.
pub fn tex_y(y: usize, start: usize, end: usize, th: u32) -> (ty: u32)
    requires
        start <= y < end,
        end <= 32768,
        0 < th,
    ensures
        ty == tex_y_spec(y as int, start as int, end as int, th as int),
        ty < th,
{
    proof {
        assert(((y as int) - (start as int)) * (th as int) <= 32768 * 0xFFFF_FFFF)
            by (nonlinear_arith)
            requires 0 <= (y as int) - (start as int) <= 32768
                && 0 < (th as int) <= 0xFFFF_FFFF;
    }
    let num: u64 = ((y - start) as u64) * (th as u64);
    let den: u64 = (end - start) as u64;
    let q: u64 = num / den;
    proof {
        assert(num < (den as int) * (th as int)) by (nonlinear_arith)
            requires
                num == ((y as int) - (start as int)) * (th as int),
                (den as int) == (end as int) - (start as int),
                ((y as int) - (start as int)) < (den as int),
                0 < (th as int),
        ;
        vstd::arithmetic::div_mod::lemma_fundamental_div_mod(num as int, den as int);
        assert(q < th) by (nonlinear_arith)
            requires
                (num as int) == (den as int) * (q as int) + ((num as int) % (den as int)),
                0 <= (num as int) % (den as int),
                num < (den as int) * (th as int),
                0 < (den as int),
        ;
    }
    q as u32
}

/// Width and height of the texture bound to `ch`, with the degenerate
/// one-by-one size standing in when no texture is bound.
pub open spec fn tex_size_spec(entries: Seq<(u8, Texture)>, ch: u8) -> (int, int) {
    match lookup_spec(entries, ch) {
        Some(t) => (t.width_spec(), t.height_spec()),
        None => (1, 1),
    }
}

/// The color one rendered column leaves at row `y`, over the old pixel
/// `old_color`: untouched when the ray misses or the row lies outside the
/// projected slice, and the sampled texel of the hit wall otherwise.
pub open spec fn column_pixel_spec(
    g: Seq<Seq<u8>>,
    entries: Seq<(u8, Texture)>,
    h: int,
    px: int, py: int,
    fx: int, fy: int,
    dx: int, dy: int,
    y: int,
    old_color: Color,
) -> Color {
    match first_hit_from(g, px, py, dx, dy, 0) {
        None => old_color,
        Some(m) => {
            let d = m * (STEP_FP as int);
            let hx = ray_x(px, dx, d);
            let hy = ray_y(py, dy, d);
            let ch = wall_at_spec(g, hx, hy)->Some_0;
            let cos = fp_mul_spec(fx, dx) + fp_mul_spec(fy, dy);
            let cd = fp_mul_spec(d, cos);
            let (start, end) = slice_bounds_spec(h, cd);
            if start <= y < end {
                let (tw, th) = tex_size_spec(entries, ch);
                let tx = tex_x_spec(hx, hy, tw);
                let ty = tex_y_spec(y, start, end, th);
                sample_spec(entries, ch, tx, ty)
            } else {
                old_color
            }
        },
    }
}

/// Renders one screen column: casts the column's ray along `(dx, dy)`
/// and, on a hit, draws the textured wall slice into column `col`; on a
/// miss, or outside the slice, the framebuffer is left untouched.
#[verifier::loop_isolation(false)]
pub fn render_column(
    fb: &mut Framebuffer,
    maze: &Maze,
    tm: &TextureManager,
    col: usize,
    px: i64,
    py: i64,
    fx: i64,
    fy: i64,
    dx: i64,
    dy: i64,
)
    requires
        old(fb).wf(),
        old(fb).height_spec() <= 32768,
        tm.wf(),
        -POS_LIMIT <= px <= POS_LIMIT,
        -POS_LIMIT <= py <= POS_LIMIT,
        -FP_ONE <= fx <= FP_ONE,
        -FP_ONE <= fy <= FP_ONE,
        -FP_ONE <= dx <= FP_ONE,
        -FP_ONE <= dy <= FP_ONE,
    ensures
        final(fb).wf(),
        final(fb).width_spec() == old(fb).width_spec(),
        final(fb).height_spec() == old(fb).height_spec(),
        final(fb).background_spec() == old(fb).background_spec(),
        final(fb)@.len() == old(fb)@.len(),
        forall|xx: int, yy: int|
            0 <= xx < old(fb).width_spec() && 0 <= yy < old(fb).height_spec()
            ==> #[trigger] final(fb).pixel_at(xx, yy) == (if xx == col as int {
                    column_pixel_spec(maze@, tm@, old(fb).height_spec(),
                        px as int, py as int, fx as int, fy as int,
                        dx as int, dy as int, yy, old(fb).pixel_at(xx, yy))
                } else {
                    old(fb).pixel_at(xx, yy)
                }),
{
    let ghost g = maze@;
    let ray: RayHit = cast_ray(maze, px, py, dx, dy);
    if !ray.hit {
        return;
    }
    proof {
        lemma_fp_mul_bounded(ray.distance as int, dx as int,
            MAX_DEPTH_FP as int, FP_ONE as int);
        lemma_fp_mul_bounded(ray.distance as int, dy as int,
            MAX_DEPTH_FP as int, FP_ONE as int);
    }
    let cos: i64 = fisheye_cos(fx, fy, dx, dy);
    let cd: i64 = corrected_distance(ray.distance, cos);
    let h: usize = fb.height();
    let se: (usize, usize) = slice_bounds(h, cd);
    let start: usize = se.0;
    let end: usize = se.1;
    let twth: (u32, u32) = tm.texture_size(ray.symbol);
    let tw: u32 = twth.0;
    let th: u32 = twth.1;
    let tx: u32 = tex_x(ray.x, ray.y, tw);
    let mut y: usize = start;
    while y < end
        invariant
            start <= y <= end,
            fb.wf(),
            fb.width_spec() == old(fb).width_spec(),
            fb.height_spec() == old(fb).height_spec(),
            fb.background_spec() == old(fb).background_spec(),
            fb@.len() == old(fb)@.len(),
            forall|xx: int, yy: int|
                0 <= xx < old(fb).width_spec() && 0 <= yy < old(fb).height_spec()
                ==> #[trigger] fb.pixel_at(xx, yy) == (if xx == col as int
                        && start <= yy < y {
                        column_pixel_spec(g, tm@, old(fb).height_spec(),
                            px as int, py as int, fx as int, fy as int,
                            dx as int, dy as int, yy, old(fb).pixel_at(xx, yy))
                    } else {
                        old(fb).pixel_at(xx, yy)
                    }),
        decreases end - y,
    {
        let ty: u32 = tex_y(y, start, end, th);
        let c: Color = tm.get_pixel_color(ray.symbol, tx, ty);
        proof {
            assert(c == column_pixel_spec(g, tm@, old(fb).height_spec(),
                px as int, py as int, fx as int, fy as int,
                dx as int, dy as int, y as int,
                old(fb).pixel_at(col as int, y as int)));
        }
        let ghost prev = *fb;
        fb.set(col, y, c);
        proof {
            crate::framebuffer::lemma_wf_len(&prev);
            let w = old(fb).width_spec();
            let hgt = old(fb).height_spec();
            if (col as int) < w {
                assert((y as int) < hgt);
                assert(0 <= (y as int) * w + (col as int) < prev@.len())
                    by (nonlinear_arith)
                    requires 0 <= (col as int) < w && 0 <= (y as int) < hgt
                        && prev@.len() == w * hgt;
            }
            assert forall|xx: int, yy: int|
                0 <= xx < w && 0 <= yy < hgt
                implies #[trigger] fb.pixel_at(xx, yy) == (if xx == col as int
                        && start <= yy < y + 1 {
                        column_pixel_spec(g, tm@, hgt,
                            px as int, py as int, fx as int, fy as int,
                            dx as int, dy as int, yy, old(fb).pixel_at(xx, yy))
                    } else {
                        old(fb).pixel_at(xx, yy)
                    }) by {
                assert(0 <= yy * w + xx < prev@.len()) by (nonlinear_arith)
                    requires 0 <= xx < w && 0 <= yy < hgt && prev@.len() == w * hgt;
                if (col as int) < w {
                    assert((y as int) < hgt);
                    assert(0 <= (y as int) * w + (col as int) < prev@.len())
                        by (nonlinear_arith)
                        requires 0 <= (col as int) < w && 0 <= (y as int) < hgt
                            && prev@.len() == w * hgt;
                    assert(fb@ == prev@.update((y as int) * w + col as int, c));
                    if xx == col as int && yy == y as int {
                        assert(fb.pixel_at(xx, yy) == c);
                    } else {
                        crate::framebuffer::lemma_rowmajor_distinct(
                            w, xx, yy, col as int, y as int);
                        assert(fb.pixel_at(xx, yy) == prev.pixel_at(xx, yy));
                    }
                } else {
                    assert(fb@ == prev@);
                    assert(fb.pixel_at(xx, yy) == prev.pixel_at(xx, yy));
                }
            }
        }
        y = y + 1;
    }
}

/// Renders a full frame: one ray per screen column, the ray of column
/// `i` pointing along `dirs[i]`. Every pixel of the result is determined
/// by its own column's ray alone; columns whose ray misses keep their old
/// contents.
#[verifier::loop_isolation(false)]
pub fn render_frame(
    fb: &mut Framebuffer,
    maze: &Maze,
    tm: &TextureManager,
    px: i64,
    py: i64,
    fx: i64,
    fy: i64,
    dirs: &Vec<(i64, i64)>,
)
    requires
        old(fb).wf(),
        old(fb).height_spec() <= 32768,
        tm.wf(),
        -POS_LIMIT <= px <= POS_LIMIT,
        -POS_LIMIT <= py <= POS_LIMIT,
        -FP_ONE <= fx <= FP_ONE,
        -FP_ONE <= fy <= FP_ONE,
        dirs@.len() == old(fb).width_spec(),
        forall|i: int| 0 <= i < dirs@.len()
            ==> -FP_ONE <= (#[trigger] dirs@[i]).0 <= FP_ONE
                && -FP_ONE <= dirs@[i].1 <= FP_ONE,
    ensures
        final(fb).wf(),
        final(fb).width_spec() == old(fb).width_spec(),
        final(fb).height_spec() == old(fb).height_spec(),
        final(fb).background_spec() == old(fb).background_spec(),
        final(fb)@.len() == old(fb)@.len(),
        forall|xx: int, yy: int|
            0 <= xx < old(fb).width_spec() && 0 <= yy < old(fb).height_spec()
            ==> #[trigger] final(fb).pixel_at(xx, yy) == column_pixel_spec(
                    maze@, tm@, old(fb).height_spec(),
                    px as int, py as int, fx as int, fy as int,
                    dirs@[xx].0 as int, dirs@[xx].1 as int, yy,
                    old(fb).pixel_at(xx, yy)),
{
    let w: usize = fb.width();
    let mut col: usize = 0;
    while col < w
        invariant
            col <= w,
            fb.wf(),
            fb.width_spec() == old(fb).width_spec(),
            fb.height_spec() == old(fb).height_spec(),
            fb.background_spec() == old(fb).background_spec(),
            fb@.len() == old(fb)@.len(),
            forall|xx: int, yy: int|
                0 <= xx < old(fb).width_spec() && 0 <= yy < old(fb).height_spec()
                ==> #[trigger] fb.pixel_at(xx, yy) == (if xx < col as int {
                        column_pixel_spec(maze@, tm@, old(fb).height_spec(),
                            px as int, py as int, fx as int, fy as int,
                            dirs@[xx].0 as int, dirs@[xx].1 as int, yy,
                            old(fb).pixel_at(xx, yy))
                    } else {
                        old(fb).pixel_at(xx, yy)
                    }),
        decreases w - col,
    {
        let d: (i64, i64) = dirs[col];
        let ghost prev = *fb;
        render_column(fb, maze, tm, col, px, py, fx, fy, d.0, d.1);
        proof {
            assert forall|xx: int, yy: int|
                0 <= xx < old(fb).width_spec() && 0 <= yy < old(fb).height_spec()
                implies #[trigger] fb.pixel_at(xx, yy) == (if xx < col as int + 1 {
                        column_pixel_spec(maze@, tm@, old(fb).height_spec(),
                            px as int, py as int, fx as int, fy as int,
                            dirs@[xx].0 as int, dirs@[xx].1 as int, yy,
                            old(fb).pixel_at(xx, yy))
                    } else {
                        old(fb).pixel_at(xx, yy)
                    }) by {
                assert(prev.pixel_at(xx, yy) == (if xx < col as int {
                    column_pixel_spec(maze@, tm@, old(fb).height_spec(),
                        px as int, py as int, fx as int, fy as int,
                        dirs@[xx].0 as int, dirs@[xx].1 as int, yy,
                        old(fb).pixel_at(xx, yy))
                } else {
                    old(fb).pixel_at(xx, yy)
                }));
            }
        }
        col = col + 1;
    }
}

} // verus!
