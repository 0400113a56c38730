//! The player: a continuous fixed-point position moved by directional
//! inputs, with an eight-point collision probe against the maze. The X
//! and Y moves are resolved independently, so a diagonal push into a wall
//! still slides along the free axis.

use vstd::prelude::*;
use crate::fixed::{FP_ONE, fp_mul, fp_mul_spec, lemma_fp_mul_bounded};
use crate::maze::{Maze, wall_at_spec};

verus! {

/// Distance moved in one fixed timestep: the movement speed in cells per
/// second over the physics rate, in fixed-point units.
pub const MOVE_STEP: i64 = 21845;

/// The collision radius around the player's position, in fixed-point
/// units (a fifth of a cell).
pub const COLLISION_RADIUS: i64 = 13107;

/// Offset of the diagonal probe points: seven tenths of the radius.
pub const COLLISION_DIAG: i64 = 9174;

/// One over the square root of two in fixed-point units; scales the two
/// active axes of a diagonal move down to unit length.
pub const INV_SQRT2: i64 = 46341;

/// How far the squared length of a normalized nonzero movement vector may
/// deviate from one square cell.
pub const UNIT_NORM_TOL: i64 = 9266;

/// Positions the movement update accepts; far beyond any maze, well
/// inside the fixed-point range.
pub const POS_LIMIT: i64 = 65536 * 1048576;

/// The directional intents active during one movement update.
#[derive(Clone, Copy, PartialEq, Eq, Structural, Debug)]
pub struct MoveInput {
    pub forward: bool,
    pub backward: bool,
    pub strafe_right: bool,
    pub strafe_left: bool,
}

/// Net coefficient of one movement axis: opposite intents cancel.
pub open spec fn axis_coeff(pos: bool, neg: bool) -> int {
    (if pos { 1int } else { 0int }) - (if neg { 1int } else { 0int })
}

/// The movement direction in the player's facing frame, normalized to
/// unit length: each active axis contributes a unit, and a diagonal is
/// scaled by one over the square root of two.
pub open spec fn unit_coeffs_spec(input: MoveInput) -> (int, int) {
    let a = axis_coeff(input.forward, input.backward);
    let b = axis_coeff(input.strafe_right, input.strafe_left);
    if a != 0 && b != 0 {
        (a * (INV_SQRT2 as int), b * (INV_SQRT2 as int))
    } else {
        (a * (FP_ONE as int), b * (FP_ONE as int))
    }
}

/// Computes the normalized movement direction in the facing frame.
pub fn unit_coeffs(input: &MoveInput) -> (r: (i64, i64))
    ensures
        r.0 == unit_coeffs_spec(*input).0,
        r.1 == unit_coeffs_spec(*input).1,
        -FP_ONE <= r.0 <= FP_ONE,
        -FP_ONE <= r.1 <= FP_ONE,
{
    let mut a: i64 = 0;
    let mut b: i64 = 0;
    if input.forward {
        a = a + 1;
    }
    if input.backward {
        a = a - 1;
    }
    if input.strafe_right {
        b = b + 1;
    }
    if input.strafe_left {
        b = b - 1;
    }
    let s: i64 = if a != 0 && b != 0 {
        INV_SQRT2
    } else {
        FP_ONE
    };
    (a * s, b * s)
}

/// Movement normalization: whenever the active directional inputs do not
/// cancel out axis by axis, the movement direction before speed scaling
/// has unit length up to fixed-point rounding — its squared length
/// deviates from one square cell by at most `UNIT_NORM_TOL` — and with no
/// active input it is zero.
pub proof fn lemma_unit_coeffs_normalized(input: MoveInput)
    ensures
        ({
            let a = axis_coeff(input.forward, input.backward);
            let b = axis_coeff(input.strafe_right, input.strafe_left);
            let ca = unit_coeffs_spec(input).0;
            let cb = unit_coeffs_spec(input).1;
            &&& (a != 0 || b != 0) ==> (FP_ONE as int) * (FP_ONE as int)
                    <= ca * ca + cb * cb
                    <= (FP_ONE as int) * (FP_ONE as int) + (UNIT_NORM_TOL as int)
            &&& (!input.forward && !input.backward && !input.strafe_right
                    && !input.strafe_left) ==> (ca == 0 && cb == 0)
        }),
{
    let a = axis_coeff(input.forward, input.backward);
    let b = axis_coeff(input.strafe_right, input.strafe_left);
    assert(-1 <= a <= 1 && -1 <= b <= 1);
    let ca = unit_coeffs_spec(input).0;
    let cb = unit_coeffs_spec(input).1;
    if a != 0 && b != 0 {
        assert(ca * ca == 46341 * 46341) by (nonlinear_arith)
            requires ca == a * 46341 && (a == 1 || a == -1);
        assert(cb * cb == 46341 * 46341) by (nonlinear_arith)
            requires cb == b * 46341 && (b == 1 || b == -1);
    } else if a != 0 {
        assert(ca * ca == 65536 * 65536) by (nonlinear_arith)
            requires ca == a * 65536 && (a == 1 || a == -1);
        assert(cb == 0);
    } else if b != 0 {
        assert(cb * cb == 65536 * 65536) by (nonlinear_arith)
            requires cb == b * 65536 && (b == 1 || b == -1);
        assert(ca == 0);
    } else {
        assert(ca == 0 && cb == 0);
    }
}

/// Whether a player body centered at `(x, y)` overlaps a wall: one of the
/// eight probe points around the center — four at the collision radius on
/// the axes, four at seven tenths of it on the diagonals — lands in a
/// solid cell.
pub open spec fn probe_collides(g: Seq<Seq<u8>>, x: int, y: int) -> bool {
    let cr = COLLISION_RADIUS as int;
    let cd = COLLISION_DIAG as int;
    ||| wall_at_spec(g, x + cr, y) is Some
    ||| wall_at_spec(g, x - cr, y) is Some
    ||| wall_at_spec(g, x, y + cr) is Some
    ||| wall_at_spec(g, x, y - cr) is Some
    ||| wall_at_spec(g, x + cd, y + cd) is Some
    ||| wall_at_spec(g, x - cd, y + cd) is Some
    ||| wall_at_spec(g, x + cd, y - cd) is Some
    ||| wall_at_spec(g, x - cd, y - cd) is Some
}

/// Where one movement update puts the player: the candidate position one
/// step along the normalized movement direction, with the X move and then
/// the Y move each kept only if the probe at its destination is clear.
/// The two axes are independent, so a diagonal push into a wall slides.
pub open spec fn new_pos_spec(
    g: Seq<Seq<u8>>,
    px: int,
    py: int,
    input: MoveInput,
    dir_x: int,
    dir_y: int,
) -> (int, int) {
    let (ca, cb) = unit_coeffs_spec(input);
    let ux = fp_mul_spec(ca, dir_x) + fp_mul_spec(cb, -dir_y);
    let uy = fp_mul_spec(ca, dir_y) + fp_mul_spec(cb, dir_x);
    let nx = px + fp_mul_spec(ux, MOVE_STEP as int);
    let ny = py + fp_mul_spec(uy, MOVE_STEP as int);
    let x2 = if !probe_collides(g, nx, py) { nx } else { px };
    let y2 = if !probe_collides(g, x2, ny) { ny } else { py };
    (x2, y2)
}

/// The player: a continuous position in maze-cell units. The facing
/// angle, turned by keyboard and mouse, lives with the input layer; the
/// movement update receives the facing as a unit vector.
pub struct Player {
    /// Fixed-point world X coordinate.
    pub x: i64,
    /// Fixed-point world Y coordinate.
    pub y: i64,
}

impl Player {
    /// A player at the fixed level start position.
    pub fn new() -> (p: Player)
        ensures
            p.x == 7 * FP_ONE / 2,
            p.y == 7 * FP_ONE / 2,
    {
        Player { x: 229376, y: 229376 }
    }

    /// Whether a player body centered at `(x, y)` would overlap a wall,
    /// probing eight points around the center.
    pub fn check_collision(&self, x: i64, y: i64, maze: &Maze) -> (r: bool)
        requires
            -POS_LIMIT <= x <= POS_LIMIT,
            -POS_LIMIT <= y <= POS_LIMIT,
        ensures
            r == probe_collides(maze@, x as int, y as int),
    {
        if maze.get_wall(x + COLLISION_RADIUS, y).is_some() {
            return true;
        }
        if maze.get_wall(x - COLLISION_RADIUS, y).is_some() {
            return true;
        }
        if maze.get_wall(x, y + COLLISION_RADIUS).is_some() {
            return true;
        }
        if maze.get_wall(x, y - COLLISION_RADIUS).is_some() {
            return true;
        }
        if maze.get_wall(x + COLLISION_DIAG, y + COLLISION_DIAG).is_some() {
            return true;
        }
        if maze.get_wall(x - COLLISION_DIAG, y + COLLISION_DIAG).is_some() {
            return true;
        }
        if maze.get_wall(x + COLLISION_DIAG, y - COLLISION_DIAG).is_some() {
            return true;
        }
        if maze.get_wall(x - COLLISION_DIAG, y - COLLISION_DIAG).is_some() {
            return true;
        }
        false
    }

    /// One movement update: moves one fixed timestep along the normalized
    /// direction the inputs select in the facing frame `(dir_x, dir_y)`,
    /// accepting the X and the Y move independently, each only if the
    /// collision probe at its destination is clear.
    pub fn update(&mut self, maze: &Maze, input: &MoveInput, dir_x: i64, dir_y: i64)
        requires
            -POS_LIMIT + FP_ONE <= old(self).x <= POS_LIMIT - FP_ONE,
            -POS_LIMIT + FP_ONE <= old(self).y <= POS_LIMIT - FP_ONE,
            -FP_ONE <= dir_x <= FP_ONE,
            -FP_ONE <= dir_y <= FP_ONE,
        ensures
            (final(self).x as int, final(self).y as int) == new_pos_spec(
                maze@, old(self).x as int, old(self).y as int, *input,
                dir_x as int, dir_y as int),
            -POS_LIMIT <= final(self).x <= POS_LIMIT,
            -POS_LIMIT <= final(self).y <= POS_LIMIT,
    {
        let (ca, cb): (i64, i64) = unit_coeffs(input);
        proof {
            lemma_fp_mul_bounded(ca as int, dir_x as int, FP_ONE as int, FP_ONE as int);
            lemma_fp_mul_bounded(cb as int, -(dir_y as int), FP_ONE as int, FP_ONE as int);
            lemma_fp_mul_bounded(ca as int, dir_y as int, FP_ONE as int, FP_ONE as int);
            lemma_fp_mul_bounded(cb as int, dir_x as int, FP_ONE as int, FP_ONE as int);
        }
        let ux: i64 = fp_mul(ca, dir_x) + fp_mul(cb, -dir_y);
        let uy: i64 = fp_mul(ca, dir_y) + fp_mul(cb, dir_x);
        proof {
            lemma_fp_mul_bounded(ux as int, MOVE_STEP as int,
                2 * FP_ONE as int, MOVE_STEP as int);
            lemma_fp_mul_bounded(uy as int, MOVE_STEP as int,
                2 * FP_ONE as int, MOVE_STEP as int);
        }
        let nx: i64 = self.x + fp_mul(ux, MOVE_STEP);
        let ny: i64 = self.y + fp_mul(uy, MOVE_STEP);
        if !self.check_collision(nx, self.y, maze) {
            self.x = nx;
        }
        if !self.check_collision(self.x, ny, maze) {
            self.y = ny;
        }
    }
}

/// Sliding along a wall: when the X move alone is blocked by the probe
/// but the Y destination (keeping the old X) is clear, the update still
/// performs the full Y move — the two axes are checked independently, so
/// a diagonal push into a wall is not stopped dead.
pub proof fn lemma_slide_on_blocked_x(
    g: Seq<Seq<u8>>,
    px: int,
    py: int,
    input: MoveInput,
    dir_x: int,
    dir_y: int,
)
    requires
        ({
            let (ca, cb) = unit_coeffs_spec(input);
            let ux = fp_mul_spec(ca, dir_x) + fp_mul_spec(cb, -dir_y);
            let uy = fp_mul_spec(ca, dir_y) + fp_mul_spec(cb, dir_x);
            let nx = px + fp_mul_spec(ux, MOVE_STEP as int);
            let ny = py + fp_mul_spec(uy, MOVE_STEP as int);
            probe_collides(g, nx, py) && !probe_collides(g, px, ny)
        }),
    ensures
        ({
            let (ca, cb) = unit_coeffs_spec(input);
            let uy = fp_mul_spec(ca, dir_y) + fp_mul_spec(cb, dir_x);
            let ny = py + fp_mul_spec(uy, MOVE_STEP as int);
            new_pos_spec(g, px, py, input, dir_x, dir_y) == (px, ny)
        }),
{
}

/// The mirror image: when the Y move alone is blocked but the X
/// destination is clear, the update still performs the full X move.
pub proof fn lemma_slide_on_blocked_y(
    g: Seq<Seq<u8>>,
    px: int,
    py: int,
    input: MoveInput,
    dir_x: int,
    dir_y: int,
)
    requires
        ({
            let (ca, cb) = unit_coeffs_spec(input);
            let ux = fp_mul_spec(ca, dir_x) + fp_mul_spec(cb, -dir_y);
            let uy = fp_mul_spec(ca, dir_y) + fp_mul_spec(cb, dir_x);
            let nx = px + fp_mul_spec(ux, MOVE_STEP as int);
            let ny = py + fp_mul_spec(uy, MOVE_STEP as int);
            !probe_collides(g, nx, py) && probe_collides(g, nx, ny)
        }),
    ensures
        ({
            let (ca, cb) = unit_coeffs_spec(input);
            let ux = fp_mul_spec(ca, dir_x) + fp_mul_spec(cb, -dir_y);
            let nx = px + fp_mul_spec(ux, MOVE_STEP as int);
            new_pos_spec(g, px, py, input, dir_x, dir_y) == (nx, py)
        }),
{
}

} // verus!
