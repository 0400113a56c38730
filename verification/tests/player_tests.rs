use raycaster::fixed::FP_ONE;
use raycaster::maze::Maze;
use raycaster::player::{unit_coeffs, MoveInput, Player, INV_SQRT2};

fn fp(cells: f64) -> i64 {
    (cells * FP_ONE as f64) as i64
}

fn input(forward: bool, backward: bool, strafe_right: bool, strafe_left: bool) -> MoveInput {
    MoveInput { forward, backward, strafe_right, strafe_left }
}

fn squared_len(c: (i64, i64)) -> i64 {
    c.0 * c.0 + c.1 * c.1
}

#[test]
fn no_input_gives_zero_movement() {
    assert_eq!(unit_coeffs(&input(false, false, false, false)), (0, 0));
}

#[test]
fn single_axis_inputs_give_exact_unit_vectors() {
    assert_eq!(unit_coeffs(&input(true, false, false, false)), (FP_ONE, 0));
    assert_eq!(unit_coeffs(&input(false, true, false, false)), (-FP_ONE, 0));
    assert_eq!(unit_coeffs(&input(false, false, true, false)), (0, FP_ONE));
    assert_eq!(unit_coeffs(&input(false, false, false, true)), (0, -FP_ONE));
}

#[test]
fn diagonal_inputs_are_normalized_to_unit_length() {
    let one_sq = FP_ONE * FP_ONE;
    let tolerance = 9300;
    for &(f, b, r, l) in &[
        (true, false, true, false),
        (true, false, false, true),
        (false, true, true, false),
        (false, true, false, true),
    ] {
        let c = unit_coeffs(&input(f, b, r, l));
        assert_eq!(c.0.abs(), INV_SQRT2);
        assert_eq!(c.1.abs(), INV_SQRT2);
        let err = squared_len(c) - one_sq;
        assert!(err.abs() <= tolerance, "squared length off by {err}");
    }
    // single-axis vectors are exactly unit length
    assert_eq!(squared_len(unit_coeffs(&input(true, false, false, false))), one_sq);
}

#[test]
fn opposite_inputs_cancel() {
    assert_eq!(unit_coeffs(&input(true, true, false, false)), (0, 0));
    assert_eq!(unit_coeffs(&input(false, false, true, true)), (0, 0));
    // forward and backward cancel; the strafe still moves at unit length
    assert_eq!(unit_coeffs(&input(true, true, true, false)), (0, FP_ONE));
}

#[test]
fn player_starts_at_the_level_start() {
    let p = Player::new();
    assert_eq!(p.x, fp(3.5));
    assert_eq!(p.y, fp(3.5));
}

#[test]
fn open_floor_moves_forward_along_the_facing() {
    // a 6x6 room of open floor with a solid border
    let source: Vec<u8> = b"######\n#    #\n#    #\n#    #\n#    #\n######".to_vec();
    let maze = Maze::load(&source);
    let mut p = Player::new();
    p.x = fp(2.5);
    p.y = fp(2.5);
    let fwd = input(true, false, false, false);
    p.update(&maze, &fwd, FP_ONE, 0);
    // one fixed timestep at 20 cells per second over 60 frames
    assert_eq!(p.x, fp(2.5) + 21845);
    assert_eq!(p.y, fp(2.5));
}

#[test]
fn blocked_axis_still_slides_along_the_free_axis() {
    // the player sits at (1.5, 1.5); east is walled, south is open
    let source: Vec<u8> = b"####\n# ##\n# ##\n####".to_vec();
    let maze = Maze::load(&source);
    let mut p = Player::new();
    p.x = fp(1.5);
    p.y = fp(1.5);
    let diag = input(true, false, true, false);
    // facing east: forward pushes +x (blocked soon), strafe right pushes +y
    let mut xs: Vec<i64> = Vec::new();
    let mut ys: Vec<i64> = Vec::new();
    for _ in 0..10 {
        p.update(&maze, &diag, FP_ONE, 0);
        xs.push(p.x);
        ys.push(p.y);
    }
    // x advanced at first, then stopped short of the east wall
    assert!(xs[0] > fp(1.5));
    assert!(xs[9] < fp(1.8));
    assert_eq!(xs[5], xs[9]);
    // y kept sliding after x stopped, until its own wall
    assert!(ys[5] > xs[5]);
    assert!(ys[9] > fp(2.5));
    assert!(ys[9] < fp(2.8));
}

#[test]
fn walls_confine_the_player_to_its_cell() {
    let source: Vec<u8> = b"###\n# #\n###".to_vec();
    let maze = Maze::load(&source);
    let mut p = Player::new();
    p.x = fp(1.5);
    p.y = fp(1.5);
    for _ in 0..5 {
        p.update(&maze, &input(true, false, true, false), FP_ONE, 0);
    }
    // one diagonal step fits inside the cell; the second is blocked on
    // both axes by the collision radius against the surrounding walls
    let diagonal_step = 15446;
    assert_eq!(p.x, fp(1.5) + diagonal_step);
    assert_eq!(p.y, fp(1.5) + diagonal_step);
}

#[test]
fn collision_probe_sees_walls_within_the_radius() {
    let source: Vec<u8> = b"# ".to_vec();
    let maze = Maze::load(&source);
    let p = Player::new();
    // 0.15 cells from the wall cell's edge: the 0.2 radius reaches in
    assert!(p.check_collision(fp(1.15), fp(0.5), &maze));
    // 0.25 cells away: clear
    assert!(!p.check_collision(fp(1.25), fp(0.5), &maze));
}
