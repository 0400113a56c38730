use raycaster::color::Color;
use raycaster::fixed::FP_ONE;
use raycaster::framebuffer::Framebuffer;
use raycaster::maze::Maze;
use raycaster::raycast::{
    cast_ray, corrected_distance, fisheye_cos, render_column, render_frame, slice_bounds,
    tex_x, tex_y, MAX_DEPTH_FP, STEP_FP,
};
use raycaster::textures::{Texture, TextureManager};

fn fp(cells: f64) -> i64 {
    (cells * FP_ONE as f64) as i64
}

fn rgba(r: u8, g: u8, b: u8) -> Color {
    Color { r, g, b, a: 255 }
}

fn solid_texture(color: Color) -> Texture {
    Texture::new(1, 1, vec![color])
}

#[test]
fn ray_from_inside_a_wall_hits_immediately() {
    let maze = Maze::load(&b"#".to_vec());
    let ray = cast_ray(&maze, fp(0.5), fp(0.5), FP_ONE, 0);
    assert!(ray.hit);
    assert_eq!(ray.distance, 0);
    assert_eq!(ray.symbol, b'#');
    assert_eq!(ray.x, fp(0.5));
    assert_eq!(ray.y, fp(0.5));
}

#[test]
fn ray_in_an_open_maze_misses() {
    let maze = Maze::load(&b"    \n    ".to_vec());
    let ray = cast_ray(&maze, fp(1.0), fp(1.0), FP_ONE, 0);
    assert!(!ray.hit);
    // aiming away from everything misses too
    let away = cast_ray(&maze, fp(1.0), fp(1.0), 0, -FP_ONE);
    assert!(!away.hit);
}

#[test]
fn march_stops_at_the_first_wall_with_the_exact_step_distance() {
    // open cell at x in [1, 2), walls on both sides
    let maze = Maze::load(&b"# #".to_vec());
    let ray = cast_ray(&maze, fp(1.25), fp(0.5), FP_ONE, 0);
    assert!(ray.hit);
    // the first step multiple carrying the point past x = 2.0
    let expected_steps = 76;
    assert_eq!(ray.distance, expected_steps * STEP_FP);
    assert_eq!(ray.x, fp(1.25) + ray.distance);
    assert_eq!(ray.y, fp(0.5));
    assert_eq!(ray.symbol, b'#');

    // looking the other way hits the near wall sooner
    let back = cast_ray(&maze, fp(1.25), fp(0.5), -FP_ONE, 0);
    assert!(back.hit);
    assert!(back.distance < ray.distance);
}

#[test]
fn corrected_distance_is_exact_straight_ahead_and_smaller_off_axis() {
    let d = 33405;
    assert_eq!(corrected_distance(d, FP_ONE), d);
    // half the cosine: half the distance, truncated
    assert_eq!(corrected_distance(d, FP_ONE / 2), d / 2);
    assert_eq!(corrected_distance(d, 0), 0);
    for &c in &[0, 13107, 32768, 46341, 65535, FP_ONE] {
        assert!(corrected_distance(d, c) <= d);
    }
}

#[test]
fn fisheye_cosine_is_the_dot_product_of_the_unit_vectors() {
    assert_eq!(fisheye_cos(FP_ONE, 0, FP_ONE, 0), FP_ONE);
    assert_eq!(fisheye_cos(FP_ONE, 0, 0, FP_ONE), 0);
    assert_eq!(fisheye_cos(FP_ONE, 0, 46341, 46341), 46341);
    assert_eq!(fisheye_cos(0, FP_ONE, 0, -FP_ONE), -FP_ONE);
}

#[test]
fn slice_bounds_shrink_as_the_distance_grows() {
    let h = 600;
    // one cell away: 900 pixels tall, clamped to the whole screen
    assert_eq!(slice_bounds(h, FP_ONE), (0, 600));
    // two cells away: 450 pixels centered on mid-screen
    assert_eq!(slice_bounds(h, 2 * FP_ONE), (75, 525));
    // three cells away: 300 pixels
    assert_eq!(slice_bounds(h, 3 * FP_ONE), (150, 450));
    // a hit at distance zero fills the column
    assert_eq!(slice_bounds(h, 0), (0, 600));
    // spans never grow with distance
    let mut last: usize = 601;
    for k in 1..40 {
        let (s, e) = slice_bounds(h, k * FP_ONE / 2);
        assert!(e - s <= last);
        last = e - s;
    }
    assert!(last < 600);
}

#[test]
fn horizontal_texture_coordinate_follows_the_dominant_axis() {
    // both fractions at the cell center: the y fraction is used
    assert_eq!(tex_x(fp(0.5), fp(0.5), 64), 32);
    // x deviates more from the center: its fraction selects the column
    assert_eq!(tex_x(fp(3.9), fp(5.5), 64), (((fp(3.9) % FP_ONE) * 64) / FP_ONE) as u32);
    // y deviates more: its fraction is used
    let tx = tex_x(fp(7.25), fp(2.1), 64);
    assert_eq!(tx, (((fp(2.1) % FP_ONE) * 64) / FP_ONE) as u32);
    assert!(tx < 64);
}

#[test]
fn vertical_texture_coordinate_interpolates_the_slice() {
    assert_eq!(tex_y(0, 0, 10, 20), 0);
    assert_eq!(tex_y(5, 0, 10, 20), 10);
    assert_eq!(tex_y(9, 0, 10, 20), 18);
    assert_eq!(tex_y(75, 75, 450, 64), 0);
    assert!(tex_y(449, 75, 450, 64) < 64);
}

#[test]
fn texture_store_samples_and_clamps() {
    let pixels = vec![
        rgba(1, 0, 0), rgba(0, 1, 0),
        rgba(0, 0, 1), rgba(9, 9, 9),
    ];
    let tex = Texture::new(2, 2, pixels);
    let tm = TextureManager::new(vec![(b'#', tex)]);
    assert_eq!(tm.get_pixel_color(b'#', 0, 0), rgba(1, 0, 0));
    assert_eq!(tm.get_pixel_color(b'#', 1, 0), rgba(0, 1, 0));
    assert_eq!(tm.get_pixel_color(b'#', 0, 1), rgba(0, 0, 1));
    assert_eq!(tm.get_pixel_color(b'#', 1, 1), rgba(9, 9, 9));
    // out-of-range coordinates clamp to the last row and column
    assert_eq!(tm.get_pixel_color(b'#', 7, 0), rgba(0, 1, 0));
    assert_eq!(tm.get_pixel_color(b'#', 0, 7), rgba(0, 0, 1));
    // a symbol with no bound texture samples as white
    assert_eq!(tm.get_pixel_color(b'?', 0, 0), rgba(255, 255, 255));
    assert!(tm.get_texture(b'#').is_some());
    assert!(tm.get_texture(b'?').is_none());
}

#[test]
fn a_missed_ray_leaves_its_column_untouched() {
    let bg = rgba(0, 0, 40);
    let maze = Maze::load(&b"    ".to_vec());
    let tm = TextureManager::new(Vec::new());
    let mut fb = Framebuffer::new(4, 6, bg);
    render_column(&mut fb, &maze, &tm, 1, fp(1.0), fp(0.5), FP_ONE, 0, FP_ONE, 0);
    for y in 0..6 {
        for x in 0..4 {
            assert_eq!(fb.get(x, y), bg);
        }
    }
}

#[test]
fn a_hit_at_distance_zero_fills_its_whole_column() {
    let bg = rgba(0, 0, 40);
    let red = rgba(200, 0, 0);
    let maze = Maze::load(&b"#".to_vec());
    let tm = TextureManager::new(vec![(b'#', solid_texture(red))]);
    let mut fb = Framebuffer::new(3, 5, bg);
    render_column(&mut fb, &maze, &tm, 0, fp(0.5), fp(0.5), FP_ONE, 0, FP_ONE, 0);
    for y in 0..5 {
        assert_eq!(fb.get(0, y), red);
        assert_eq!(fb.get(1, y), bg);
        assert_eq!(fb.get(2, y), bg);
    }
}

#[test]
fn a_frame_renders_each_column_from_its_own_ray() {
    let bg = rgba(0, 0, 40);
    let red = rgba(200, 0, 0);
    // a wall to the east of the player, open to the north
    let maze = Maze::load(&b"   \n  #".to_vec());
    let tm = TextureManager::new(vec![(b'#', solid_texture(red))]);
    let mut fb = Framebuffer::new(2, 6, bg);
    // column 0 aims at the wall, column 1 away from it
    let dirs: Vec<(i64, i64)> = vec![(FP_ONE, 0), (0, -FP_ONE)];
    render_frame(&mut fb, &maze, &tm, fp(0.5), fp(1.5), FP_ONE, 0, &dirs);
    // the wall two cells away projects a centered red slice
    let (s, e) = slice_bounds(6, corrected_distance(151 * STEP_FP, FP_ONE));
    assert!(s < e);
    for y in 0..6 {
        let expected0 = if y >= s && y < e { red } else { bg };
        assert_eq!(fb.get(0, y), expected0);
        assert_eq!(fb.get(1, y), bg);
    }
    assert!(MAX_DEPTH_FP > fp(3.0));
}

#[test]
fn wall_slices_sample_the_texture_top_to_bottom() {
    let bg = rgba(0, 0, 40);
    let top = rgba(10, 0, 0);
    let bottom = rgba(0, 10, 0);
    let maze = Maze::load(&b"#".to_vec());
    // one column, two rows: the slice's upper half samples the first row
    let tex = Texture::new(1, 2, vec![top, bottom]);
    let tm = TextureManager::new(vec![(b'#', tex)]);
    let mut fb = Framebuffer::new(1, 6, bg);
    render_column(&mut fb, &maze, &tm, 0, fp(0.5), fp(0.5), FP_ONE, 0, FP_ONE, 0);
    for y in 0..6 {
        let expected = if y < 3 { top } else { bottom };
        assert_eq!(fb.get(0, y), expected);
    }
}
