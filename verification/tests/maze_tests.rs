use raycaster::fixed::FP_ONE;
use raycaster::maze::Maze;

fn fp(cells: f64) -> i64 {
    (cells * FP_ONE as f64) as i64
}

#[test]
fn three_row_grid_reports_walls_and_openings() {
    let source: Vec<u8> = b"####\n#  #\n####".to_vec();
    let maze = Maze::load(&source);
    assert_eq!(maze.row_count(), 3);
    // the middle of the open cell at (1, 1) has no wall
    assert_eq!(maze.get_wall(fp(1.5), fp(1.5)), None);
    // the corner cell holds the wall symbol
    assert_eq!(maze.get_wall(fp(0.5), fp(0.5)), Some(b'#'));
    assert_eq!(maze.get_wall(fp(3.5), fp(2.5)), Some(b'#'));
}

#[test]
fn lookups_outside_the_grid_find_no_wall() {
    let source: Vec<u8> = b"####\n#  #\n####".to_vec();
    let maze = Maze::load(&source);
    // beyond the last column and row
    assert_eq!(maze.get_wall(fp(4.5), fp(0.5)), None);
    assert_eq!(maze.get_wall(fp(0.5), fp(3.5)), None);
    // far outside
    assert_eq!(maze.get_wall(fp(1000.0), fp(0.5)), None);
    // a whole cell below zero truncates to a negative index: no wall
    assert_eq!(maze.get_wall(fp(-1.5), fp(0.5)), None);
    assert_eq!(maze.get_wall(fp(0.5), fp(-1.5)), None);
    assert_eq!(maze.get_wall(i64::MIN, 0), None);
}

#[test]
fn distinct_wall_symbols_come_back_as_themselves() {
    let source: Vec<u8> = b"#+-|\n    ".to_vec();
    let maze = Maze::load(&source);
    assert_eq!(maze.get_wall(fp(0.5), fp(0.5)), Some(b'#'));
    assert_eq!(maze.get_wall(fp(1.5), fp(0.5)), Some(b'+'));
    assert_eq!(maze.get_wall(fp(2.5), fp(0.5)), Some(b'-'));
    assert_eq!(maze.get_wall(fp(3.5), fp(0.5)), Some(b'|'));
    // every cell of the second row is empty
    for x in 0..4 {
        assert_eq!(maze.get_wall(fp(x as f64 + 0.5), fp(1.5)), None);
    }
}

#[test]
fn ragged_rows_are_tolerated() {
    let source: Vec<u8> = b"##\n#####\n#".to_vec();
    let maze = Maze::load(&source);
    assert_eq!(maze.row_count(), 3);
    assert_eq!(maze.get_wall(fp(4.5), fp(1.5)), Some(b'#'));
    // past the short first row's end, but inside the longer second row
    assert_eq!(maze.get_wall(fp(4.5), fp(0.5)), None);
    assert_eq!(maze.get_wall(fp(1.5), fp(2.5)), None);
}

#[test]
fn trailing_newline_adds_no_row() {
    let maze = Maze::load(&b"##\n##\n".to_vec());
    assert_eq!(maze.row_count(), 2);
    let bare = Maze::load(&b"##\n##".to_vec());
    assert_eq!(bare.row_count(), 2);
}

#[test]
fn crlf_line_ends_are_stripped() {
    let maze = Maze::load(&b"## \r\n###\r\n".to_vec());
    assert_eq!(maze.row_count(), 2);
    // the carriage return is not kept as a cell
    assert_eq!(maze.get_wall(fp(3.5), fp(0.5)), None);
    assert_eq!(maze.get_wall(fp(2.5), fp(0.5)), None); // the space
    assert_eq!(maze.get_wall(fp(2.5), fp(1.5)), Some(b'#'));
}

#[test]
fn empty_source_yields_no_rows() {
    let maze = Maze::load(&Vec::new());
    assert_eq!(maze.row_count(), 0);
    assert_eq!(maze.get_wall(fp(0.5), fp(0.5)), None);
}

#[test]
fn truncation_keeps_the_fraction_below_one_cell_at_zero() {
    let maze = Maze::load(&b"#".to_vec());
    // just below zero still truncates into cell zero, as a cast would
    assert_eq!(maze.get_wall(fp(-0.5), fp(0.5)), Some(b'#'));
    // a full cell below zero is outside
    assert_eq!(maze.get_wall(-FP_ONE, fp(0.5)), None);
}
