//! The grid maze: rows of single-byte cell symbols, parsed from a plain
//! textual description, with the single wall lookup both the renderer and
//! the collision probe use.

use vstd::prelude::*;
use crate::fixed::{FP_ONE, fp_trunc, fp_cell};

verus! {

/// The cell symbol that marks a passable, empty cell (a space).
pub const EMPTY_CELL: u8 = 32;

/// The row separator in a maze source (a line feed).
pub const LINE_FEED: u8 = 10;

/// Stripped from the end of a row when the source uses CRLF line ends.
pub const CARRIAGE_RETURN: u8 = 13;

/// A grid maze. Rows may differ in length; any lookup outside the grid
/// finds no wall. Loaded once per level and immutable afterwards.
pub struct Maze {
    grid: Vec<Vec<u8>>,
}

impl View for Maze {
    type V = Seq<Seq<u8>>;

    closed spec fn view(&self) -> Seq<Seq<u8>> {
        self.grid@.map_values(|row: Vec<u8>| row@)
    }
}

/// Index of the first line feed in `s`, or `s.len()` if there is none.
pub open spec fn first_line_end(s: Seq<u8>) -> int
    decreases s.len(),
{
    if s.len() == 0 {
        0
    } else if s[0] == LINE_FEED {
        0
    } else {
        1 + first_line_end(s.drop_first())
    }
}

/// A row with a trailing carriage return stripped.
pub open spec fn strip_cr(row: Seq<u8>) -> Seq<u8> {
    if row.len() > 0 && row.last() == CARRIAGE_RETURN {
        row.drop_last()
    } else {
        row
    }
}

/// The rows of a maze source: one per line-feed-separated line, each with
/// a trailing carriage return stripped. A source without a final line
/// feed still yields its last row; an empty source yields no rows.
pub open spec fn parse_rows(s: Seq<u8>) -> Seq<Seq<u8>>
    decreases s.len(),
{
    if s.len() == 0 {
        Seq::empty()
    } else {
        let i = first_line_end(s);
        if !(0 <= i < s.len()) {
            seq![strip_cr(s)]
        } else {
            seq![strip_cr(s.subrange(0, i))] + parse_rows(s.subrange(i + 1, s.len() as int))
        }
    }
}

/// `first_line_end` points at the first line feed, or at the end.
pub proof fn lemma_first_line_end(s: Seq<u8>)
    ensures
        0 <= first_line_end(s) <= s.len(),
        first_line_end(s) < s.len() ==> s[first_line_end(s)] == LINE_FEED,
        forall|j: int| 0 <= j < first_line_end(s) ==> s[j] != LINE_FEED,
    decreases s.len(),
{
    if s.len() == 0 {
    } else if s[0] == LINE_FEED {
    } else {
        lemma_first_line_end(s.drop_first());
        assert(forall|j: int| 0 <= j < first_line_end(s.drop_first())
            ==> s.drop_first()[j] != LINE_FEED);
        assert forall|j: int| 0 <= j < first_line_end(s) implies s[j] != LINE_FEED by {
            if j > 0 {
                assert(s.drop_first()[j - 1] == s[j]);
            }
        }
    }
}

/// The first line feed is where the first line feed is: a position with
/// no line feed before it and a line feed (or the end) at it pins
/// `first_line_end` down.
pub proof fn lemma_first_line_end_at(s: Seq<u8>, j: int)
    requires
        0 <= j <= s.len(),
        forall|k: int| 0 <= k < j ==> s[k] != LINE_FEED,
        j < s.len() ==> s[j] == LINE_FEED,
    ensures
        first_line_end(s) == j,
    decreases s.len(),
{
    if s.len() == 0 {
    } else if s[0] == LINE_FEED {
        assert(j == 0);
    } else {
        assert(j > 0);
        assert(forall|k: int| 0 <= k < j - 1 ==> s.drop_first()[k] == s[k + 1]);
        lemma_first_line_end_at(s.drop_first(), j - 1);
    }
}

/// Exact result of a wall lookup at fixed-point world coordinates
/// `(x, y)`: the cell symbol where the truncated coordinates land in the
/// grid and the cell is not empty, and no wall anywhere else.
pub open spec fn wall_at_spec(g: Seq<Seq<u8>>, x: int, y: int) -> Option<u8> {
    let xi = fp_trunc(x);
    let yi = fp_trunc(y);
    if 0 <= yi < g.len() && 0 <= xi < g[yi].len() && g[yi][xi] != EMPTY_CELL {
        Some(g[yi][xi])
    } else {
        None
    }
}

impl Maze {
    /// Builds a maze from the bytes of its textual description: each line
    /// becomes a row and each byte of the line a cell symbol.
    pub fn load(source: &Vec<u8>) -> (maze: Maze)
        ensures
            maze@ == parse_rows(source@),
    {
        let mut grid: Vec<Vec<u8>> = Vec::new();
        let mut cur: Vec<u8> = Vec::new();
        let mut i: usize = 0;
        let ghost mut line_start: int = 0;
        proof {
            assert(source@.subrange(0, source@.len() as int) =~= source@);
            assert(grid@.map_values(|row: Vec<u8>| row@) =~= Seq::<Seq<u8>>::empty());
            assert(Seq::<Seq<u8>>::empty() + parse_rows(source@) =~= parse_rows(source@));
        }
        while i < source.len()
            invariant
                0 <= line_start <= i <= source@.len(),
                cur@ == source@.subrange(line_start, i as int),
                forall|k: int| line_start <= k < i ==> source@[k] != LINE_FEED,
                parse_rows(source@) == grid@.map_values(|row: Vec<u8>| row@)
                    + parse_rows(source@.subrange(line_start, source@.len() as int)),
            decreases source@.len() - i,
        {
            let b: u8 = source[i];
            if b == LINE_FEED {
                let ghost rem = source@.subrange(line_start, source@.len() as int);
                proof {
                    assert(forall|k: int| 0 <= k < i - line_start ==> rem[k] != LINE_FEED);
                    assert(rem[i - line_start] == LINE_FEED);
                    lemma_first_line_end_at(rem, i - line_start);
                    assert(rem.subrange(0, i - line_start) == cur@);
                    assert(rem.subrange(i - line_start + 1, rem.len() as int)
                        == source@.subrange(i as int + 1, source@.len() as int));
                }
                if cur.len() > 0 && cur[cur.len() - 1] == CARRIAGE_RETURN {
                    let _ = cur.pop();
                    proof {
                        assert(cur@ == strip_cr(rem.subrange(0, i - line_start)));
                    }
                }
                let ghost old_rows = grid@.map_values(|row: Vec<u8>| row@);
                grid.push(cur);
                proof {
                    assert(grid@.map_values(|row: Vec<u8>| row@)
                        =~= old_rows + seq![strip_cr(rem.subrange(0, i - line_start))]);
                    assert(parse_rows(rem) == seq![strip_cr(rem.subrange(0, i - line_start))]
                        + parse_rows(source@.subrange(i as int + 1, source@.len() as int)));
                }
                cur = Vec::new();
                proof {
                    line_start = i as int + 1;
                    assert(cur@ == source@.subrange(line_start, i as int + 1));
                }
            } else {
                cur.push(b);
                proof {
                    assert(cur@ == source@.subrange(line_start, i as int + 1));
                }
            }
            i = i + 1;
        }
        let ghost rem = source@.subrange(line_start, source@.len() as int);
        if cur.len() > 0 {
            proof {
                assert(forall|k: int| 0 <= k < rem.len() ==> rem[k] != LINE_FEED);
                lemma_first_line_end_at(rem, rem.len() as int);
                assert(rem == cur@);
            }
            if cur[cur.len() - 1] == CARRIAGE_RETURN {
                let _ = cur.pop();
                proof {
                    assert(cur@ == strip_cr(rem));
                }
            }
            let ghost old_rows = grid@.map_values(|row: Vec<u8>| row@);
            grid.push(cur);
            proof {
                assert(grid@.map_values(|row: Vec<u8>| row@)
                    =~= old_rows + seq![strip_cr(rem)]);
                assert(parse_rows(rem) == seq![strip_cr(rem)]);
            }
        } else {
            proof {
                assert(rem.len() == 0);
                assert(grid@.map_values(|row: Vec<u8>| row@)
                    =~= grid@.map_values(|row: Vec<u8>| row@) + parse_rows(rem));
            }
        }
        Maze { grid }
    }

    /// Number of rows in the grid.
    pub fn row_count(&self) -> (n: usize)
        ensures
            n == self@.len(),
    {
        self.grid.len()
    }

    /// The wall lookup both ray marching and player collision use:
    /// truncates `(x, y)` to cell coordinates and returns the cell's
    /// symbol if it lies inside the grid and is not empty, and no wall
    /// otherwise (outside the grid everything is passable).
    pub fn get_wall(&self, x: i64, y: i64) -> (r: Option<u8>)
        ensures
            r == wall_at_spec(self@, x as int, y as int),
            !(0 <= fp_trunc(y as int) < self@.len()
                && 0 <= fp_trunc(x as int) < self@[fp_trunc(y as int)].len()) ==> r is None,
            (0 <= fp_trunc(y as int) < self@.len()
                && 0 <= fp_trunc(x as int) < self@[fp_trunc(y as int)].len()) ==> {
                let c = self@[fp_trunc(y as int)][fp_trunc(x as int)];
                r == (if c == EMPTY_CELL { Option::<u8>::None } else { Option::Some(c) })
            },
    {
        if x <= -FP_ONE || y <= -FP_ONE {
            return None;
        }
        let yi: i64 = fp_cell(y);
        let xi: i64 = fp_cell(x);
        if (yi as u64) < (self.grid.len() as u64) {
            let row: &Vec<u8> = &self.grid[yi as usize];
            proof {
                assert(row@ == self@[yi as int]);
            }
            if (xi as u64) < (row.len() as u64) {
                let c: u8 = row[xi as usize];
                if c != EMPTY_CELL {
                    Some(c)
                } else {
                    None
                }
            } else {
                None
            }
        } else {
            None
        }
    }
}

} // verus!
