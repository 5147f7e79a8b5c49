use vstd::prelude::*;
use crate::protocol::{BoardSize, MAX_BOARD_SIZE};

verus! {

/// A square of a board: `col` counts files from the left (file `a`), `row`
/// counts ranks from the bottom (rank 1).
#[derive(Clone, Copy, Debug, PartialEq, Eq, Structural)]
pub struct Location {
    pub col: usize,
    pub row: usize,
}

/// The four directions along the board's lines. `Up` goes to higher ranks,
/// `Right` to later files.
#[derive(Clone, Copy, Debug, PartialEq, Eq, Structural)]
pub enum Direction {
    Up,
    Right,
    Down,
    Left,
}

/// Whether `loc` lies on a board of side `size`.
pub open spec fn on_board(loc: Location, size: nat) -> bool {
    loc.col < size && loc.row < size
}

/// The column and row change of one step in `dir`.
pub open spec fn offset(dir: Direction) -> (int, int) {
    match dir {
        Direction::Up => (0, 1),
        Direction::Right => (1, 0),
        Direction::Down => (0, -1),
        Direction::Left => (-1, 0),
    }
}

/// The direction that undoes a step in `dir`.
pub open spec fn spec_opposite(dir: Direction) -> Direction {
    match dir {
        Direction::Up => Direction::Down,
        Direction::Right => Direction::Left,
        Direction::Down => Direction::Up,
        Direction::Left => Direction::Right,
    }
}

/// The square one step from `loc` in `dir`, if it lies on the board.
pub open spec fn spec_move_along(loc: Location, dir: Direction, size: nat) -> Option<Location> {
    let c = loc.col + offset(dir).0;
    let r = loc.row + offset(dir).1;
    if 0 <= c < size && 0 <= r < size {
        Some(Location { col: c as usize, row: r as usize })
    } else {
        None
    }
}

/// The neighbours of `loc` on the board with the direction leading to each,
/// in the order up, right, down, left.
pub open spec fn spec_neighbours(loc: Location, size: nat) -> Seq<(Location, Direction)> {
    let up = spec_move_along(loc, Direction::Up, size);
    let right = spec_move_along(loc, Direction::Right, size);
    let down = spec_move_along(loc, Direction::Down, size);
    let left = spec_move_along(loc, Direction::Left, size);
    (if up is Some { seq![(up->0, Direction::Up)] } else { seq![] })
        + (if right is Some { seq![(right->0, Direction::Right)] } else { seq![] })
        + (if down is Some { seq![(down->0, Direction::Down)] } else { seq![] })
        + (if left is Some { seq![(left->0, Direction::Left)] } else { seq![] })
}

/// The board edges that `loc` lies on, named by the direction towards them,
/// in the order up, right, down, left.
pub open spec fn spec_touching_sides(loc: Location, size: nat) -> Seq<Direction> {
    (if loc.row + 1 == size { seq![Direction::Up] } else { seq![] })
        + (if loc.col + 1 == size { seq![Direction::Right] } else { seq![] })
        + (if loc.row == 0 { seq![Direction::Down] } else { seq![] })
        + (if loc.col == 0 { seq![Direction::Left] } else { seq![] })
}

/// The letter of file `file`: `a` for the first.
pub open spec fn spec_file_char(file: nat) -> Option<char> {
    if file < MAX_BOARD_SIZE {
        Some(('a' as u32 + file) as char)
    } else {
        None
    }
}

impl Direction {
    /// The direction that undoes a step in this one.
    pub fn opposite(&self) -> (r: Direction)
        ensures
            r == spec_opposite(*self),
    {
        match self {
            Direction::Up => Direction::Down,
            Direction::Right => Direction::Left,
            Direction::Down => Direction::Up,
            Direction::Left => Direction::Right,
        }
    }
}

impl Location {
    /// The square at file `col` and rank `row`, if a board can have it.
    pub fn from_coords(col: usize, row: usize) -> (r: Option<Location>)
        ensures
            r is Some <==> col < MAX_BOARD_SIZE && row < MAX_BOARD_SIZE,
            r matches Some(l) ==> l == (Location { col, row }),
    {
        if col < MAX_BOARD_SIZE && row < MAX_BOARD_SIZE {
            Some(Location { col, row })
        } else {
            None
        }
    }

    /// The square one step away in `dir`, if it lies on the board.
    pub fn move_along(&self, dir: Direction, size: BoardSize) -> (r: Option<Location>)
        ensures
            r == spec_move_along(*self, dir, size@),
    {
        let n = size.get();
        match dir {
            Direction::Up => if self.col < n && self.row < n && self.row + 1 < n {
                Some(Location { col: self.col, row: self.row + 1 })
            } else {
                None
            },
            Direction::Right => if self.row < n && self.col < n && self.col + 1 < n {
                Some(Location { col: self.col + 1, row: self.row })
            } else {
                None
            },
            Direction::Down => if self.col < n && self.row > 0 && self.row - 1 < n {
                Some(Location { col: self.col, row: self.row - 1 })
            } else {
                None
            },
            Direction::Left => if self.row < n && self.col > 0 && self.col - 1 < n {
                Some(Location { col: self.col - 1, row: self.row })
            } else {
                None
            },
        }
    }

    /// The neighbours on the board with the direction leading to each.
    pub fn neighbours_with_direction(&self, size: BoardSize) -> (r: Vec<(Location, Direction)>)
        ensures
            r@ == spec_neighbours(*self, size@),
    {
        let mut out: Vec<(Location, Direction)> = Vec::new();
        if let Some(l) = self.move_along(Direction::Up, size) {
            out.push((l, Direction::Up));
        }
        let ghost a = out@;
        if let Some(l) = self.move_along(Direction::Right, size) {
            out.push((l, Direction::Right));
        }
        let ghost b = out@;
        if let Some(l) = self.move_along(Direction::Down, size) {
            out.push((l, Direction::Down));
        }
        let ghost c = out@;
        if let Some(l) = self.move_along(Direction::Left, size) {
            out.push((l, Direction::Left));
        }
        proof {
            let n = size@;
            let s = *self;
            assert(a =~= (if spec_move_along(s, Direction::Up, n) is Some { seq![(spec_move_along(s, Direction::Up, n)->0, Direction::Up)] } else { seq![] }));
            assert(out@ =~= spec_neighbours(s, n));
        }
        out
    }

    /// The board edges this square lies on.
    pub fn touching_sides(&self, size: BoardSize) -> (r: Vec<Direction>)
        ensures
            r@ == spec_touching_sides(*self, size@),
    {
        let n = size.get();
        let mut out: Vec<Direction> = Vec::new();
        if self.row < n && self.row + 1 == n {
            out.push(Direction::Up);
        }
        if self.col < n && self.col + 1 == n {
            out.push(Direction::Right);
        }
        if self.row == 0 {
            out.push(Direction::Down);
        }
        if self.col == 0 {
            out.push(Direction::Left);
        }
        proof {
            assert(out@ =~= spec_touching_sides(*self, n as nat));
        }
        out
    }
}

/// The letter of file `file`: `a` for the first.
pub fn file_idx_to_char(file: usize) -> (r: Option<char>)
    ensures
        r == spec_file_char(file as nat),
{
    if file < MAX_BOARD_SIZE {
        let code: u8 = 97 + file as u8;
        Some(code as char)
    } else {
        None
    }
}

/// A step and the opposite step lead back to the start.
pub proof fn lemma_move_back(loc: Location, dir: Direction, size: nat)
    requires
        size <= MAX_BOARD_SIZE,
        on_board(loc, size),
        spec_move_along(loc, dir, size) is Some,
    ensures
        spec_move_along(spec_move_along(loc, dir, size)->0, spec_opposite(dir), size) == Some(loc),
{
}

/// A square one step away is on the board, and is not the square itself.
pub proof fn lemma_move_stays_on_board(loc: Location, dir: Direction, size: nat)
    requires
        size <= MAX_BOARD_SIZE,
        spec_move_along(loc, dir, size) is Some,
    ensures
        on_board(spec_move_along(loc, dir, size)->0, size),
        spec_move_along(loc, dir, size)->0 != loc,
{
}

/// Being neighbours is symmetric: each square is the other's neighbour in
/// the opposite direction.
pub proof fn lemma_neighbours_symmetric(a: Location, b: Location, dir: Direction, size: nat)
    requires
        size <= MAX_BOARD_SIZE,
        on_board(a, size),
        spec_neighbours(a, size).contains((b, dir)),
    ensures
        spec_neighbours(b, size).contains((a, spec_opposite(dir))),
{
    lemma_neighbour_is_step(a, b, dir, size);
    lemma_move_back(a, dir, size);
    lemma_step_is_neighbour(b, a, spec_opposite(dir), size);
}

/// Every listed neighbour is one step away in its direction.
pub proof fn lemma_neighbour_is_step(a: Location, b: Location, dir: Direction, size: nat)
    requires
        spec_neighbours(a, size).contains((b, dir)),
    ensures
        spec_move_along(a, dir, size) == Some(b),
{
    let s = spec_neighbours(a, size);
    let k = choose|k: int| 0 <= k < s.len() && s[k] == (b, dir);
    assert(s[k] == (b, dir));
}

/// Every square one step away is listed as a neighbour.
pub proof fn lemma_step_is_neighbour(a: Location, b: Location, dir: Direction, size: nat)
    requires
        spec_move_along(a, dir, size) == Some(b),
    ensures
        spec_neighbours(a, size).contains((b, dir)),
{
    let s = spec_neighbours(a, size);
    let up = spec_move_along(a, Direction::Up, size);
    let right = spec_move_along(a, Direction::Right, size);
    let down = spec_move_along(a, Direction::Down, size);
    let nu: int = if up is Some { 1 } else { 0 };
    let nr: int = if right is Some { 1 } else { 0 };
    let nd: int = if down is Some { 1 } else { 0 };
    match dir {
        Direction::Up => assert(s[0] == (b, dir)),
        Direction::Right => assert(s[nu] == (b, dir)),
        Direction::Down => assert(s[nu + nr] == (b, dir)),
        Direction::Left => assert(s[nu + nr + nd] == (b, dir)),
    }
}

} // verus!
