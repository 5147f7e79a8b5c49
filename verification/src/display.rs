use vstd::prelude::*;
use vstd::string::StringExecFns;
use crate::protocol::{BoardSize, Color, MAX_BOARD_SIZE, spec_color_name};
use crate::board::{
    Direction, Location, file_idx_to_char, on_board, spec_file_char, spec_move_along,
    spec_neighbours, spec_opposite, spec_touching_sides, lemma_move_back, lemma_move_stays_on_board,
    lemma_neighbour_is_step, lemma_step_is_neighbour,
};
use crate::client::{StoneKind, spec_step, view_valid};
use crate::text::{decimal, spec_decimal};

verus! {

// ---------------------------------------------------------------------------
// The board's squares
// ---------------------------------------------------------------------------

/// The two shades of board squares.
#[derive(Clone, Copy, Debug, PartialEq, Eq, Structural)]
pub enum Shade {
    Dark,
    Light,
}

/// The shade of the square at `col`, `row`: a checkerboard whose bottom-left
/// square is dark.
pub open spec fn spec_shade(col: int, row: int) -> Shade {
    if (col + row % 2) % 2 == 0 {
        Shade::Dark
    } else {
        Shade::Light
    }
}

/// The shade of the square at `col`, `row`.
pub fn space_shade(col: usize, row: usize) -> (r: Shade)
    ensures
        r == spec_shade(col as int, row as int),
{
    let parity = (col % 2 + row % 2) % 2;
    assert((col + row % 2) % 2 == (col % 2 + row % 2) % 2) by (nonlinear_arith);
    if parity == 0 {
        Shade::Dark
    } else {
        Shade::Light
    }
}

/// The `k`-th square in drawing order on a board of side `n`: rows from the
/// top rank down, each from the first file on.
pub open spec fn spec_space_at(n: nat, k: int) -> Location {
    Location { col: (k % n as int) as usize, row: (n - 1 - k / n as int) as usize }
}

/// The squares of the board in drawing order.
pub fn space_order(size: BoardSize) -> (r: Vec<Location>)
    ensures
        r@.len() == size@ * size@,
        forall|k: int| 0 <= k < r@.len() ==> #[trigger] r@[k] == spec_space_at(size@, k),
{
    let n = size.get();
    let mut out: Vec<Location> = Vec::new();
    let mut done: usize = 0;
    while done < n
        invariant
            n == size@,
            1 <= n <= MAX_BOARD_SIZE,
            done <= n,
            out@.len() == done * n,
            forall|k: int| 0 <= k < out@.len() ==> #[trigger] out@[k] == spec_space_at(n as nat, k),
        decreases n - done,
    {
        let row = n - 1 - done;
        let mut col: usize = 0;
        while col < n
            invariant
                n == size@,
                1 <= n <= MAX_BOARD_SIZE,
                done < n,
                row == n - 1 - done,
                col <= n,
                out@.len() == done * n + col,
                forall|k: int| 0 <= k < out@.len() ==> #[trigger] out@[k] == spec_space_at(n as nat, k),
            decreases n - col,
        {
            proof {
                let k = done * n + col;
                vstd::arithmetic::div_mod::lemma_fundamental_div_mod_converse(
                    k as int,
                    n as int,
                    done as int,
                    col as int,
                );
                assert(k == done * n + col);
            }
            out.push(Location { col, row });
            col = col + 1;
        }
        proof {
            assert((done + 1) * n == done * n + n) by (nonlinear_arith);
        }
        done = done + 1;
    }
    out
}

/// Every square of the board is drawn: square `l` comes at position
/// `(n - 1 - row) * n + col` of the drawing order, which is within it.
pub proof fn lemma_space_order_covers(n: nat, l: Location)
    requires
        1 <= n <= MAX_BOARD_SIZE,
        on_board(l, n),
    ensures
        0 <= (n - 1 - l.row) * n + l.col < n * n,
        spec_space_at(n, (n - 1 - l.row) * n + l.col) == l,
{
    let q: int = n - 1 - l.row;
    let k: int = q * n + l.col;
    vstd::arithmetic::div_mod::lemma_fundamental_div_mod_converse(k, n as int, q, l.col as int);
    assert(0 <= k < n * n) by (nonlinear_arith)
        requires
            0 <= q < n,
            0 <= l.col < n,
            k == q * n + l.col,
    ;
}

/// The road control of square `l` in a grid listing each square's control
/// row by row from the bottom rank.
pub open spec fn control_at(grid: Seq<Option<Color>>, n: nat, l: Location) -> Option<Color> {
    grid[l.row * n + l.col]
}

/// The directions of those `neighbours` whose road control is `color`.
pub open spec fn same_control_dirs(
    neighbours: Seq<(Location, Direction)>,
    grid: Seq<Option<Color>>,
    n: nat,
    color: Color,
) -> Seq<Direction>
    decreases neighbours.len(),
{
    if neighbours.len() == 0 {
        seq![]
    } else {
        let rest = same_control_dirs(neighbours.drop_last(), grid, n, color);
        if control_at(grid, n, neighbours.last().0) == Some(color) {
            rest.push(neighbours.last().1)
        } else {
            rest
        }
    }
}

/// The road bridges drawn on square `loc`: its controlling color, the
/// directions to neighbours controlled by the same color, then the board
/// edges it touches. `None` when no road stone controls it.
pub open spec fn spec_road_bridges(loc: Location, n: nat, grid: Seq<Option<Color>>) -> Option<
    (Color, Seq<Direction>),
> {
    match control_at(grid, n, loc) {
        Some(c) => Some(
            (c, same_control_dirs(spec_neighbours(loc, n), grid, n, c) + spec_touching_sides(loc, n)),
        ),
        None => None,
    }
}

/// Squares on the board index the control grid within its bounds.
proof fn lemma_grid_index(l: Location, n: nat)
    requires
        on_board(l, n),
        n <= MAX_BOARD_SIZE,
    ensures
        0 <= l.row * n + l.col < n * n,
        l.row * n <= 64,
{
    assert(l.row * n + l.col < n * n && l.row * n <= 64) by (nonlinear_arith)
        requires
            l.row < n,
            l.col < n,
            n <= 8,
    ;
}

/// The road bridges drawn on square `loc` (see `spec_road_bridges`).
pub fn road_bridges(loc: Location, size: BoardSize, grid: &Vec<Option<Color>>) -> (r: Option<
    (Color, Vec<Direction>),
>)
    requires
        on_board(loc, size@),
        grid@.len() == size@ * size@,
    ensures
        match spec_road_bridges(loc, size@, grid@) {
            Some((c, dirs)) => r matches Some((rc, rdirs)) && rc == c && rdirs@ == dirs,
            None => r is None,
        },
{
    let n = size.get();
    proof {
        lemma_grid_index(loc, n as nat);
    }
    let own = grid[loc.row * n + loc.col];
    match own {
        None => None,
        Some(c) => {
            let neighbours = loc.neighbours_with_direction(size);
            let mut dirs: Vec<Direction> = Vec::new();
            let mut i: usize = 0;
            while i < neighbours.len()
                invariant
                    n == size@,
                    1 <= n <= MAX_BOARD_SIZE,
                    grid@.len() == n * n,
                    neighbours@ == spec_neighbours(loc, n as nat),
                    0 <= i <= neighbours@.len(),
                    dirs@ == same_control_dirs(neighbours@.take(i as int), grid@, n as nat, c),
                decreases neighbours@.len() - i,
            {
                let (l, d) = neighbours[i];
                proof {
                    crate::board::lemma_neighbour_is_step(loc, l, d, n as nat);
                    assert(neighbours@.contains(neighbours@[i as int]));
                    crate::board::lemma_move_stays_on_board(loc, d, n as nat);
                    lemma_grid_index(l, n as nat);
                    let prefix = neighbours@.take(i + 1);
                    assert(prefix.drop_last() =~= neighbours@.take(i as int));
                    assert(prefix.last() == (l, d));
                }
                if grid[l.row * n + l.col] == Some(c) {
                    dirs.push(d);
                }
                i = i + 1;
            }
            proof {
                assert(neighbours@.take(neighbours@.len() as int) =~= neighbours@);
            }
            let sides = loc.touching_sides(size);
            let mut j: usize = 0;
            let ghost base = dirs@;
            while j < sides.len()
                invariant
                    0 <= j <= sides@.len(),
                    dirs@ == base + sides@.take(j as int),
                decreases sides@.len() - j,
            {
                dirs.push(sides[j]);
                proof {
                    assert(base + sides@.take(j + 1) =~= (base + sides@.take(j as int)).push(sides@[j as int]));
                }
                j = j + 1;
            }
            proof {
                assert(sides@.take(sides@.len() as int) =~= sides@);
            }
            Some((c, dirs))
        },
    }
}

/// `same_control_dirs` holds `d` exactly when one of the neighbours in
/// direction `d` has road control `color`.
proof fn lemma_same_control_dirs_contains(
    neighbours: Seq<(Location, Direction)>,
    grid: Seq<Option<Color>>,
    n: nat,
    color: Color,
    d: Direction,
)
    ensures
        same_control_dirs(neighbours, grid, n, color).contains(d) <==> exists|k: int|
            0 <= k < neighbours.len() && #[trigger] neighbours[k].1 == d && control_at(
                grid,
                n,
                neighbours[k].0,
            ) == Some(color),
    decreases neighbours.len(),
{
    if neighbours.len() > 0 {
        let init = neighbours.drop_last();
        let rest = same_control_dirs(init, grid, n, color);
        lemma_same_control_dirs_contains(init, grid, n, color, d);
        let last = neighbours.len() - 1;
        if same_control_dirs(neighbours, grid, n, color).contains(d) {
            if rest.contains(d) {
                let k = choose|k: int|
                    0 <= k < init.len() && #[trigger] init[k].1 == d && control_at(grid, n, init[k].0)
                        == Some(color);
                assert(neighbours[k] == init[k]);
            } else {
                let j = choose|j: int|
                    0 <= j < same_control_dirs(neighbours, grid, n, color).len()
                        && same_control_dirs(neighbours, grid, n, color)[j] == d;
                if control_at(grid, n, neighbours.last().0) == Some(color) {
                    if j < rest.len() {
                        assert(rest[j] == d);
                    }
                    assert(neighbours[last].1 == d);
                } else {
                    assert(rest[j] == d);
                }
            }
        } else {
            if exists|k: int|
                0 <= k < neighbours.len() && #[trigger] neighbours[k].1 == d && control_at(
                    grid,
                    n,
                    neighbours[k].0,
                ) == Some(color) {
                let k = choose|k: int|
                    0 <= k < neighbours.len() && #[trigger] neighbours[k].1 == d && control_at(
                        grid,
                        n,
                        neighbours[k].0,
                    ) == Some(color);
                if k < last {
                    assert(init[k] == neighbours[k]);
                    let j = choose|j: int| 0 <= j < rest.len() && rest[j] == d;
                    if control_at(grid, n, neighbours.last().0) == Some(color) {
                        assert(rest.push(neighbours.last().1)[j] == d);
                    }
                } else {
                    assert(rest.push(neighbours.last().1)[rest.len() as int] == d);
                }
            }
        }
    }
}

/// A square touches the board edge in direction `d` exactly when it has no
/// neighbour that way.
proof fn lemma_touching_side_iff_no_step(loc: Location, n: nat, d: Direction)
    requires
        on_board(loc, n),
    ensures
        spec_touching_sides(loc, n).contains(d) <==> spec_move_along(loc, d, n) is None,
{
    let up: Seq<Direction> = if loc.row + 1 == n { seq![Direction::Up] } else { seq![] };
    let right: Seq<Direction> = if loc.col + 1 == n { seq![Direction::Right] } else { seq![] };
    let down: Seq<Direction> = if loc.row == 0 { seq![Direction::Down] } else { seq![] };
    let left: Seq<Direction> = if loc.col == 0 { seq![Direction::Left] } else { seq![] };
    let t = spec_touching_sides(loc, n);
    assert(t == up + right + down + left);
    let none = spec_move_along(loc, d, n) is None;
    if none {
        let k: int = match d {
            Direction::Up => 0,
            Direction::Right => up.len() as int,
            Direction::Down => (up.len() + right.len()) as int,
            Direction::Left => (up.len() + right.len() + down.len()) as int,
        };
        assert(t[k] == d);
    } else if t.contains(d) {
        let j = choose|j: int| 0 <= j < t.len() && t[j] == d;
        assert(t[j] == d);
    }
}

/// A square's road bridges: it has one towards each neighbour whose road
/// control is its own, and none towards the other neighbours; towards a
/// board edge it always has one.
pub proof fn lemma_bridges_follow_neighbours(loc: Location, n: nat, grid: Seq<Option<Color>>, d: Direction)
    requires
        1 <= n <= MAX_BOARD_SIZE,
        on_board(loc, n),
    ensures
        spec_road_bridges(loc, n, grid) matches Some((c, dirs)) ==> match spec_move_along(loc, d, n) {
            Some(b) => dirs.contains(d) <==> control_at(grid, n, b) == Some(c),
            None => dirs.contains(d),
        },
{
    if let Some((c, dirs)) = spec_road_bridges(loc, n, grid) {
        let nb = spec_neighbours(loc, n);
        let same = same_control_dirs(nb, grid, n, c);
        let sides = spec_touching_sides(loc, n);
        assert(dirs == same + sides);
        lemma_same_control_dirs_contains(nb, grid, n, c, d);
        lemma_touching_side_iff_no_step(loc, n, d);
        assert(dirs.contains(d) <==> same.contains(d) || sides.contains(d)) by {
            if dirs.contains(d) {
                let j = choose|j: int| 0 <= j < dirs.len() && dirs[j] == d;
                if j < same.len() {
                    assert(same[j] == d);
                } else {
                    assert(sides[j - same.len()] == d);
                }
            }
            if same.contains(d) {
                let j = choose|j: int| 0 <= j < same.len() && same[j] == d;
                assert(dirs[j] == d);
            }
            if sides.contains(d) {
                let j = choose|j: int| 0 <= j < sides.len() && sides[j] == d;
                assert(dirs[same.len() + j] == d);
            }
        }
        match spec_move_along(loc, d, n) {
            Some(b) => {
                lemma_step_is_neighbour(loc, b, d, n);
                if control_at(grid, n, b) == Some(c) {
                    let k = choose|k: int| 0 <= k < nb.len() && nb[k] == (b, d);
                    assert(nb[k].1 == d);
                }
                if same.contains(d) {
                    let k = choose|k: int|
                        0 <= k < nb.len() && #[trigger] nb[k].1 == d && control_at(grid, n, nb[k].0) == Some(c);
                    assert(nb.contains(nb[k]));
                    lemma_neighbour_is_step(loc, nb[k].0, d, n);
                }
            },
            None => {},
        }
    }
}

/// Road bridges come in pairs: a bridge from `a` towards its neighbour `b`
/// is matched by one from `b` back towards `a`, in the same color.
pub proof fn lemma_bridges_symmetric(a: Location, n: nat, grid: Seq<Option<Color>>, d: Direction)
    requires
        1 <= n <= MAX_BOARD_SIZE,
        on_board(a, n),
        spec_move_along(a, d, n) is Some,
    ensures
        spec_road_bridges(a, n, grid) matches Some((c, da)) ==> (da.contains(d) ==> (spec_road_bridges(
            spec_move_along(a, d, n)->0,
            n,
            grid,
        ) matches Some((cb, db)) && cb == c && db.contains(spec_opposite(d)))),
{
    let b = spec_move_along(a, d, n)->0;
    lemma_move_stays_on_board(a, d, n);
    lemma_move_back(a, d, n);
    lemma_bridges_follow_neighbours(a, n, grid, d);
    lemma_bridges_follow_neighbours(b, n, grid, spec_opposite(d));
}

/// The name of the board edge or neighbour in direction `dir`.
pub open spec fn spec_heading(dir: Direction) -> Seq<char> {
    match dir {
        Direction::Up => "north"@,
        Direction::Right => "east"@,
        Direction::Down => "south"@,
        Direction::Left => "west"@,
    }
}

impl Direction {
    /// The name of the board edge or neighbour in this direction.
    pub fn heading(&self) -> (r: &'static str)
        ensures
            r@ == spec_heading(*self),
    {
        match self {
            Direction::Up => "north",
            Direction::Right => "east",
            Direction::Down => "south",
            Direction::Left => "west",
        }
    }
}

/// The style class of a color's stones and squares: light for White, dark
/// for Black.
pub open spec fn spec_color_class(color: Color) -> Seq<char> {
    match color {
        Color::White => "light"@,
        Color::Black => "dark"@,
    }
}

/// The style class of a color's stones.
pub fn color_class(color: Color) -> (r: &'static str)
    ensures
        r@ == spec_color_class(color),
{
    match color {
        Color::White => "light",
        Color::Black => "dark",
    }
}

/// The style class of a stone kind; flat stones have none.
pub fn kind_class(kind: StoneKind) -> (r: Option<&'static str>)
    ensures
        match kind {
            StoneKind::FlatStone => r is None,
            StoneKind::StandingStone => r matches Some(s) && s@ == "standing"@,
            StoneKind::Capstone => r matches Some(s) && s@ == "cap"@,
        },
{
    match kind {
        StoneKind::FlatStone => None,
        StoneKind::StandingStone => Some("standing"),
        StoneKind::Capstone => Some("cap"),
    }
}

/// The style class of the board for its size.
pub fn size_class(size: BoardSize) -> (r: String)
    ensures
        r@ == "size-"@ + spec_decimal(size@),
{
    let mut out = String::from_str("size-");
    let digits = decimal(size.get() as u64);
    out.append(digits.as_str());
    out
}

/// The rank labels, from the top rank down: `n`, ..., `1`.
pub fn rank_labels(size: BoardSize) -> (r: Vec<String>)
    ensures
        r@.len() == size@,
        forall|k: int| 0 <= k < r@.len() ==> (#[trigger] r@[k])@ == spec_decimal((size@ - k) as nat),
{
    let n = size.get();
    let mut out: Vec<String> = Vec::new();
    let mut k: usize = 0;
    while k < n
        invariant
            n == size@,
            k <= n,
            out@.len() == k,
            forall|j: int| 0 <= j < k ==> (#[trigger] out@[j])@ == spec_decimal((n - j) as nat),
        decreases n - k,
    {
        out.push(decimal((n - k) as u64));
        k = k + 1;
    }
    out
}

/// The file labels, from the first file on: `a`, `b`, ...
pub fn file_labels(size: BoardSize) -> (r: Vec<char>)
    ensures
        r@.len() == size@,
        forall|k: int| 0 <= k < r@.len() ==> Some(#[trigger] r@[k]) == spec_file_char(k as nat),
{
    let n = size.get();
    let mut out: Vec<char> = Vec::new();
    let mut k: usize = 0;
    while k < n
        invariant
            n == size@,
            n <= MAX_BOARD_SIZE,
            k <= n,
            out@.len() == k,
            forall|j: int| 0 <= j < k ==> Some(#[trigger] out@[j]) == spec_file_char(j as nat),
        decreases n - k,
    {
        let c = file_idx_to_char(k).unwrap();
        out.push(c);
        k = k + 1;
    }
    out
}

// ---------------------------------------------------------------------------
// Stones
// ---------------------------------------------------------------------------

/// A stone on the board or in a carried stack.
#[derive(Clone, Copy, Debug, PartialEq, Eq, Structural)]
pub struct Stone {
    pub color: Color,
    pub kind: StoneKind,
}

/// How many of the lowest stones of a square are drawn as buried: those
/// that make the base stack and the carried stack together taller than the
/// board is wide.
pub open spec fn spec_buried_count(base: int, hover: int, n: int) -> int {
    if base + hover > n {
        base + hover - n
    } else {
        0
    }
}

/// Where the stones of one square are drawn: how many base stones are
/// buried, and the drawing index of the lowest carried stone (two above the
/// highest unburied base stone).
pub fn stack_layout(base: usize, hover: Option<usize>, size: BoardSize) -> (r: (usize, Option<usize>))
    requires
        hover matches Some(h) ==> base + h <= usize::MAX && (h <= size@ || base + h <= size@),
    ensures
        r.0 == spec_buried_count(base as int, (match hover { Some(h) => h as int, None => 0 }), size@ as int),
        match hover {
            Some(_) => r.1 == Some((base - r.0 + 2) as usize),
            None => r.1 is None,
        },
{
    let n = size.get();
    let h: usize = match hover {
        Some(h) => h,
        None => 0,
    };
    let total = base + h;
    let buried = if total > n { total - n } else { 0 };
    match hover {
        Some(_) => (buried, Some(base - buried + 2)),
        None => (buried, None),
    }
}

/// The drawing height of a stone: its index in the stack, less the buried
/// stones below it unless it is buried itself; standing stones and
/// capstones are drawn one lower, never below 0.
pub open spec fn spec_stone_z(flat: bool, idx: int, buried_count: int) -> int {
    let draw = if idx < buried_count { idx } else { idx - buried_count };
    if flat {
        draw
    } else if draw > 0 {
        draw - 1
    } else {
        0
    }
}

/// Where one stone is drawn.
#[derive(Clone, Copy, Debug, PartialEq, Eq, Structural)]
pub struct StonePlacement {
    /// Whether the stone is drawn as buried.
    pub buried: bool,
    /// Horizontal offset, in percent of a square.
    pub transform_x: usize,
    /// Vertical offset, in percent of a square (negative is up).
    pub transform_y: isize,
}

/// Where the stone at index `idx` of the stack on square (`x`, `y`) is drawn,
/// `buried_count` stones of that stack being buried.
pub fn stone_placement(flat: bool, x: usize, y: usize, idx: usize, buried_count: usize) -> (r: StonePlacement)
    requires
        100 * x <= usize::MAX,
        100 * y + 7 * spec_stone_z(flat, idx as int, buried_count as int) <= isize::MAX + 1,
    ensures
        r.buried == (idx < buried_count),
        r.transform_x == 100 * x,
        r.transform_y == -100 * y - 7 * spec_stone_z(flat, idx as int, buried_count as int),
{
    let buried = idx < buried_count;
    let draw = if buried { idx } else { idx - buried_count };
    let z = if flat {
        draw
    } else if draw > 0 {
        draw - 1
    } else {
        0
    };
    let ty: i128 = -100 * (y as i128) - 7 * (z as i128);
    StonePlacement { buried, transform_x: x * 100, transform_y: ty as isize }
}

/// The flat counts shown while a stack is carried: as if the carried stack
/// were put down on the square it hovers over. A flat on top of that square
/// no longer counts, and the carried stack's top counts if it is flat.
pub open spec fn spec_flat_counts(
    white: int,
    black: int,
    existing_top: Option<Stone>,
    carry_top: Option<Stone>,
) -> (int, int) {
    match carry_top {
        None => (white, black),
        Some(carried) => {
            let (w1, b1) = match existing_top {
                Some(s) => if s.kind == StoneKind::FlatStone {
                    match s.color {
                        Color::White => (white - 1, black),
                        Color::Black => (white, black - 1),
                    }
                } else {
                    (white, black)
                },
                None => (white, black),
            };
            if carried.kind == StoneKind::FlatStone {
                match carried.color {
                    Color::White => (w1 + 1, b1),
                    Color::Black => (w1, b1 + 1),
                }
            } else {
                (w1, b1)
            }
        },
    }
}

/// Whether `s` is a flat stone of `color`.
pub open spec fn is_flat_of(s: Option<Stone>, color: Color) -> bool {
    s matches Some(stone) && stone.kind == StoneKind::FlatStone && stone.color == color
}

/// While a stack is carried, the hovered square's top flat no longer counts
/// for its color, and the carried stack's top counts only if it is a flat:
/// a standing stone or a capstone on top adds nothing.
pub proof fn lemma_carried_top_counts_only_if_flat(
    white: int,
    black: int,
    existing_top: Option<Stone>,
    carried: Stone,
)
    ensures
        ({
            let r = spec_flat_counts(white, black, existing_top, Some(carried));
            &&& r.0 == white - (if is_flat_of(existing_top, Color::White) { 1int } else { 0 })
                + (if is_flat_of(Some(carried), Color::White) { 1int } else { 0 })
            &&& r.1 == black - (if is_flat_of(existing_top, Color::Black) { 1int } else { 0 })
                + (if is_flat_of(Some(carried), Color::Black) { 1int } else { 0 })
        }),
        spec_flat_counts(white, black, existing_top, None) == (white, black),
{
}

/// The flat counts shown while a stack is carried (see `spec_flat_counts`).
pub fn flat_counts(
    white: usize,
    black: usize,
    existing_top: Option<Stone>,
    carry_top: Option<Stone>,
) -> (r: (usize, usize))
    requires
        carry_top is Some ==> {
            let adj = spec_flat_counts(white as int, black as int, existing_top, carry_top);
            0 <= adj.0 <= usize::MAX && 0 <= adj.1 <= usize::MAX
        },
        carry_top is Some ==> match existing_top {
            Some(s) => s.kind == StoneKind::FlatStone ==> match s.color {
                Color::White => white >= 1,
                Color::Black => black >= 1,
            },
            None => true,
        },
    ensures
        r.0 == spec_flat_counts(white as int, black as int, existing_top, carry_top).0,
        r.1 == spec_flat_counts(white as int, black as int, existing_top, carry_top).1,
{
    let mut w = white;
    let mut b = black;
    if let Some(carried) = carry_top {
        if let Some(stone) = existing_top {
            if stone.kind == StoneKind::FlatStone {
                match stone.color {
                    Color::White => w = w - 1,
                    Color::Black => b = b - 1,
                }
            }
        }
        if carried.kind == StoneKind::FlatStone {
            match carried.color {
                Color::White => w = w + 1,
                Color::Black => b = b + 1,
            }
        }
    }
    (w, b)
}

// ---------------------------------------------------------------------------
// The move list and the status line
// ---------------------------------------------------------------------------

/// The turn number written before move `move_idx` (counted from 0): each
/// turn has two moves, and only the first move of a turn gets a number.
pub open spec fn spec_turn_label(move_idx: nat) -> Option<Seq<char>> {
    if move_idx % 2 == 0 {
        Some(spec_decimal(move_idx / 2 + 1) + "."@)
    } else {
        None
    }
}

/// The turn number written before move `move_idx` (counted from 0).
pub fn turn_label(move_idx: usize) -> (r: Option<String>)
    ensures
        match spec_turn_label(move_idx as nat) {
            Some(t) => r matches Some(s) && s@ == t,
            None => r is None,
        },
{
    if move_idx % 2 == 0 {
        let mut s = decimal((move_idx / 2 + 1) as u64);
        s.append(".");
        Some(s)
    } else {
        None
    }
}

/// Whether move `move_idx` (counted from 0) is the one the shown position
/// ends with.
pub fn is_shown_move(move_idx: usize, display_move_idx: usize) -> (r: bool)
    requires
        display_move_idx >= 1,
    ensures
        r == (move_idx + 1 == display_move_idx),
{
    move_idx == display_move_idx - 1
}

/// Whether the back and forward buttons of the history are disabled.
pub open spec fn spec_nav_disabled(move_count: nat, display_move_idx: nat) -> (bool, bool) {
    (move_count == 0 || display_move_idx == 1, move_count == 0 || display_move_idx == move_count)
}

/// Whether the back and forward buttons of the history are disabled.
pub fn nav_disabled(move_count: usize, display_move_idx: usize) -> (r: (bool, bool))
    ensures
        r == spec_nav_disabled(move_count as nat, display_move_idx as nat),
{
    (move_count == 0 || display_move_idx == 1, move_count == 0 || display_move_idx == move_count)
}

/// A history button is disabled exactly when its step would not change the
/// shown position.
pub proof fn lemma_disabled_buttons_do_nothing(v: (nat, nat))
    requires
        view_valid(v),
    ensures
        spec_nav_disabled(v.0, v.1).0 <==> spec_step(v, -1) == v.1,
        spec_nav_disabled(v.0, v.1).1 <==> spec_step(v, 1) == v.1,
{
}

/// How a game was won.
#[derive(Clone, Copy, Debug, PartialEq, Eq, Structural)]
pub enum WinKind {
    Road,
    BoardFilled,
    /// The given color placed its last stone.
    PlayedAllStones(Color),
}

/// Whether a game goes on, or how it ended.
#[derive(Clone, Copy, Debug, PartialEq, Eq, Structural)]
pub enum GameStatus {
    Ongoing,
    Draw,
    Win(Color, WinKind),
}

/// The status line of a game in turn `turn` with `active` to move.
pub open spec fn spec_status_text(status: GameStatus, turn: nat, active: Color) -> Seq<char> {
    match status {
        GameStatus::Ongoing => "Turn "@ + spec_decimal(turn) + ", "@ + spec_color_name(active)
            + "'s go."@,
        GameStatus::Draw => "Draw."@,
        GameStatus::Win(color, kind) => spec_color_name(color) + " wins "@ + match kind {
            WinKind::Road => "by road."@,
            WinKind::BoardFilled => "by flats (board full)."@,
            WinKind::PlayedAllStones(c) => "by flats ("@ + spec_color_name(c)
                + " played all stones)."@,
        },
    }
}

/// The status line of a game in turn `turn` with `active` to move.
pub fn status_text(status: GameStatus, turn: u64, active: Color) -> (r: String)
    ensures
        r@ == spec_status_text(status, turn as nat, active),
{
    match status {
        GameStatus::Ongoing => {
            let mut s = String::from_str("Turn ");
            let t = decimal(turn);
            s.append(t.as_str());
            s.append(", ");
            s.append(active.name());
            s.append("'s go.");
            s
        },
        GameStatus::Draw => String::from_str("Draw."),
        GameStatus::Win(color, kind) => {
            let mut s = String::from_str(color.name());
            s.append(" wins ");
            match kind {
                WinKind::Road => s.append("by road."),
                WinKind::BoardFilled => s.append("by flats (board full)."),
                WinKind::PlayedAllStones(c) => {
                    s.append("by flats (");
                    s.append(c.name());
                    s.append(" played all stones).");
                },
            }
            s
        },
    }
}

} // verus!
