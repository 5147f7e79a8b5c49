use vstd::prelude::*;

verus! {

/// The two sides of a Tak game.
#[derive(Clone, Copy, Debug, PartialEq, Eq, Structural)]
pub enum Color {
    White,
    Black,
}

/// Which colors the receiving connection is allowed to move for.
#[derive(Clone, Copy, Debug, PartialEq, Eq, Structural)]
pub enum MatchControl {
    Both,
    Single(Color),
    Neither,
}

/// Whether `control` allows moving for `color`.
pub open spec fn spec_controls(control: MatchControl, color: Color) -> bool {
    match control {
        MatchControl::Both => true,
        MatchControl::Single(own) => own == color,
        MatchControl::Neither => false,
    }
}

impl MatchControl {
    /// Whether this control allows making moves for `color`.
    pub fn controls(&self, color: Color) -> (r: bool)
        ensures
            r == spec_controls(*self, color),
    {
        match self {
            MatchControl::Both => true,
            MatchControl::Single(self_color) => color == *self_color,
            MatchControl::Neither => false,
        }
    }
}


/// The name a color is shown by.
pub open spec fn spec_color_name(color: Color) -> Seq<char> {
    match color {
        Color::White => "White"@,
        Color::Black => "Black"@,
    }
}

impl Color {
    /// The name this color is shown by.
    pub fn name(&self) -> (r: &'static str)
        ensures
            r@ == spec_color_name(*self),
    {
        match self {
            Color::White => "White",
            Color::Black => "Black",
        }
    }
}

/// The smallest board Tak is played on.
pub const MIN_BOARD_SIZE: usize = 3;

/// The largest board Tak is played on.
pub const MAX_BOARD_SIZE: usize = 8;

/// Whether `n` is the side length of a Tak board.
pub open spec fn valid_board_size(n: int) -> bool {
    MIN_BOARD_SIZE <= n <= MAX_BOARD_SIZE
}

/// The side length of a square Tak board.
#[derive(Clone, Copy, Debug, PartialEq, Eq)]
pub struct BoardSize {
    size: usize,
}

impl View for BoardSize {
    type V = nat;

    closed spec fn view(&self) -> nat {
        self.size as nat
    }
}

impl BoardSize {
    #[verifier::type_invariant]
    closed spec fn size_in_range(self) -> bool {
        valid_board_size(self.size as int)
    }

    /// The board of side `size`, if Tak is played on one that size.
    pub fn new(size: usize) -> (r: Option<BoardSize>)
        ensures
            r is Some <==> valid_board_size(size as int),
            r matches Some(b) ==> b@ == size,
    {
        if MIN_BOARD_SIZE <= size && size <= MAX_BOARD_SIZE {
            Some(BoardSize { size })
        } else {
            None
        }
    }

    /// The side length.
    pub fn get(&self) -> (r: usize)
        ensures
            r == self@,
            valid_board_size(r as int),
    {
        proof {
            use_type_invariant(self);
        }
        self.size
    }
}

/// What a client sends to the server. `M` is the game engine's move type,
/// which the session logic carries without looking into it.
#[derive(Clone, Debug)]
pub enum ClientMessage<M> {
    /// Join the match with this hashed id, or a new match for `None`.
    JoinMatch(Option<String>),
    Move(M),
    ResetGame(BoardSize),
    UndoMove,
    SwapPlayers,
}

/// What the server sends to a client.
#[derive(Clone, Debug)]
pub enum ServerMessage<M> {
    Control(MatchControl),
    /// An attempted action was refused, with the reason.
    ActionInvalid(String),
    /// The match's hashed id, its moves so far and its board size.
    GameState(String, Vec<M>, BoardSize),
}

} // verus!
