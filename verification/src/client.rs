use vstd::prelude::*;
use vstd::string::StrSliceExecFns;
use vstd::string::StringExecFns;
use crate::protocol::{
    BoardSize, ClientMessage, Color, MatchControl, spec_color_name, spec_controls,
    valid_board_size,
};
use crate::board::{Direction, Location, on_board, spec_move_along, spec_neighbours};
use crate::text::{has_at, spec_has_at};

verus! {

// ---------------------------------------------------------------------------
// Move history navigation
// ---------------------------------------------------------------------------

/// Where a history jump goes.
#[derive(Clone, Copy, Debug, PartialEq, Eq, Structural)]
pub enum HistoryJumpTarget {
    Start,
    End,
}

/// A request to move through the history.
#[derive(Clone, Copy, Debug, PartialEq, Eq, Structural)]
pub enum HistoryNav {
    Step(i8),
    Jump(HistoryJumpTarget),
}

/// `v` limited to the range `lo ..= hi`.
pub open spec fn spec_clamp(v: int, lo: int, hi: int) -> int {
    if v < lo {
        lo
    } else if v > hi {
        hi
    } else {
        v
    }
}

/// Which position of a match's history is shown: `display_move_idx` is the
/// number of moves played in the shown position (0 for the start), and
/// equals `move_count` when the current position is shown.
#[derive(Clone, Copy, Debug)]
pub struct MatchView {
    move_count: usize,
    display_move_idx: usize,
}

/// The states a `MatchView` can be in: the shown index is at most the
/// number of moves, and is 0 only while no move was played.
pub open spec fn view_valid(v: (nat, nat)) -> bool {
    v.1 <= v.0 && (v.1 == 0 ==> v.0 == 0)
}

/// The shown index after a step by `offset`; a view at index 0 stays there.
pub open spec fn spec_step(v: (nat, nat), offset: int) -> nat {
    if v.1 == 0 {
        0
    } else {
        spec_clamp(v.1 + offset, 1, v.0 as int) as nat
    }
}

/// The shown index after a jump; a view at index 0 stays there.
pub open spec fn spec_jump(v: (nat, nat), target: HistoryJumpTarget) -> nat {
    if v.1 == 0 {
        0
    } else {
        match target {
            HistoryJumpTarget::Start => 1,
            HistoryJumpTarget::End => v.0,
        }
    }
}

impl View for MatchView {
    type V = (nat, nat);

    closed spec fn view(&self) -> (nat, nat) {
        (self.move_count as nat, self.display_move_idx as nat)
    }
}

impl MatchView {
    #[verifier::type_invariant]
    closed spec fn index_in_range(self) -> bool {
        view_valid((self.move_count as nat, self.display_move_idx as nat))
    }

    /// A view of a history with `move_count` moves, showing the current
    /// position.
    pub fn new(move_count: usize) -> (r: Self)
        ensures
            r@ == (move_count as nat, move_count as nat),
            view_valid(r@),
    {
        MatchView { move_count, display_move_idx: move_count }
    }

    /// The number of moves of the history.
    pub fn move_count(&self) -> (r: usize)
        ensures
            r == self@.0,
    {
        self.move_count
    }

    /// The number of moves played in the shown position.
    pub fn display_move_idx(&self) -> (r: usize)
        ensures
            r == self@.1,
            view_valid(self@),
    {
        proof {
            use_type_invariant(self);
        }
        self.display_move_idx
    }

    /// Whether the current position is shown, where moves can be made.
    pub fn viewing_latest(&self) -> (r: bool)
        ensures
            r == (self@.1 == self@.0),
    {
        self.display_move_idx == self.move_count
    }

    /// Shows the position after move `move_idx` (counted from 1; the start,
    /// 0, only while no move was played); returns the index to show.
    pub fn click(&mut self, move_idx: usize) -> (r: usize)
        requires
            view_valid((old(self)@.0, move_idx as nat)),
        ensures
            final(self)@ == (old(self)@.0, move_idx as nat),
            r == move_idx,
            view_valid(final(self)@),
    {
        self.display_move_idx = move_idx;
        move_idx
    }

    /// Steps `offset` moves through the history, staying between the first
    /// move and the current position. A view of a history without moves
    /// stays at the start. Returns the new index, or `None` when the view
    /// stayed at the start.
    pub fn step(&mut self, offset: i8) -> (r: Option<usize>)
        ensures
            final(self)@ == (old(self)@.0, spec_step(old(self)@, offset as int)),
            r is None <==> old(self)@.1 == 0,
            r matches Some(i) ==> i == final(self)@.1,
            view_valid(final(self)@),
    {
        proof {
            use_type_invariant(&*self);
        }
        if self.display_move_idx == 0 {
            return None;
        }
        let v: i128 = self.display_move_idx as i128 + offset as i128;
        let hi: i128 = self.move_count as i128;
        let clamped: i128 = if v < 1 {
            1
        } else if v > hi {
            hi
        } else {
            v
        };
        self.display_move_idx = clamped as usize;
        Some(self.display_move_idx)
    }

    /// Jumps to the first move or to the current position. A view of a
    /// history without moves stays at the start. Returns the new index, or
    /// `None` when the view stayed at the start.
    pub fn jump(&mut self, target: HistoryJumpTarget) -> (r: Option<usize>)
        ensures
            final(self)@ == (old(self)@.0, spec_jump(old(self)@, target)),
            r is None <==> old(self)@.1 == 0,
            r matches Some(i) ==> i == final(self)@.1,
            view_valid(final(self)@),
    {
        proof {
            use_type_invariant(&*self);
        }
        if self.display_move_idx == 0 {
            return None;
        }
        self.display_move_idx = match target {
            HistoryJumpTarget::Start => 1,
            HistoryJumpTarget::End => self.move_count,
        };
        Some(self.display_move_idx)
    }

    /// Moves through the history as `nav` asks.
    pub fn navigate(&mut self, nav: HistoryNav) -> (r: Option<usize>)
        ensures
            final(self)@ == (old(self)@.0, match nav {
                HistoryNav::Step(o) => spec_step(old(self)@, o as int),
                HistoryNav::Jump(t) => spec_jump(old(self)@, t),
            }),
            r is None <==> old(self)@.1 == 0,
            r matches Some(i) ==> i == final(self)@.1,
            view_valid(final(self)@),
    {
        match nav {
            HistoryNav::Step(o) => self.step(o),
            HistoryNav::Jump(t) => self.jump(t),
        }
    }
}

/// A step never leaves the range from the first move to the current
/// position, once a move was played.
pub proof fn lemma_step_in_range(v: (nat, nat), offset: int)
    requires
        view_valid(v),
        v.0 > 0,
    ensures
        1 <= spec_step(v, offset) <= v.0,
{
}

/// A step back and then a step forward return to the shown position,
/// unless it was the first move.
pub proof fn lemma_step_back_forward(v: (nat, nat))
    requires
        view_valid(v),
        v.1 >= 2,
    ensures
        spec_step((v.0, spec_step(v, -1)), 1) == v.1,
{
}

/// Jumping to the end shows the current position; a further step forward
/// stays there.
pub proof fn lemma_end_is_latest(v: (nat, nat))
    requires
        view_valid(v),
        v.0 > 0,
    ensures
        spec_jump(v, HistoryJumpTarget::End) == v.0,
        spec_step((v.0, spec_jump(v, HistoryJumpTarget::End)), 1) == v.0,
{
}

/// The history keys: left arrow or A steps back, right arrow or D steps
/// forward; with shift held they jump to the first move or the end.
pub open spec fn spec_history_key(key_code: u32, shift: bool) -> Option<HistoryNav> {
    if key_code == 37 || key_code == 65 {
        if shift {
            Some(HistoryNav::Jump(HistoryJumpTarget::Start))
        } else {
            Some(HistoryNav::Step(-1i8))
        }
    } else if key_code == 39 || key_code == 68 {
        if shift {
            Some(HistoryNav::Jump(HistoryJumpTarget::End))
        } else {
            Some(HistoryNav::Step(1i8))
        }
    } else {
        None
    }
}

/// The history navigation a key press asks for, if any.
pub fn history_key(key_code: u32, shift: bool) -> (r: Option<HistoryNav>)
    ensures
        r == spec_history_key(key_code, shift),
{
    if key_code == 37 || key_code == 65 {
        if shift {
            Some(HistoryNav::Jump(HistoryJumpTarget::Start))
        } else {
            Some(HistoryNav::Step(-1i8))
        }
    } else if key_code == 39 || key_code == 68 {
        if shift {
            Some(HistoryNav::Jump(HistoryJumpTarget::End))
        } else {
            Some(HistoryNav::Step(1i8))
        }
    } else {
        None
    }
}

// ---------------------------------------------------------------------------
// Client state
// ---------------------------------------------------------------------------

/// What the browser client knows of its match: which colors it controls,
/// and which position of the match's history it shows (none before the
/// first game state arrived).
#[derive(Debug)]
pub struct Client {
    control: MatchControl,
    view: Option<MatchView>,
}

impl Client {
    /// The colors this client may move for.
    pub closed spec fn control_view(&self) -> MatchControl {
        self.control
    }

    /// The shown position, as (number of moves, shown index).
    pub closed spec fn view_model(&self) -> Option<(nat, nat)> {
        match self.view {
            Some(v) => Some(v@),
            None => None,
        }
    }

    /// Whether the client may act on the board now: a game is shown at its
    /// current position and the client controls the color to move.
    pub open spec fn spec_may_act(&self, active: Color) -> bool {
        &&& self.view_model() matches Some(v)
        &&& v.1 == v.0
        &&& spec_controls(self.control_view(), active)
    }

    /// A client before it joined a match: it controls nothing.
    pub fn new() -> (r: Self)
        ensures
            r.control_view() == MatchControl::Neither,
            r.view_model() is None,
    {
        Client { control: MatchControl::Neither, view: None }
    }

    /// The colors this client may move for.
    pub fn control(&self) -> (r: MatchControl)
        ensures
            r == self.control_view(),
    {
        self.control
    }

    /// The shown position, if a game state arrived.
    pub fn view(&self) -> (r: Option<MatchView>)
        ensures
            match r {
                Some(v) => self.view_model() == Some(v@),
                None => self.view_model() is None,
            },
    {
        self.view
    }

    /// Takes on a control message from the server; returns the status line
    /// to show.
    pub fn on_control(&mut self, control: MatchControl) -> (r: String)
        ensures
            final(self).control_view() == control,
            final(self).view_model() == old(self).view_model(),
            r@ == spec_control_message(control),
    {
        self.control = control;
        control_message(control)
    }

    /// Takes on a game state with `move_count` moves: the current position
    /// is shown.
    pub fn on_game_state(&mut self, move_count: usize)
        ensures
            final(self).control_view() == old(self).control_view(),
            final(self).view_model() == Some((move_count as nat, move_count as nat)),
    {
        self.view = Some(MatchView::new(move_count));
    }

    /// Whether a click on the board acts on the game, `active` being the
    /// color to move.
    pub fn may_act(&self, active: Color) -> (r: bool)
        ensures
            r == self.spec_may_act(active),
    {
        match &self.view {
            Some(v) => v.viewing_latest() && self.control.controls(active),
            None => false,
        }
    }

    /// Whether the move being built may be submitted: the current position
    /// is shown.
    pub fn may_submit(&self) -> (r: bool)
        ensures
            r == (self.view_model() matches Some(v) && v.1 == v.0),
    {
        match &self.view {
            Some(v) => v.viewing_latest(),
            None => false,
        }
    }

    /// Shows the position after move `move_idx`; returns the index to show,
    /// or `None` when no game is shown.
    pub fn history_click(&mut self, move_idx: usize) -> (r: Option<usize>)
        requires
            old(self).view_model() matches Some(v) ==> view_valid((v.0, move_idx as nat)),
        ensures
            final(self).control_view() == old(self).control_view(),
            match old(self).view_model() {
                Some(v) => r == Some(move_idx) && final(self).view_model() == Some((v.0, move_idx as nat)),
                None => r is None && final(self).view_model() is None,
            },
    {
        match &mut self.view {
            Some(v) => Some(v.click(move_idx)),
            None => None,
        }
    }

    /// Moves through the history as `nav` asks; returns the index to show,
    /// or `None` when nothing changed.
    pub fn history_navigate(&mut self, nav: HistoryNav) -> (r: Option<usize>)
        ensures
            final(self).control_view() == old(self).control_view(),
            match old(self).view_model() {
                Some(v) => {
                    let i = match nav {
                        HistoryNav::Step(o) => spec_step(v, o as int),
                        HistoryNav::Jump(t) => spec_jump(v, t),
                    };
                    &&& final(self).view_model() == Some((v.0, i))
                    &&& (r is None <==> v.1 == 0)
                    &&& (r matches Some(j) ==> j == i)
                },
                None => r is None && final(self).view_model() is None,
            },
    {
        match &mut self.view {
            Some(v) => v.navigate(nav),
            None => None,
        }
    }
}

/// The status line that tells a client what it controls.
pub open spec fn spec_control_message(control: MatchControl) -> Seq<char> {
    "You control: "@ + match control {
        MatchControl::Both => "Both colors"@,
        MatchControl::Single(color) => spec_color_name(color),
        MatchControl::Neither => "No color"@,
    }
}

/// The status line that tells a client what it controls.
pub fn control_message(control: MatchControl) -> (r: String)
    ensures
        r@ == spec_control_message(control),
{
    let mut out = String::from_str("You control: ");
    match control {
        MatchControl::Both => out.append("Both colors"),
        MatchControl::Single(color) => out.append(color.name()),
        MatchControl::Neither => out.append("No color"),
    }
    out
}

// ---------------------------------------------------------------------------
// Typed commands and the join request
// ---------------------------------------------------------------------------

/// A command typed into the client's input box.
pub enum TypedCommand {
    Reset(nat),
    Undo,
    Swap,
}

/// The prefix of every typed command.
pub open spec fn ctrl_prefix() -> Seq<char> {
    "ctrl: "@
}

/// Whether `s` starts with the command `new ` after the prefix.
pub open spec fn is_new_command(s: Seq<char>) -> bool {
    spec_has_at(s, 0, ctrl_prefix()) && spec_has_at(s, 6, "new "@)
}

/// The inputs that typed-command handling takes: after `ctrl: new ` there
/// is one more character, and it is a single byte.
pub open spec fn command_readable(s: Seq<char>) -> bool {
    is_new_command(s) ==> s.len() > 10 && (s[10] as u32) < 128
}

/// The command that the text `s` asks for, if any.
pub open spec fn spec_typed_command(s: Seq<char>) -> Option<TypedCommand> {
    if !spec_has_at(s, 0, ctrl_prefix()) {
        None
    } else if spec_has_at(s, 6, "new "@) {
        let c = s[10] as u32;
        if 48 <= c <= 57 && valid_board_size(c - 48) {
            Some(TypedCommand::Reset((c - 48) as nat))
        } else {
            None
        }
    } else if s.skip(6) == "undo"@ {
        Some(TypedCommand::Undo)
    } else if s.skip(6) == "swap"@ {
        Some(TypedCommand::Swap)
    } else {
        None
    }
}

/// The message a typed command sends: `ctrl: new N` resets the game to an
/// N-by-N board, `ctrl: undo` takes back the last move, `ctrl: swap`
/// exchanges the players' colors. Other text sends nothing.
pub fn submit_action<M>(msg: &str) -> (r: Option<ClientMessage<M>>)
    requires
        command_readable(msg@),
    ensures
        match spec_typed_command(msg@) {
            Some(TypedCommand::Reset(n)) => r matches Some(ClientMessage::ResetGame(b)) && b@ == n,
            Some(TypedCommand::Undo) => r matches Some(ClientMessage::UndoMove),
            Some(TypedCommand::Swap) => r matches Some(ClientMessage::SwapPlayers),
            None => r is None,
        },
{
    proof {
        reveal_strlit("ctrl: ");
        reveal_strlit("new ");
        reveal_strlit("undo");
        reveal_strlit("swap");
    }
    let len = msg.unicode_len();
    if !has_at(msg, len, 0, "ctrl: ") {
        return None;
    }
    if has_at(msg, len, 6, "new ") {
        let c = msg.get_char(10);
        if '0' <= c && c <= '9' {
            let digit: usize = ((c as u32) - 48) as usize;
            match BoardSize::new(digit) {
                Some(size) => Some(ClientMessage::ResetGame(size)),
                None => None,
            }
        } else {
            None
        }
    } else if len == 10 && has_at(msg, len, 6, "undo") {
        proof {
            assert(msg@.skip(6) =~= msg@.subrange(6, 10));
        }
        Some(ClientMessage::UndoMove)
    } else if len == 10 && has_at(msg, len, 6, "swap") {
        proof {
            assert(msg@.skip(6) =~= msg@.subrange(6, 10));
        }
        Some(ClientMessage::SwapPlayers)
    } else {
        proof {
            if msg@.skip(6) == "undo"@ || msg@.skip(6) == "swap"@ {
                assert(msg@.skip(6).len() == 4);
                assert(msg@.len() == 10);
                assert(msg@.subrange(6, 10) =~= msg@.skip(6));
            }
        }
        None
    }
}

/// The paths a page can be served at: they start with a one-byte character
/// (a slash).
pub open spec fn path_readable(path: Seq<char>) -> bool {
    path.len() >= 1 && (path[0] as u32) < 128
}

/// The match a page at `path` asks to join: the hash after the leading
/// slash, or a new match when there is none.
pub fn join_request<M>(path: &str) -> (r: ClientMessage<M>)
    requires
        path_readable(path@),
    ensures
        r matches ClientMessage::JoinMatch(hash) && (if path@.len() == 1 {
            hash is None
        } else {
            hash matches Some(h) && h@ == path@.skip(1)
        }),
{
    let len = path.unicode_len();
    if len == 1 {
        ClientMessage::JoinMatch(None)
    } else {
        let suffix = path.substring_char(1, len);
        proof {
            assert(suffix@ =~= path@.skip(1));
        }
        ClientMessage::JoinMatch(Some(String::from_str(suffix)))
    }
}

/// Whether the page at `path` already shows the match with this hash.
pub fn path_shows_match(path: &str, match_id_hash: &str) -> (r: bool)
    requires
        path_readable(path@),
    ensures
        r == (path@.skip(1) == match_id_hash@),
{
    let len = path.unicode_len();
    let hlen = match_id_hash.unicode_len();
    if hlen != len - 1 {
        proof {
            if path@.skip(1) == match_id_hash@ {
                assert(path@.skip(1).len() == match_id_hash@.len());
            }
        }
        false
    } else {
        let r = has_at(path, len, 1, match_id_hash);
        proof {
            if r {
                assert(path@.skip(1) =~= path@.subrange(1, len as int));
            } else if path@.skip(1) == match_id_hash@ {
                assert(path@.subrange(1, len as int) =~= path@.skip(1));
            }
        }
        r
    }
}

// ---------------------------------------------------------------------------
// What a click on the board does
// ---------------------------------------------------------------------------

/// The kinds of Tak stones.
#[derive(Clone, Copy, Debug, PartialEq, Eq, Structural)]
pub enum StoneKind {
    FlatStone,
    StandingStone,
    Capstone,
}

/// The next kind when a player clicks a just-placed stone again:
/// flat, standing, capstone, and round again.
pub open spec fn spec_next_stone_kind(kind: StoneKind) -> StoneKind {
    match kind {
        StoneKind::FlatStone => StoneKind::StandingStone,
        StoneKind::StandingStone => StoneKind::Capstone,
        StoneKind::Capstone => StoneKind::FlatStone,
    }
}

/// The next kind when a player clicks a just-placed stone again.
pub fn next_stone_kind(kind: StoneKind) -> (r: StoneKind)
    ensures
        r == spec_next_stone_kind(kind),
{
    match kind {
        StoneKind::FlatStone => StoneKind::StandingStone,
        StoneKind::StandingStone => StoneKind::Capstone,
        StoneKind::Capstone => StoneKind::FlatStone,
    }
}

/// Three clicks on a placed stone bring back its kind.
pub proof fn lemma_kind_cycle(kind: StoneKind)
    ensures
        spec_next_stone_kind(spec_next_stone_kind(spec_next_stone_kind(kind))) == kind,
        spec_next_stone_kind(kind) != kind,
{
}

/// What a click does before anything was done this turn.
#[derive(Clone, Copy, Debug, PartialEq, Eq, Structural)]
pub enum StartClick {
    /// Place a flat stone (a capstone if no flat stone is left).
    PlaceFlat,
    /// Pick up this many stones from the clicked stack.
    Pickup(usize),
}

/// What a click on a square with `stack_count` stones does at the start of
/// a turn: an empty square gets a stone, otherwise as many stones as the
/// board is wide, or the whole stack if smaller, are picked up.
pub fn start_click(stack_count: usize, size: BoardSize) -> (r: StartClick)
    ensures
        stack_count == 0 ==> r == StartClick::PlaceFlat,
        stack_count > 0 ==> r == StartClick::Pickup(
            if stack_count < size@ { stack_count } else { size@ as usize },
        ),
{
    if stack_count == 0 {
        StartClick::PlaceFlat
    } else {
        let n = size.get();
        StartClick::Pickup(if stack_count < n { stack_count } else { n })
    }
}

/// What a click does after a stone was placed this turn.
#[derive(Clone, Copy, Debug, PartialEq, Eq, Structural)]
pub enum PlacedClick {
    /// Take the stone back and place the next kind instead.
    CycleKind,
    /// Take the stone back.
    Undo,
}

/// A click on the placed stone changes its kind; a click elsewhere takes it
/// back.
pub fn placed_click(placed_at: Location, click: Location) -> (r: PlacedClick)
    ensures
        r == (if click == placed_at { PlacedClick::CycleKind } else { PlacedClick::Undo }),
{
    if click == placed_at {
        PlacedClick::CycleKind
    } else {
        PlacedClick::Undo
    }
}

/// What a click does while a stack is being moved.
#[derive(Clone, Copy, Debug, PartialEq, Eq, Structural)]
pub enum MovementClick {
    /// Nothing: the carried stack is empty and the click was on it.
    Stay,
    /// Drop one carried stone where the stack is.
    DropOne,
    /// Take back the drops up to this square, where the stack was before.
    RewindTo(Location),
    /// Move one square in this direction and drop one stone there.
    MoveAndDrop(Direction),
    /// Take back the whole movement.
    Cancel,
}

/// How far `l` lies along `dir`.
pub open spec fn along(l: Location, dir: Direction) -> int {
    match dir {
        Direction::Up => l.row as int,
        Direction::Down => -(l.row as int),
        Direction::Right => l.col as int,
        Direction::Left => -(l.col as int),
    }
}

/// The coordinate of `l` across `dir`.
pub open spec fn across(l: Location, dir: Direction) -> int {
    match dir {
        Direction::Up | Direction::Down => l.col as int,
        Direction::Right | Direction::Left => l.row as int,
    }
}

/// Whether `b` lies on the line from `a` in direction `dir`, beyond `a`.
pub open spec fn beyond(a: Location, b: Location, dir: Direction) -> bool {
    across(b, dir) == across(a, dir) && along(b, dir) > along(a, dir)
}

/// Whether `l` lies strictly between `start` and `cur` on their line.
pub open spec fn strictly_between(start: Location, cur: Location, dir: Direction, l: Location) -> bool {
    beyond(start, l, dir) && along(l, dir) < along(cur, dir)
}

/// The direction of a neighbouring square, if `b` is next to `a`.
pub open spec fn direction_to(a: Location, b: Location, size: nat) -> Option<Direction> {
    if spec_move_along(a, Direction::Up, size) == Some(b) {
        Some(Direction::Up)
    } else if spec_move_along(a, Direction::Right, size) == Some(b) {
        Some(Direction::Right)
    } else if spec_move_along(a, Direction::Down, size) == Some(b) {
        Some(Direction::Down)
    } else if spec_move_along(a, Direction::Left, size) == Some(b) {
        Some(Direction::Left)
    } else {
        None
    }
}

/// The movement states a click can be handled in: the stack has moved from
/// `start` to `cur` along `dir`, both on the board.
pub open spec fn movement_readable(start: Location, cur: Location, dir: Option<Direction>, size: nat) -> bool {
    dir matches Some(d) ==> on_board(start, size) && on_board(cur, size) && beyond(start, cur, d)
}

/// What a click on `click` does while a stack that left `start` is at `cur`,
/// moving along `dir` (not yet chosen while it has not left `start`),
/// carrying `carry` stones.
pub open spec fn spec_movement_click(
    start: Location,
    cur: Location,
    dir: Option<Direction>,
    carry: nat,
    size: nat,
    click: Location,
) -> MovementClick {
    if click == cur {
        if carry == 0 {
            MovementClick::Stay
        } else {
            MovementClick::DropOne
        }
    } else {
        match dir {
            Some(d) => if strictly_between(start, cur, d, click) {
                MovementClick::RewindTo(click)
            } else if carry > 0 && spec_move_along(cur, d, size) == Some(click) {
                MovementClick::MoveAndDrop(d)
            } else {
                MovementClick::Cancel
            },
            None => if carry > 0 && direction_to(cur, click, size) is Some {
                MovementClick::MoveAndDrop(direction_to(cur, click, size)->0)
            } else {
                MovementClick::Cancel
            },
        }
    }
}

/// A step along the line from below `cur` stays on the board and on the line.
proof fn lemma_step_towards(loc: Location, cur: Location, d: Direction, size: nat)
    requires
        size <= crate::protocol::MAX_BOARD_SIZE,
        on_board(cur, size),
        on_board(loc, size),
        across(loc, d) == across(cur, d),
        along(loc, d) < along(cur, d),
    ensures
        spec_move_along(loc, d, size) is Some,
        across(spec_move_along(loc, d, size)->0, d) == across(loc, d),
        along(spec_move_along(loc, d, size)->0, d) == along(loc, d) + 1,
{
}

/// What a click does while a stack is being moved (see `spec_movement_click`).
pub fn movement_click(
    start: Location,
    cur: Location,
    dir: Option<Direction>,
    carry: usize,
    size: BoardSize,
    click: Location,
) -> (r: MovementClick)
    requires
        movement_readable(start, cur, dir, size@),
    ensures
        r == spec_movement_click(start, cur, dir, carry as nat, size@, click),
{
    let width = size.get();
    let ghost n = size@;
    if click == cur {
        return if carry == 0 {
            MovementClick::Stay
        } else {
            MovementClick::DropOne
        };
    }
    if let Some(d) = dir {
        let first = start.move_along(d, size);
        proof {
            lemma_step_towards(start, cur, d, n);
        }
        let mut loc = first.unwrap();
        while loc != cur
            invariant
                n == size@,
                n <= crate::protocol::MAX_BOARD_SIZE,
                dir == Some(d),
                on_board(cur, n),
                on_board(loc, n),
                beyond(start, cur, d),
                beyond(start, loc, d),
                along(loc, d) <= along(cur, d),
                click != cur,
                forall|l: Location|
                    beyond(start, l, d) && along(l, d) < along(loc, d) ==> l != click,
            decreases along(cur, d) - along(loc, d),
        {
            if loc == click {
                proof {
                    assert(across(loc, d) == across(cur, d));
                    if along(loc, d) == along(cur, d) {
                        assert(loc.col == cur.col && loc.row == cur.row);
                    }
                }
                return MovementClick::RewindTo(click);
            }
            proof {
                assert(across(loc, d) == across(cur, d));
                if along(loc, d) == along(cur, d) {
                    assert(loc.col == cur.col && loc.row == cur.row);
                }
                lemma_step_towards(loc, cur, d, n);
            }
            loc = loc.move_along(d, size).unwrap();
        }
    }
    if carry != 0 {
        match dir {
            Some(d) => {
                if cur.move_along(d, size) == Some(click) {
                    return MovementClick::MoveAndDrop(d);
                }
            },
            None => {
                let neighbours = cur.neighbours_with_direction(size);
                let mut i: usize = 0;
                while i < neighbours.len()
                    invariant
                        n == size@,
                        n <= crate::protocol::MAX_BOARD_SIZE,
                        dir is None,
                        carry != 0,
                        click != cur,
                        neighbours@ == spec_neighbours(cur, n),
                        0 <= i <= neighbours@.len(),
                        forall|j: int| 0 <= j < i ==> (#[trigger] neighbours@[j]).0 != click,
                    decreases neighbours@.len() - i,
                {
                    let (l, d) = neighbours[i];
                    if l == click {
                        proof {
                            crate::board::lemma_neighbour_is_step(cur, l, d, n);
                            assert(spec_neighbours(cur, n).contains((l, d)));
                            lemma_direction_to(cur, click, d, n);
                        }
                        return MovementClick::MoveAndDrop(d);
                    }
                    i = i + 1;
                }
                proof {
                    if direction_to(cur, click, n) is Some {
                        let d = direction_to(cur, click, n)->0;
                        crate::board::lemma_step_is_neighbour(cur, click, d, n);
                        let k = choose|k: int| 0 <= k < neighbours@.len() && neighbours@[k] == (click, d);
                        assert(neighbours@[k].0 == click);
                    }
                }
            },
        }
    }
    MovementClick::Cancel
}

/// Whether `movement_click` can read a movement: a stack that left `start`
/// along `dir` stands on the board, beyond `start` on that line.
pub fn is_movement_readable(start: Location, cur: Location, dir: Option<Direction>, size: BoardSize) -> (r: bool)
    ensures
        r == movement_readable(start, cur, dir, size@),
{
    match dir {
        None => true,
        Some(d) => {
            let n = size.get();
            let on = start.col < n && start.row < n && cur.col < n && cur.row < n;
            let line = match d {
                Direction::Up => start.col == cur.col && cur.row > start.row,
                Direction::Down => start.col == cur.col && cur.row < start.row,
                Direction::Right => start.row == cur.row && cur.col > start.col,
                Direction::Left => start.row == cur.row && cur.col < start.col,
            };
            on && line
        },
    }
}

/// Why the game engine refused an action, as far as a click on the board
/// cares; `Other` stands for every other reason.
#[derive(Clone, Copy, Debug, PartialEq, Eq, Structural)]
pub enum ActionRefusal {
    /// No stone of the kind to place is left.
    NoStoneAvailable,
    /// That kind of stone may not be placed now.
    StoneKindNotValid,
    /// The picked-up stack is not the mover's.
    StartNotControlled,
    /// More stones would be dropped than are carried.
    DropTooLarge,
    /// A drop is not allowed there.
    DropNotAllowed,
    /// Any other reason.
    Other,
}

/// The next step of placing a stone, once the engine has answered.
#[derive(Clone, Copy, Debug, PartialEq, Eq, Structural)]
pub enum PlaceStep {
    /// The stone is placed.
    Done,
    /// Try placing a stone of this kind instead.
    Place(StoneKind),
    /// The click ends with the engine's refusal.
    Refused,
}

/// After placing `tried` on an empty square at the start of a turn: a
/// flat stone that is not available gives way to a capstone; any other
/// refusal ends the click.
pub open spec fn spec_start_place_step(tried: StoneKind, refusal: Option<ActionRefusal>) -> PlaceStep {
    match refusal {
        None => PlaceStep::Done,
        Some(ActionRefusal::NoStoneAvailable) => if tried == StoneKind::FlatStone {
            PlaceStep::Place(StoneKind::Capstone)
        } else {
            PlaceStep::Refused
        },
        Some(_) => PlaceStep::Refused,
    }
}

/// The next step of a click on an empty square at the start of a turn,
/// after the engine answered the placement of `tried` (see
/// `spec_start_place_step`).
pub fn start_place_step(tried: StoneKind, refusal: Option<ActionRefusal>) -> (r: PlaceStep)
    ensures
        r == spec_start_place_step(tried, refusal),
{
    match refusal {
        None => PlaceStep::Done,
        Some(ActionRefusal::NoStoneAvailable) => if tried == StoneKind::FlatStone {
            PlaceStep::Place(StoneKind::Capstone)
        } else {
            PlaceStep::Refused
        },
        Some(_) => PlaceStep::Refused,
    }
}

/// After placing `tried` while cycling the kind of a placed stone: a kind
/// with no stone left, or one not allowed now, is skipped for the next kind
/// in the cycle; any other refusal ends the click.
pub open spec fn spec_cycle_step(tried: StoneKind, refusal: Option<ActionRefusal>) -> PlaceStep {
    match refusal {
        None => PlaceStep::Done,
        Some(ActionRefusal::NoStoneAvailable) => PlaceStep::Place(spec_next_stone_kind(tried)),
        Some(ActionRefusal::StoneKindNotValid) => PlaceStep::Place(spec_next_stone_kind(tried)),
        Some(_) => PlaceStep::Refused,
    }
}

/// The next step of cycling the kind of a placed stone, after the engine
/// answered the placement of `tried` (see `spec_cycle_step`).
pub fn cycle_step(tried: StoneKind, refusal: Option<ActionRefusal>) -> (r: PlaceStep)
    ensures
        r == spec_cycle_step(tried, refusal),
{
    match refusal {
        None => PlaceStep::Done,
        Some(ActionRefusal::NoStoneAvailable) => PlaceStep::Place(next_stone_kind(tried)),
        Some(ActionRefusal::StoneKindNotValid) => PlaceStep::Place(next_stone_kind(tried)),
        Some(_) => PlaceStep::Refused,
    }
}

/// Cycling from any kind tries the two other kinds, then the kind itself:
/// the first of them the engine accepts is placed.
pub proof fn lemma_cycle_tries_every_kind(kind: StoneKind)
    ensures
        spec_next_stone_kind(kind) != kind,
        spec_next_stone_kind(spec_next_stone_kind(kind)) != kind,
        spec_next_stone_kind(spec_next_stone_kind(kind)) != spec_next_stone_kind(kind),
        spec_next_stone_kind(spec_next_stone_kind(spec_next_stone_kind(kind))) == kind,
{
}

/// Whether a refused pickup ends the click quietly: picking up a stack the
/// mover does not control does nothing.
pub fn pickup_refusal_ignored(refusal: ActionRefusal) -> (r: bool)
    ensures
        r == (refusal == ActionRefusal::StartNotControlled),
{
    match refusal {
        ActionRefusal::StartNotControlled => true,
        _ => false,
    }
}

/// Whether a refused move-and-drop ends the click quietly: a drop that is
/// too large or not allowed there does nothing.
pub fn move_drop_refusal_ignored(refusal: ActionRefusal) -> (r: bool)
    ensures
        r == (refusal == ActionRefusal::DropTooLarge || refusal == ActionRefusal::DropNotAllowed),
{
    match refusal {
        ActionRefusal::DropTooLarge => true,
        ActionRefusal::DropNotAllowed => true,
        _ => false,
    }
}

/// The turn a click on the board acts on, as the click reads it.
#[derive(Clone, Copy, Debug, PartialEq, Eq, Structural)]
pub enum TurnState {
    /// Nothing done yet this turn; the clicked square holds this many stones.
    Start { stack_count: usize },
    /// A stone was placed on `loc`.
    Placed { loc: Location },
    /// A stack that left `start` is at `cur`, moving along `dir`, carrying
    /// `carry` stones.
    Movement { start: Location, cur: Location, dir: Option<Direction>, carry: usize },
}

/// What a click on the board does to the game.
#[derive(Clone, Copy, Debug, PartialEq, Eq, Structural)]
pub enum BoardClick {
    Start(StartClick),
    Placed(PlacedClick),
    Movement(MovementClick),
}

/// What a click on `click` does in the turn `turn` on a board of `size`.
pub open spec fn spec_board_click(turn: TurnState, size: nat, click: Location) -> BoardClick {
    match turn {
        TurnState::Start { stack_count } => BoardClick::Start(
            if stack_count == 0 {
                StartClick::PlaceFlat
            } else {
                StartClick::Pickup(if stack_count < size { stack_count } else { size as usize })
            },
        ),
        TurnState::Placed { loc } => BoardClick::Placed(
            if click == loc { PlacedClick::CycleKind } else { PlacedClick::Undo },
        ),
        TurnState::Movement { start, cur, dir, carry } => BoardClick::Movement(
            spec_movement_click(start, cur, dir, carry as nat, size, click),
        ),
    }
}

impl Client {
    /// What a click on the square `click` does, `active` being the color to
    /// move: nothing unless the latest position is shown and this client
    /// controls `active`; otherwise an action on the game. The session is
    /// only read, and a click sends nothing to the server.
    pub fn board_click(&self, active: Color, turn: TurnState, size: BoardSize, click: Location) -> (r: Option<BoardClick>)
        requires
            self.spec_may_act(active) ==> (turn matches TurnState::Movement { start, cur, dir, .. }
                ==> movement_readable(start, cur, dir, size@)),
        ensures
            r == (if self.spec_may_act(active) {
                Some(spec_board_click(turn, size@, click))
            } else {
                None
            }),
    {
        if !self.may_act(active) {
            return None;
        }
        let action = match turn {
            TurnState::Start { stack_count } => BoardClick::Start(start_click(stack_count, size)),
            TurnState::Placed { loc } => BoardClick::Placed(placed_click(loc, click)),
            TurnState::Movement { start, cur, dir, carry } => BoardClick::Movement(
                movement_click(start, cur, dir, carry, size, click),
            ),
        };
        Some(action)
    }
}

/// A click at the start of a turn: an empty square gets a stone; on a
/// stack, the click picks up as many stones as the board is wide, or the
/// whole stack if it is lower, and never more than the stack holds.
pub proof fn lemma_start_click_takes_what_the_stack_holds(stack_count: usize, size: nat, click: Location)
    requires
        1 <= size <= crate::protocol::MAX_BOARD_SIZE,
    ensures
        stack_count == 0 ==> spec_board_click(TurnState::Start { stack_count }, size, click)
            == BoardClick::Start(StartClick::PlaceFlat),
        stack_count > 0 ==> (spec_board_click(TurnState::Start { stack_count }, size, click) matches
            BoardClick::Start(StartClick::Pickup(k)) && 1 <= k && k <= stack_count && k <= size
            && (k == stack_count || k == size)),
{
}

/// The letter keys mirror the arrow keys: D acts as the right arrow and A
/// as the left one. Unshifted, right steps one move forward and left one
/// move back; shifted, they jump to the end and to the start. No other key
/// navigates.
pub proof fn lemma_history_keys(key_code: u32, shift: bool)
    ensures
        spec_history_key(68, shift) == spec_history_key(39, shift),
        spec_history_key(65, shift) == spec_history_key(37, shift),
        spec_history_key(39, shift) == (if shift {
            Some(HistoryNav::Jump(HistoryJumpTarget::End))
        } else {
            Some(HistoryNav::Step(1i8))
        }),
        spec_history_key(37, shift) == (if shift {
            Some(HistoryNav::Jump(HistoryJumpTarget::Start))
        } else {
            Some(HistoryNav::Step(-1i8))
        }),
        key_code != 37 && key_code != 39 && key_code != 65 && key_code != 68
            ==> spec_history_key(key_code, shift) is None,
{
}

/// `ctrl: new d` asks for a reset exactly when the digit `d` is a board
/// size, 3 to 8, and then for a board of side `d`.
pub proof fn lemma_new_command_sizes(s: Seq<char>)
    requires
        is_new_command(s),
        s.len() > 10,
    ensures
        (spec_typed_command(s) is Some) <==> (51 <= (s[10] as u32) <= 56),
        spec_typed_command(s) matches Some(cmd) ==> cmd == TypedCommand::Reset(((s[10] as u32) - 48) as nat),
{
}

/// The direction `direction_to` names is the one a neighbour was reached by.
proof fn lemma_direction_to(a: Location, b: Location, d: Direction, size: nat)
    requires
        size <= crate::protocol::MAX_BOARD_SIZE,
        spec_move_along(a, d, size) == Some(b),
    ensures
        direction_to(a, b, size) == Some(d),
{
}

} // verus!
