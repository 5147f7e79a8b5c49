use tak_garden::board::{file_idx_to_char, Direction, Location};
use tak_garden::client::{
    control_message, cycle_step, history_key, is_movement_readable, join_request,
    move_drop_refusal_ignored, movement_click, next_stone_kind, path_shows_match,
    pickup_refusal_ignored, placed_click, start_click, start_place_step, submit_action,
    ActionRefusal, BoardClick, Client, HistoryJumpTarget, HistoryNav, MatchView, MovementClick,
    PlaceStep, PlacedClick, StartClick, StoneKind, TurnState,
};
use tak_garden::protocol::{BoardSize, ClientMessage, Color, MatchControl};

fn loc(col: usize, row: usize) -> Location {
    Location { col, row }
}

fn size(n: usize) -> BoardSize {
    BoardSize::new(n).unwrap()
}

#[test]
fn typed_new_command_resets_game() {
    match submit_action::<()>("ctrl: new 6") {
        Some(ClientMessage::ResetGame(s)) => assert_eq!(s.get(), 6),
        _ => panic!("expected a reset"),
    }
    // Only the first digit counts.
    match submit_action::<()>("ctrl: new 45") {
        Some(ClientMessage::ResetGame(s)) => assert_eq!(s.get(), 4),
        _ => panic!("expected a reset"),
    }
}

#[test]
fn typed_new_command_with_invalid_size_sends_nothing() {
    assert!(submit_action::<()>("ctrl: new 9").is_none());
    assert!(submit_action::<()>("ctrl: new 2").is_none());
    assert!(submit_action::<()>("ctrl: new x").is_none());
}

#[test]
fn typed_undo_and_swap() {
    assert!(matches!(submit_action::<()>("ctrl: undo"), Some(ClientMessage::UndoMove)));
    assert!(matches!(submit_action::<()>("ctrl: swap"), Some(ClientMessage::SwapPlayers)));
    assert!(submit_action::<()>("ctrl: undo ").is_none());
    assert!(submit_action::<()>("ctrl: und").is_none());
    assert!(submit_action::<()>("undo").is_none());
    assert!(submit_action::<()>("").is_none());
    assert!(submit_action::<()>("Ctrl: undo").is_none());
}

#[test]
fn join_request_from_path() {
    assert!(matches!(join_request::<()>("/"), ClientMessage::JoinMatch(None)));
    match join_request::<()>("/aB3dE9") {
        ClientMessage::JoinMatch(Some(h)) => assert_eq!(h, "aB3dE9"),
        _ => panic!("expected a hash"),
    }
}

#[test]
fn path_compared_with_match_hash() {
    assert!(path_shows_match("/abc123", "abc123"));
    assert!(!path_shows_match("/abc123", "abc124"));
    assert!(!path_shows_match("/", "abc123"));
    assert!(path_shows_match("/", ""));
}

#[test]
fn control_messages() {
    assert_eq!(control_message(MatchControl::Both), "You control: Both colors");
    assert_eq!(control_message(MatchControl::Single(Color::White)), "You control: White");
    assert_eq!(control_message(MatchControl::Single(Color::Black)), "You control: Black");
    assert_eq!(control_message(MatchControl::Neither), "You control: No color");
}

#[test]
fn history_keys() {
    assert_eq!(history_key(37, false), Some(HistoryNav::Step(-1)));
    assert_eq!(history_key(65, true), Some(HistoryNav::Jump(HistoryJumpTarget::Start)));
    assert_eq!(history_key(39, false), Some(HistoryNav::Step(1)));
    assert_eq!(history_key(68, true), Some(HistoryNav::Jump(HistoryJumpTarget::End)));
    assert_eq!(history_key(13, false), None);
}

#[test]
fn history_steps_stay_between_first_move_and_end() {
    let mut v = MatchView::new(3);
    assert!(v.viewing_latest());
    assert_eq!(v.step(1), Some(3));
    assert_eq!(v.step(-1), Some(2));
    assert_eq!(v.step(-1), Some(1));
    assert_eq!(v.step(-1), Some(1));
    assert_eq!(v.step(100), Some(3));
    assert_eq!(v.step(-128), Some(1));
    assert!(!v.viewing_latest());
}

#[test]
fn step_back_then_forward_returns() {
    let mut v = MatchView::new(5);
    v.click(4);
    v.step(-1);
    assert_eq!(v.step(1), Some(4));
}

#[test]
fn history_without_moves_stays_at_start() {
    let mut v = MatchView::new(0);
    assert_eq!(v.step(1), None);
    assert_eq!(v.jump(HistoryJumpTarget::End), None);
    assert_eq!(v.display_move_idx(), 0);
    assert!(v.viewing_latest());
}

#[test]
fn history_jumps() {
    let mut v = MatchView::new(7);
    assert_eq!(v.jump(HistoryJumpTarget::Start), Some(1));
    assert_eq!(v.display_move_idx(), 1);
    assert_eq!(v.jump(HistoryJumpTarget::End), Some(7));
    assert_eq!(v.step(1), Some(7));
    assert_eq!(v.navigate(HistoryNav::Step(-2)), Some(5));
}

#[test]
fn session_acts_only_on_latest_position_of_controlled_color() {
    let mut s = Client::new();
    assert!(!s.may_act(Color::White));
    assert_eq!(s.on_control(MatchControl::Single(Color::White)), "You control: White");
    assert!(!s.may_act(Color::White));
    s.on_game_state(2);
    assert!(s.may_act(Color::White));
    assert!(!s.may_act(Color::Black));
    assert!(s.may_submit());
    assert_eq!(s.history_click(1), Some(1));
    assert!(!s.may_act(Color::White));
    assert!(!s.may_submit());
    assert_eq!(s.history_navigate(HistoryNav::Jump(HistoryJumpTarget::End)), Some(2));
    assert!(s.may_act(Color::White));
}

#[test]
fn session_without_game_ignores_history() {
    let mut s = Client::new();
    assert_eq!(s.history_click(1), None);
    assert_eq!(s.history_navigate(HistoryNav::Step(1)), None);
    assert!(s.view().is_none());
    assert!(!s.may_submit());
}

#[test]
fn start_clicks() {
    assert_eq!(start_click(0, size(5)), StartClick::PlaceFlat);
    assert_eq!(start_click(3, size(5)), StartClick::Pickup(3));
    assert_eq!(start_click(9, size(5)), StartClick::Pickup(5));
}

#[test]
fn placed_clicks_and_kind_cycle() {
    assert_eq!(placed_click(loc(1, 1), loc(1, 1)), PlacedClick::CycleKind);
    assert_eq!(placed_click(loc(1, 1), loc(1, 2)), PlacedClick::Undo);
    assert_eq!(next_stone_kind(StoneKind::FlatStone), StoneKind::StandingStone);
    assert_eq!(next_stone_kind(StoneKind::StandingStone), StoneKind::Capstone);
    assert_eq!(next_stone_kind(StoneKind::Capstone), StoneKind::FlatStone);
}

#[test]
fn movement_before_first_step() {
    let s = size(5);
    let start = loc(2, 2);
    assert_eq!(movement_click(start, start, None, 3, s, start), MovementClick::DropOne);
    assert_eq!(movement_click(start, start, None, 0, s, start), MovementClick::Stay);
    assert_eq!(movement_click(start, start, None, 3, s, loc(2, 3)), MovementClick::MoveAndDrop(Direction::Up));
    assert_eq!(movement_click(start, start, None, 3, s, loc(1, 2)), MovementClick::MoveAndDrop(Direction::Left));
    assert_eq!(movement_click(start, start, None, 0, s, loc(1, 2)), MovementClick::Cancel);
    assert_eq!(movement_click(start, start, None, 3, s, loc(3, 3)), MovementClick::Cancel);
}

#[test]
fn movement_along_a_line() {
    let s = size(6);
    let start = loc(0, 1);
    let cur = loc(3, 1);
    let dir = Some(Direction::Right);
    assert_eq!(movement_click(start, cur, dir, 2, s, cur), MovementClick::DropOne);
    assert_eq!(movement_click(start, cur, dir, 2, s, loc(1, 1)), MovementClick::RewindTo(loc(1, 1)));
    assert_eq!(movement_click(start, cur, dir, 2, s, loc(2, 1)), MovementClick::RewindTo(loc(2, 1)));
    assert_eq!(movement_click(start, cur, dir, 2, s, loc(4, 1)), MovementClick::MoveAndDrop(Direction::Right));
    assert_eq!(movement_click(start, cur, dir, 0, s, loc(4, 1)), MovementClick::Cancel);
    assert_eq!(movement_click(start, cur, dir, 2, s, start), MovementClick::Cancel);
    assert_eq!(movement_click(start, cur, dir, 2, s, loc(3, 2)), MovementClick::Cancel);
}

#[test]
fn movement_stops_at_board_edge() {
    let s = size(4);
    let start = loc(1, 3);
    let cur = loc(1, 1);
    let dir = Some(Direction::Down);
    assert_eq!(movement_click(start, cur, dir, 1, s, loc(1, 2)), MovementClick::RewindTo(loc(1, 2)));
    assert_eq!(movement_click(start, cur, dir, 1, s, loc(1, 0)), MovementClick::MoveAndDrop(Direction::Down));
    let edge = loc(1, 0);
    assert_eq!(movement_click(start, edge, dir, 1, s, loc(1, 1)), MovementClick::RewindTo(loc(1, 1)));
}

#[test]
fn board_geometry() {
    let s = size(3);
    assert_eq!(loc(1, 1).move_along(Direction::Up, s), Some(loc(1, 2)));
    assert_eq!(loc(1, 2).move_along(Direction::Up, s), None);
    assert_eq!(loc(0, 0).move_along(Direction::Left, s), None);
    assert_eq!(loc(0, 0).move_along(Direction::Right, s).unwrap().move_along(Direction::Left, s), Some(loc(0, 0)));
    assert_eq!(
        loc(0, 0).neighbours_with_direction(s),
        vec![(loc(0, 1), Direction::Up), (loc(1, 0), Direction::Right)]
    );
    assert_eq!(loc(1, 1).neighbours_with_direction(s).len(), 4);
    assert_eq!(loc(2, 0).touching_sides(s), vec![Direction::Right, Direction::Down]);
    assert!(loc(1, 1).touching_sides(s).is_empty());
    assert_eq!(Location::from_coords(7, 7), Some(loc(7, 7)));
    assert_eq!(Location::from_coords(8, 0), None);
    assert_eq!(file_idx_to_char(0), Some('a'));
    assert_eq!(file_idx_to_char(7), Some('h'));
    assert_eq!(file_idx_to_char(8), None);
    assert_eq!(Direction::Up.opposite(), Direction::Down);
}

#[test]
fn neighbours_are_symmetric() {
    let s = size(4);
    for col in 0..4 {
        for row in 0..4 {
            let a = loc(col, row);
            for (b, d) in a.neighbours_with_direction(s) {
                assert!(b.neighbours_with_direction(s).contains(&(a, d.opposite())));
                assert_eq!(b.move_along(d.opposite(), s), Some(a));
            }
        }
    }
}

#[test]
fn three_kind_changes_come_back() {
    for k in [StoneKind::FlatStone, StoneKind::StandingStone, StoneKind::Capstone] {
        assert_ne!(next_stone_kind(k), k);
        assert_eq!(next_stone_kind(next_stone_kind(next_stone_kind(k))), k);
    }
}

#[test]
fn history_click_at_start_of_a_game_without_moves() {
    let mut v = MatchView::new(0);
    assert_eq!(v.click(0), 0);
    assert_eq!(v.display_move_idx(), 0);
    assert!(v.viewing_latest());
    let mut s = Client::new();
    s.on_game_state(0);
    assert_eq!(s.history_click(0), Some(0));
    assert_eq!(s.view().unwrap().display_move_idx(), 0);
}

#[test]
fn start_placement_falls_back_to_capstone() {
    assert_eq!(start_place_step(StoneKind::FlatStone, None), PlaceStep::Done);
    assert_eq!(
        start_place_step(StoneKind::FlatStone, Some(ActionRefusal::NoStoneAvailable)),
        PlaceStep::Place(StoneKind::Capstone)
    );
    assert_eq!(start_place_step(StoneKind::Capstone, None), PlaceStep::Done);
    assert_eq!(start_place_step(StoneKind::Capstone, Some(ActionRefusal::NoStoneAvailable)), PlaceStep::Refused);
    assert_eq!(start_place_step(StoneKind::FlatStone, Some(ActionRefusal::Other)), PlaceStep::Refused);
}

#[test]
fn cycling_skips_refused_kinds() {
    assert_eq!(cycle_step(StoneKind::StandingStone, None), PlaceStep::Done);
    assert_eq!(
        cycle_step(StoneKind::StandingStone, Some(ActionRefusal::StoneKindNotValid)),
        PlaceStep::Place(StoneKind::Capstone)
    );
    assert_eq!(
        cycle_step(StoneKind::Capstone, Some(ActionRefusal::NoStoneAvailable)),
        PlaceStep::Place(StoneKind::FlatStone)
    );
    assert_eq!(cycle_step(StoneKind::FlatStone, Some(ActionRefusal::DropTooLarge)), PlaceStep::Refused);
}

#[test]
fn quietly_ignored_refusals() {
    assert!(pickup_refusal_ignored(ActionRefusal::StartNotControlled));
    assert!(!pickup_refusal_ignored(ActionRefusal::Other));
    assert!(move_drop_refusal_ignored(ActionRefusal::DropTooLarge));
    assert!(move_drop_refusal_ignored(ActionRefusal::DropNotAllowed));
    assert!(!move_drop_refusal_ignored(ActionRefusal::StartNotControlled));
}

#[test]
fn board_click_only_for_the_controller_of_the_latest_position() {
    let mut s = Client::new();
    let turn = TurnState::Start { stack_count: 0 };
    s.on_game_state(2);
    assert_eq!(s.board_click(Color::White, turn, size(5), loc(0, 0)), None);
    s.on_control(MatchControl::Single(Color::White));
    assert_eq!(
        s.board_click(Color::White, turn, size(5), loc(0, 0)),
        Some(BoardClick::Start(StartClick::PlaceFlat))
    );
    assert_eq!(s.board_click(Color::Black, turn, size(5), loc(0, 0)), None);
    assert_eq!(
        s.board_click(Color::White, TurnState::Start { stack_count: 7 }, size(5), loc(0, 0)),
        Some(BoardClick::Start(StartClick::Pickup(5)))
    );
    assert_eq!(
        s.board_click(Color::White, TurnState::Placed { loc: loc(2, 2) }, size(5), loc(2, 2)),
        Some(BoardClick::Placed(PlacedClick::CycleKind))
    );
    let moving = TurnState::Movement { start: loc(0, 0), cur: loc(0, 1), dir: Some(Direction::Up), carry: 2 };
    assert_eq!(
        s.board_click(Color::White, moving, size(5), loc(0, 1)),
        Some(BoardClick::Movement(MovementClick::DropOne))
    );
    s.history_click(1);
    assert_eq!(s.board_click(Color::White, turn, size(5), loc(0, 0)), None);
}

#[test]
fn movement_readability() {
    assert!(is_movement_readable(loc(0, 0), loc(0, 0), None, size(5)));
    assert!(is_movement_readable(loc(0, 0), loc(0, 2), Some(Direction::Up), size(5)));
    assert!(!is_movement_readable(loc(0, 2), loc(0, 0), Some(Direction::Up), size(5)));
    assert!(!is_movement_readable(loc(0, 0), loc(1, 1), Some(Direction::Up), size(5)));
    assert!(is_movement_readable(loc(3, 1), loc(1, 1), Some(Direction::Left), size(5)));
    assert!(!is_movement_readable(loc(0, 0), loc(0, 6), Some(Direction::Up), size(5)));
}

#[test]
fn board_click_ignores_any_turn_when_not_acting() {
    let mut s = Client::new();
    s.on_game_state(1);
    let unreadable = TurnState::Movement { start: loc(0, 2), cur: loc(0, 0), dir: Some(Direction::Up), carry: 1 };
    assert_eq!(s.board_click(Color::White, unreadable, size(5), loc(0, 0)), None);
}
