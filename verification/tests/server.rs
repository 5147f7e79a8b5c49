use tak_garden::controllers::NO_CONNECTION_ID;
use tak_garden::hasher::{single_id, MatchIDHasher, MAX_DECODED_HASH_BYTES, ROUND_TRIP_ID_LIMIT};
use tak_garden::matches::{
    new_match_board_size, session_step, ConnectionCounter, Match, Matches, SessionStep,
};
use tak_garden::protocol::{BoardSize, ClientMessage, Color, MatchControl, ServerMessage};

/// Connection ids in increasing order: a match keeps them as a set.
fn sorted(mut ids: Vec<u64>) -> Vec<u64> {
    ids.sort();
    ids
}

#[test]
fn harsh_encodes_like_its_documentation() {
    let h = MatchIDHasher::new("this is my salt", 0);
    assert_eq!(h.encode(1226198605112), "4o6Z7KqxE");
}

#[test]
fn hasher_round_trip() {
    let h = MatchIDHasher::default();
    for id in [1u64, 2, 3, 42, 1000, 123456789] {
        let hash = h.encode(id);
        assert!(hash.len() >= 6);
        assert_ne!(hash, id.to_string());
        assert_eq!(h.decode(&hash), Some(id));
    }
}

#[test]
fn hasher_rejects_garbage_and_long_hashes() {
    let h = MatchIDHasher::default();
    assert_eq!(h.decode(""), None);
    assert_eq!(h.decode("a"), None);
    assert_eq!(h.decode("this-is-much-too-long-to-be-a-hash"), None);
    let other = MatchIDHasher::new("another salt", 6);
    let hash = other.encode(5);
    assert_ne!(h.decode(&hash), Some(5));
}

#[test]
fn new_matches_get_sequential_ids() {
    let mut m: Matches<u32> = Matches::new();
    assert_eq!(m.next_id(), 1);
    let a = m.new_match(10);
    let b = m.new_match(20);
    assert_eq!((a, b), (1, 2));
    assert_eq!(m.next_id(), 3);
    assert!(m.contains(1) && m.contains(2) && !m.contains(0) && !m.contains(3));
    assert_eq!(*m.get_match(2).history(), 20);
}

#[test]
fn match_found_again_by_its_hash() {
    let mut m: Matches<()> = Matches::new();
    let id = m.new_match(());
    let hash = m.get_match(id).id_hash().to_string();
    assert_eq!(hash, MatchIDHasher::default().encode(id));
    assert_eq!(m.get(&hash), Some(id));
    let unknown = MatchIDHasher::default().encode(99);
    assert_eq!(m.get(&unknown), None);
    assert_eq!(m.get("nonsense!"), None);
}

#[test]
fn join_without_hash_creates_match_controlled_by_joiner() {
    let mut m: Matches<u8> = Matches::new();
    let (id, notices) = m.join(1, None, 0).unwrap();
    assert_eq!(id, 1);
    assert_eq!(notices, vec![(1, MatchControl::Both)]);
    assert_eq!(sorted(m.get_match(id).connection_ids()), vec![1]);
}

#[test]
fn second_joiner_plays_black() {
    let mut m: Matches<u8> = Matches::new();
    let (id, _) = m.join(1, None, 0).unwrap();
    let hash = m.get_match(id).id_hash().to_string();
    let (id2, notices) = m.join(2, Some(&hash), 0).unwrap();
    assert_eq!(id2, id);
    assert_eq!(
        notices,
        vec![(1, MatchControl::Single(Color::White)), (2, MatchControl::Single(Color::Black))]
    );
    let (_, third) = m.join(3, Some(&hash), 0).unwrap();
    assert!(third.is_empty());
    assert_eq!(sorted(m.get_match(id).connection_ids()), vec![1, 2, 3]);
}

#[test]
fn join_with_unknown_hash_changes_nothing() {
    let mut m: Matches<u8> = Matches::new();
    assert!(m.join(1, Some("zzzzzz"), 0).is_none());
    assert_eq!(m.next_id(), 1);
}

#[test]
fn leaving_controller_hands_both_colors_to_other() {
    let mut m: Matches<u8> = Matches::new();
    let (id, _) = m.join(1, None, 0).unwrap();
    let hash = m.get_match(id).id_hash().to_string();
    m.join(2, Some(&hash), 0).unwrap();
    m.join(3, Some(&hash), 0).unwrap();
    let notices = m.leave(id, 1);
    assert_eq!(notices, vec![(2, MatchControl::Both)]);
    assert_eq!(sorted(m.get_match(id).connection_ids()), vec![2, 3]);
    // A spectator leaving changes no control.
    assert!(m.leave(id, 3).is_empty());
    assert_eq!(sorted(m.get_match(id).connection_ids()), vec![2]);
}

#[test]
fn join_then_leave_restores_match() {
    let mut game: Match<u8> = Match::new("abcdef".to_string(), 0);
    game.add_connection(1);
    let before_ids = game.connection_ids();
    let before_ctrl = game.controllers().ids();
    game.add_connection(2);
    game.remove_connection(2);
    assert_eq!(game.connection_ids(), before_ids);
    assert_eq!(game.controllers().ids(), before_ctrl);
}

#[test]
fn swap_players_notifies_both() {
    let mut game: Match<u8> = Match::new("h".to_string(), 0);
    game.add_connection(1);
    assert!(game.swap_controllers().is_empty());
    game.add_connection(2);
    let notices = game.swap_controllers();
    assert_eq!(
        notices,
        vec![(2, MatchControl::Single(Color::White)), (1, MatchControl::Single(Color::Black))]
    );
}

#[test]
fn only_the_active_color_may_move() {
    let mut game: Match<u8> = Match::new("h".to_string(), 0);
    game.add_connection(1);
    game.add_connection(2);
    game.add_connection(3);
    assert!(game.may_move(1, Color::White));
    assert!(!game.may_move(1, Color::Black));
    assert!(game.may_move(2, Color::Black));
    assert!(!game.may_move(3, Color::White));
    assert!(!game.may_move(3, Color::Black));
}

#[test]
fn history_can_be_replaced_and_read() {
    let mut game: Match<Vec<u8>> = Match::new("h".to_string(), vec![1]);
    game.history_mut().push(2);
    assert_eq!(game.history(), &vec![1, 2]);
    *game.history_mut() = Vec::new();
    assert!(game.history().is_empty());
}

#[test]
fn state_message_carries_hash_moves_and_size() {
    let game: Match<()> = Match::new("xyz123".to_string(), ());
    let size = BoardSize::new(6).unwrap();
    match game.state_message(vec!["a1", "b2"], size) {
        ServerMessage::GameState(hash, moves, s) => {
            assert_eq!(hash, "xyz123");
            assert_eq!(moves, vec!["a1", "b2"]);
            assert_eq!(s.get(), 6);
        }
        _ => panic!("expected a game state"),
    }
}

#[test]
fn new_matches_use_five_by_five_boards() {
    assert_eq!(new_match_board_size().get(), 5);
}

#[test]
fn connection_ids_start_at_one_and_increase() {
    let mut c = ConnectionCounter::new();
    assert_eq!(c.peek(), 1);
    let a = c.allocate();
    let b = c.allocate();
    assert_eq!((a, b), (1, 2));
    assert_ne!(a, NO_CONNECTION_ID);
}

#[test]
fn board_sizes_three_to_eight() {
    assert!(BoardSize::new(2).is_none());
    assert_eq!(BoardSize::new(3).unwrap().get(), 3);
    assert_eq!(BoardSize::new(8).unwrap().get(), 8);
    assert!(BoardSize::new(9).is_none());
}

#[test]
fn move_outcomes() {
    match tak_garden::matches::move_outcome::<()>(false, None) {
        tak_garden::matches::MoveOutcome::Reply(ServerMessage::ActionInvalid(t)) => assert_eq!(t, "It's not your turn."),
        _ => panic!("expected a refusal"),
    }
    match tak_garden::matches::move_outcome::<()>(true, Some("Stone not available".to_string())) {
        tak_garden::matches::MoveOutcome::Reply(ServerMessage::ActionInvalid(t)) => assert_eq!(t, "Stone not available"),
        _ => panic!("expected a refusal"),
    }
    assert!(matches!(
        tak_garden::matches::move_outcome::<()>(true, None),
        tak_garden::matches::MoveOutcome::BroadcastState
    ));
}

#[test]
fn single_id_takes_exactly_one_value() {
    assert_eq!(single_id(Some(vec![42])), Some(42));
    assert_eq!(single_id(Some(vec![])), None);
    assert_eq!(single_id(Some(vec![1, 2])), None);
    assert_eq!(single_id(None), None);
}

#[test]
fn round_trip_up_to_the_limit() {
    let h = MatchIDHasher::default();
    let id = ROUND_TRIP_ID_LIMIT - 1;
    let hash = h.encode(id);
    assert!(hash.len() <= MAX_DECODED_HASH_BYTES);
    assert_eq!(h.decode(&hash), Some(id));
    // From the limit on, hashes are longer than decode accepts.
    let big = h.encode(u64::MAX);
    assert!(big.len() > MAX_DECODED_HASH_BYTES);
    assert_eq!(h.decode(&big), None);
}

#[test]
fn decode_is_not_the_identity() {
    let h = MatchIDHasher::new("this is my salt", 0);
    assert_eq!(h.decode("4o6Z7KqxE"), Some(1226198605112));
    assert_eq!(h.decode("1226198605112"), None);
}

#[test]
fn new_match_hashes_are_distinct_and_found_again() {
    let mut m: Matches<()> = Matches::new();
    let mut hashes: Vec<String> = Vec::new();
    for expected in 1u64..=20 {
        let id = m.new_match(());
        assert_eq!(id, expected);
        let hash = m.get_match(id).id_hash().to_string();
        assert!(!hashes.contains(&hash));
        hashes.push(hash);
    }
    for (i, hash) in hashes.iter().enumerate() {
        assert_eq!(m.get(hash), Some(i as u64 + 1));
    }
}

#[test]
fn matches_replace_history_changes_one_match() {
    let mut m: Matches<Vec<u8>> = Matches::new();
    let a = m.new_match(vec![1]);
    let b = m.new_match(vec![2]);
    let mut h = m.replace_history(a, Vec::new());
    assert_eq!(h, vec![1]);
    h.push(3);
    assert!(m.replace_history(a, h).is_empty());
    assert_eq!(m.replace_history(b, Vec::new()), vec![2]);
    assert_eq!(m.get_match(a).history(), &vec![1, 3]);
    assert!(m.get_match(b).history().is_empty());
    let hash = m.get_match(a).id_hash().to_string();
    assert_eq!(m.get(&hash), Some(a));
}

#[test]
fn matches_swap_controllers() {
    let mut m: Matches<u8> = Matches::new();
    let (id, _) = m.join(1, None, 0).unwrap();
    assert!(m.swap_controllers(id).is_empty());
    let hash = m.get_match(id).id_hash().to_string();
    m.join(2, Some(&hash), 0).unwrap();
    let notices = m.swap_controllers(id);
    assert_eq!(
        notices,
        vec![(2, MatchControl::Single(Color::White)), (1, MatchControl::Single(Color::Black))]
    );
    assert!(m.get_match(id).may_move(2, Color::White));
    assert!(m.get_match(id).may_move(1, Color::Black));
}

#[test]
fn rejoining_the_same_match_adds_no_connection() {
    let mut m: Matches<u8> = Matches::new();
    let (id, _) = m.join(1, None, 0).unwrap();
    let hash = m.get_match(id).id_hash().to_string();
    let (_, notices) = m.join(1, Some(&hash), 0).unwrap();
    assert!(notices.is_empty());
    assert_eq!(sorted(m.get_match(id).connection_ids()), vec![1]);
    assert_eq!(m.get_match(id).controllers().ids(), vec![1]);
}

#[test]
fn session_ignores_messages_before_a_join() {
    assert!(matches!(session_step::<u8>(None, ClientMessage::Move(3)), SessionStep::Ignore));
    assert!(matches!(session_step::<u8>(None, ClientMessage::UndoMove), SessionStep::Ignore));
    assert!(matches!(session_step::<u8>(None, ClientMessage::SwapPlayers), SessionStep::Ignore));
    let size = BoardSize::new(4).unwrap();
    assert!(matches!(session_step::<u8>(None, ClientMessage::ResetGame(size)), SessionStep::Ignore));
}

#[test]
fn session_acts_on_the_current_match() {
    assert!(matches!(session_step::<u8>(Some(4), ClientMessage::Move(9)), SessionStep::Move(4, 9)));
    assert!(matches!(session_step::<u8>(Some(4), ClientMessage::UndoMove), SessionStep::Undo(4)));
    assert!(matches!(session_step::<u8>(Some(4), ClientMessage::SwapPlayers), SessionStep::Swap(4)));
    let size = BoardSize::new(6).unwrap();
    match session_step::<u8>(Some(4), ClientMessage::ResetGame(size)) {
        SessionStep::Reset(4, s) => assert_eq!(s.get(), 6),
        _ => panic!("expected a reset of match 4"),
    }
}

#[test]
fn session_join_leaves_the_current_match_first() {
    match session_step::<u8>(Some(2), ClientMessage::JoinMatch(Some("abc".to_string()))) {
        SessionStep::Join(Some(2), Some(h)) => assert_eq!(h, "abc"),
        _ => panic!("expected a join that leaves match 2"),
    }
    assert!(matches!(session_step::<u8>(None, ClientMessage::JoinMatch(None)), SessionStep::Join(None, None)));
}

#[test]
fn rejoin_leaves_the_current_match_first() {
    let mut m: Matches<u8> = Matches::new();
    let (a, _) = m.join(1, None, 0).unwrap();
    let (b, _) = m.join(2, None, 0).unwrap();
    let hash_b = m.get_match(b).id_hash().to_string();
    let (left, joined) = m.rejoin(1, Some(a), Some(&hash_b), 0);
    assert_eq!(left, vec![]);
    let (id, notices) = joined.unwrap();
    assert_eq!(id, b);
    assert_eq!(notices, vec![(2, MatchControl::Single(Color::White)), (1, MatchControl::Single(Color::Black))]);
    assert!(m.get_match(a).connection_ids().is_empty());
    assert!(m.get_match(a).controllers().ids().is_empty());
    assert_eq!(sorted(m.get_match(b).connection_ids()), vec![1, 2]);
}

#[test]
fn rejoin_to_an_unknown_hash_still_leaves() {
    let mut m: Matches<u8> = Matches::new();
    let (a, _) = m.join(1, None, 0).unwrap();
    let hash_a = m.get_match(a).id_hash().to_string();
    m.join(2, Some(&hash_a), 0).unwrap();
    let (left, joined) = m.rejoin(1, Some(a), Some("zzzzzz"), 0);
    assert_eq!(left, vec![(2, MatchControl::Both)]);
    assert!(joined.is_none());
    assert_eq!(sorted(m.get_match(a).connection_ids()), vec![2]);
    // A first join leaves nothing.
    let (left, joined) = m.rejoin(3, None, None, 0);
    assert!(left.is_empty());
    assert_eq!(joined.unwrap().0, 2);
}

#[test]
fn rejoin_into_a_new_match_tells_the_joiner_it_controls_both() {
    let mut m: Matches<u8> = Matches::new();
    let (a, _) = m.join(1, None, 0).unwrap();
    let (left, joined) = m.rejoin(1, Some(a), None, 7);
    assert!(left.is_empty());
    let (id, notices) = joined.unwrap();
    assert_eq!(id, 2);
    assert_eq!(notices, vec![(1, MatchControl::Both)]);
    assert_eq!(*m.get_match(id).history(), 7);
    assert_eq!(m.get_match(id).id_hash(), MatchIDHasher::default().encode(2));
    assert!(m.get_match(a).connection_ids().is_empty());
}
