use tak_garden::controllers::{MatchControllers, NO_CONNECTION_ID};
use tak_garden::protocol::{Color, MatchControl};

#[test]
fn first_controller_controls_both_colors() {
    let mut c = MatchControllers::new();
    assert!(c.add(7));
    assert_eq!(c.control_for(7), MatchControl::Both);
    assert_eq!(c.ids(), vec![7]);
    assert!(c.control_for(7).controls(Color::White));
    assert!(c.control_for(7).controls(Color::Black));
}

#[test]
fn second_controller_plays_black() {
    let mut c = MatchControllers::default();
    assert!(c.add(1));
    assert!(c.add(2));
    assert_eq!(c.control_for(1), MatchControl::Single(Color::White));
    assert_eq!(c.control_for(2), MatchControl::Single(Color::Black));
    assert_eq!(c.control_for(3), MatchControl::Neither);
    assert_eq!(c.ids(), vec![1, 2]);
}

#[test]
fn third_connection_gets_no_slot() {
    let mut c = MatchControllers::new();
    c.add(1);
    c.add(2);
    assert!(!c.add(3));
    assert_eq!(c.ids(), vec![1, 2]);
    assert_eq!(c.control_for(3), MatchControl::Neither);
}

#[test]
fn removing_white_moves_black_to_first_slot() {
    let mut c = MatchControllers::new();
    c.add(1);
    c.add(2);
    assert!(c.remove(1));
    assert_eq!(c.ids(), vec![2]);
    assert_eq!(c.control_for(2), MatchControl::Both);
    assert!(!c.remove(5));
    assert!(c.remove(2));
    assert_eq!(c.ids(), Vec::<u64>::new());
}

#[test]
fn add_then_remove_restores_controllers() {
    let mut c = MatchControllers::new();
    c.add(4);
    let before = c.ids();
    c.add(9);
    c.remove(9);
    assert_eq!(c.ids(), before);
    assert_eq!(c.control_for(4), MatchControl::Both);
}

#[test]
fn swap_exchanges_colors_and_twice_restores() {
    let mut c = MatchControllers::new();
    c.add(1);
    c.add(2);
    assert!(c.swap());
    assert_eq!(c.control_for(1), MatchControl::Single(Color::Black));
    assert_eq!(c.control_for(2), MatchControl::Single(Color::White));
    assert_eq!(c.ids(), vec![2, 1]);
    assert!(c.swap());
    assert_eq!(c.ids(), vec![1, 2]);
}

#[test]
fn swap_with_one_controller_does_nothing() {
    let mut c = MatchControllers::new();
    assert!(!c.swap());
    c.add(3);
    assert!(!c.swap());
    assert_eq!(c.control_for(3), MatchControl::Both);
}

#[test]
fn empty_slot_id_quirks() {
    // With one controller, the empty-slot id is reported as the Black slot,
    // and removing it reports a change without changing anything.
    let mut c = MatchControllers::new();
    c.add(5);
    assert_eq!(c.control_for(NO_CONNECTION_ID), MatchControl::Single(Color::Black));
    assert!(c.remove(NO_CONNECTION_ID));
    assert_eq!(c.ids(), vec![5]);
    // The empty-slot id "takes" the free slot, which stays empty.
    assert!(c.add(NO_CONNECTION_ID));
    assert_eq!(c.ids(), vec![5]);
    assert!(c.add(6));
    assert!(!c.add(NO_CONNECTION_ID));
    assert_eq!(c.ids(), vec![5, 6]);
}

#[test]
fn a_controller_never_takes_both_slots() {
    let mut c = MatchControllers::new();
    assert!(c.add(7));
    assert!(!c.add(7));
    assert_eq!(c.ids(), vec![7]);
    assert_eq!(c.control_for(7), MatchControl::Both);
    assert!(c.add(8));
    assert!(!c.add(8));
    assert!(!c.add(7));
    assert_eq!(c.ids(), vec![7, 8]);
}

#[test]
fn controls_matches_each_control() {
    assert!(MatchControl::Both.controls(Color::White));
    assert!(MatchControl::Single(Color::Black).controls(Color::Black));
    assert!(!MatchControl::Single(Color::Black).controls(Color::White));
    assert!(!MatchControl::Neither.controls(Color::White));
    assert!(!MatchControl::Neither.controls(Color::Black));
}

#[test]
fn exclusive_control_of_each_color() {
    let mut c = MatchControllers::new();
    c.add(10);
    c.add(11);
    for color in [Color::White, Color::Black] {
        let holders: Vec<u64> = [10u64, 11, 12]
            .iter()
            .copied()
            .filter(|id| c.control_for(*id).controls(color))
            .collect();
        assert_eq!(holders.len(), 1);
    }
}
