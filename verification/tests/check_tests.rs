use rainbow_ant::{Direction, Instruction, Position, State};

#[test]
fn new_state_can_run() {
    let state = State::default();
    assert!(state.is_runnable());
    assert!(state.can_step(1000));
    assert!(state.can_recalculate());
    assert!(state.can_go_to(5));
    assert!(state.can_skip_forward());
    assert!(state.can_read(5, 5));
}

#[test]
fn missing_rule_for_painted_colour_stops_running_when_met() {
    let mut state = State::default();
    state.instructions[0].map.remove(&1);
    // Colour 0 paints 1 and turns right: the ant walks a 2 × 2 square and is back on its
    // first cell, now of colour 1, at the fifth generation.
    assert!(!state.is_runnable());
    assert!(state.can_step(4));
    assert!(!state.can_step(5));
    assert!(state.can_recalculate());
    state.step(4);
    assert_eq!(state.ants(), vec![(32, 32)]);
    assert!(state.can_recalculate());
    assert!(state.can_step(0));
    assert!(!state.can_step(1));
    assert!(!state.can_go_to(5));
    assert!(state.can_go_to(2));
    assert!(!state.can_skip_forward());
}

#[test]
fn colour_never_reached_does_not_stop_running() {
    let mut state = State::after(1);
    // Cell (32, 32) has colour 1; the ant stands on (33, 32), of colour 0. A rule set that
    // knows only colour 0 keeps it there for ever.
    let mut rules = Instruction::default();
    rules.map.clear();
    rules.map.insert(0, (0, None));
    state.instructions[0] = rules.duplicate();
    assert!(!state.is_runnable());
    assert!(state.can_step(100));
    state.step(100);
    assert_eq!(state.ants(), vec![(33, 32)]);
    assert_eq!(state.field_at(32, 32), 1);
    assert!(state.can_recalculate());
}

#[test]
fn ants_with_different_rule_sets_run_while_apart() {
    let mut state = State::default();
    let mut still = Instruction::default();
    still.map.clear();
    still.map.insert(0, (0, None));
    state.instructions.push(still);
    state.add_ant(0, 0, 1);
    // The second rule set knows only colour 0, which the first ant paints over; the first
    // ant cannot reach (0, 0) in 20 generations.
    assert!(!state.is_runnable());
    assert!(state.can_step(20));
    state.step(20);
    assert_eq!(state.generation(), 20);
    assert_eq!(state.ants()[1], (0, 0));
    assert!(state.can_recalculate());
}

#[test]
fn ant_with_unknown_rule_set_stops_running() {
    let mut state = State::after(3);
    state.ants[0].instruction = 1;
    assert!(!state.can_step(1));
    assert!(state.can_step(0));
    assert!(!state.can_recalculate());
    state.instructions.push(Instruction::default());
    assert!(state.can_step(1));
    assert!(state.can_recalculate());
}

#[test]
fn ant_starting_outside_storage_stops_recalculating() {
    let mut state = State::after(2);
    assert!(state.set_up_ant(0, Position { x: 2000, y: 1, orientation: Direction::North }, 0));
    assert!(state.can_step(5));
    assert!(!state.can_recalculate());
}

#[test]
fn empty_field_size_stops_running() {
    let mut state = State::after(2);
    state.set_width(0, &vec![0]);
    assert!(!state.is_runnable());
    assert!(!state.can_step(1));
    assert!(!state.can_recalculate());
    assert!(!state.can_read(0, 0));
}

#[test]
fn reading_outside_storage() {
    let mut state = State::default();
    state.set_width(2000, &vec![32]);
    assert!(state.can_read(100, 0));
    assert!(!state.can_read(1500, 0));
    assert!(state.can_read(2100, 0));
}

#[test]
fn snapshots_can_be_gone_back_to() {
    let state = State::after(30);
    assert!(state.can_go_to(3));
    assert!(state.can_go_to(300));
}

#[test]
fn zero_width_does_not_stop_moves_along_a_column() {
    let mut state = State::default();
    state.instructions[0].map.insert(0, (1, Some(Direction::North)));
    state.set_width(0, &vec![32]);
    // For 64 generations every cell the ant meets has colour 0: it keeps going north,
    // wrapping from row 0 to the last row, and never needs a column to wrap around. Then it
    // is back on its first cell, of colour 1, whose rule turns it west.
    assert!(state.can_step(64));
    assert!(!state.can_step(65));
    state.step(5);
    assert_eq!(state.ants(), vec![(32, 27)]);
    state.step(33);
    assert_eq!(state.ants(), vec![(32, 58)]);
    assert!(!state.can_read(0, 0));
}
