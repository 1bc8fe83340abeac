use rainbow_ant::{Direction, GridType, Instruction, State, DEFAULT_SIZE, MAX_CELL_COUNT, SNAPSHOT_INTERVAL};

fn field_snapshot(state: &State) -> Vec<usize> {
    let (w, h) = state.field_size();
    let mut out = Vec::new();
    for x in 0..w {
        for y in 0..h {
            out.push(state.field_at(x, y));
        }
    }
    out
}

fn positions(state: &State) -> Vec<(usize, usize, Direction)> {
    state
        .ants
        .iter()
        .map(|a| (a.position.x, a.position.y, a.position.orientation))
        .collect()
}

#[test]
fn new_state() {
    let state = State::default();
    assert_eq!(state.generation(), 0);
    assert_eq!(state.field_size(), DEFAULT_SIZE);
    assert_eq!(state.ants(), vec![(32, 32)]);
    assert_eq!(state.grid_type, GridType::SquareDiagonal);
    assert_eq!(state.instructions.len(), 1);
    assert!(field_snapshot(&state).iter().all(|c| *c == 0));
}

#[test]
fn default_rules_cycle_through_eight_colours() {
    let rules = Instruction::default();
    assert_eq!(rules.map.len(), 8);
    assert_eq!(rules.map[&0], (1, Some(Direction::East)));
    assert_eq!(rules.map[&2], (3, Some(Direction::North)));
    assert_eq!(rules.map[&5], (6, Some(Direction::South)));
    assert_eq!(rules.map[&7], (0, Some(Direction::West)));
    assert_eq!(rules.rule(3), Some((4, Some(Direction::East))));
    assert_eq!(rules.rule(8), None);
    assert_eq!(rules.duplicate().map, rules.map);
}

#[test]
fn first_steps_on_square_grid_with_diagonals() {
    let mut state = State::default();
    state.step(1);
    assert_eq!(state.generation(), 1);
    assert_eq!(state.field_at(32, 32), 1);
    assert_eq!(positions(&state), vec![(33, 32, Direction::East)]);
    state.step(1);
    assert_eq!(state.field_at(33, 32), 1);
    assert_eq!(positions(&state), vec![(33, 33, Direction::South)]);
    state.step(1);
    assert_eq!(positions(&state), vec![(32, 33, Direction::West)]);
    state.step(1);
    assert_eq!(positions(&state), vec![(32, 32, Direction::North)]);
    // The ant is back on its first cell, now of colour 1: it paints 2 and turns west.
    state.step(1);
    assert_eq!(state.field_at(32, 32), 2);
    assert_eq!(positions(&state), vec![(31, 32, Direction::West)]);
}

#[test]
fn first_step_on_each_grid() {
    let expected = [
        (GridType::Square, (33, 32, Direction::East)),
        (GridType::SquareDiagonal, (33, 32, Direction::East)),
        (GridType::Hexagonal, (33, 31, Direction::NorthEast)),
        (GridType::Triangular, (33, 32, Direction::NorthEast)),
    ];
    for (grid, position) in expected {
        let mut state = State::default();
        state.grid_type = grid;
        state.step(1);
        assert_eq!(positions(&state), vec![position], "{:?}", grid);
        assert_eq!(state.field_at(32, 32), 1);
    }
}

#[test]
fn hexagonal_odd_column_moves_down_on_south_east() {
    let mut state = State::default();
    state.grid_type = GridType::Hexagonal;
    state.step(2);
    // From (33, 31) facing north-east, colour 0 turns east (north-east on this grid):
    // the ant faces south-east and, in an odd column, steps down and right.
    assert_eq!(positions(&state), vec![(34, 32, Direction::SouthEast)]);
}

#[test]
fn steps_compose() {
    let mut a = State::after(7);
    a.step(13);
    let b = State::after(20);
    assert_eq!(a.generation(), 20);
    assert_eq!(positions(&a), positions(&b));
    assert_eq!(field_snapshot(&a), field_snapshot(&b));
}

#[test]
fn field_at_wraps_around() {
    let state = State::after(1);
    assert_eq!(state.field_at(32 + 64, 32), 1);
    assert_eq!(state.field_at(32, 32 + 128), 1);
    assert_eq!(state.field_at(33, 32), 0);
}

#[test]
fn ants_wrap_around_the_edge() {
    let mut state = State::default();
    state.ants.clear();
    state.add_ant(63, 0, 0);
    state.step(1);
    // Colour 0 turns east: from (63, 0) the ant wraps to column 0.
    assert_eq!(state.ants(), vec![(0, 0)]);
    state.step(1);
    // Facing east, colour 0 turns east again: it faces south and steps down.
    assert_eq!(state.ants(), vec![(0, 1)]);
}

#[test]
fn go_to_step_forwards_and_backwards() {
    let mut state = State::after(50);
    state.go_to_step(80);
    let forward = State::after(80);
    assert_eq!(state.generation(), 80);
    assert_eq!(positions(&state), positions(&forward));
    assert_eq!(field_snapshot(&state), field_snapshot(&forward));

    state.go_to_step(10);
    let backward = State::after(10);
    assert_eq!(state.generation(), 10);
    assert_eq!(positions(&state), positions(&backward));
    assert_eq!(field_snapshot(&state), field_snapshot(&backward));
}

#[test]
fn go_to_step_uses_later_snapshot() {
    let mut state = State::after(SNAPSHOT_INTERVAL + 20);
    state.go_to_step(SNAPSHOT_INTERVAL + 5);
    let direct = State::after(SNAPSHOT_INTERVAL + 5);
    assert_eq!(state.generation(), SNAPSHOT_INTERVAL + 5);
    assert_eq!(positions(&state), positions(&direct));
    assert_eq!(field_snapshot(&state), field_snapshot(&direct));
}

#[test]
fn reset_returns_generation_and_clears() {
    let mut state = State::after(25);
    let steps = state.reset();
    assert_eq!(steps, 25);
    assert_eq!(state.generation(), 0);
    assert_eq!(state.ants(), vec![(32, 32)]);
    assert_eq!(state.ants[0].position.orientation, Direction::North);
    assert!(field_snapshot(&state).iter().all(|c| *c == 0));
}

#[test]
fn recalculate_reruns_with_new_setup() {
    let mut state = State::after(30);
    state.add_ant(10, 10, 0);
    state.recalculate();
    assert_eq!(state.generation(), 30);

    let mut fresh = State::default();
    fresh.add_ant(10, 10, 0);
    fresh.step(30);
    assert_eq!(positions(&state), positions(&fresh));
    assert_eq!(field_snapshot(&state), field_snapshot(&fresh));
}

#[test]
fn add_ant_wraps_and_ignores_taken_start() {
    let mut state = State::default();
    state.add_ant(64 + 5, 7, 3);
    assert_eq!(state.ants(), vec![(32, 32), (5, 7)]);
    assert_eq!(state.ants[1].instruction, 0);
    assert_eq!(state.ants[1].start_position.orientation, Direction::North);
    state.add_ant(5, 64 + 7, 0);
    assert_eq!(state.ants.len(), 2);
    state.add_ant(32, 32, 0);
    assert_eq!(state.ants.len(), 2);
}

#[test]
fn add_ant_picks_rule_set_modulo_count() {
    let mut state = State::default();
    state.instructions.push(Instruction::default());
    state.add_ant(1, 1, 5);
    assert_eq!(state.ants[1].instruction, 1);
}

#[test]
fn add_ant_checks_start_not_current_position() {
    let mut state = State::after(1);
    // The first ant now stands on (33, 32), but started on (32, 32).
    state.add_ant(33, 32, 0);
    assert_eq!(state.ants.len(), 2);
    state.add_ant(32, 32, 0);
    assert_eq!(state.ants.len(), 2);
}

#[test]
fn remove_ant_removes_first_ant_on_cell() {
    let mut state = State::default();
    state.add_ant(3, 3, 0);
    state.add_ant(4, 4, 0);
    assert!(!state.remove_ant(5, 5));
    assert_eq!(state.ants.len(), 3);
    assert!(state.remove_ant(3, 3));
    assert_eq!(state.ants(), vec![(32, 32), (4, 4)]);
    assert!(!state.remove_ant(3, 3));
}

#[test]
fn set_width_and_height() {
    let mut state = State::default();
    state.add_ant(10, 20, 0);
    state.set_width(128, &vec![64, 20]);
    state.set_height(32, &vec![16, 10]);
    assert_eq!(state.field_size(), (128, 32));
    assert_eq!(state.ants[0].start_position.x, 64);
    assert_eq!(state.ants[0].start_position.y, 16);
    assert_eq!(state.ants[1].start_position.x, 20);
    assert_eq!(state.ants[1].start_position.y, 10);
    // The current positions stay until the next reset.
    assert_eq!(state.ants(), vec![(32, 32), (10, 20)]);
    state.reset();
    assert_eq!(state.ants(), vec![(64, 16), (20, 10)]);
}

#[test]
fn largest_field() {
    let mut state = State::default();
    state.set_width(MAX_CELL_COUNT, &vec![MAX_CELL_COUNT - 1]);
    state.set_height(MAX_CELL_COUNT, &vec![0]);
    state.recalculate();
    state.step(3);
    // Start (1023, 0) facing north: colour 0 turns east, to (0, 0); then south, to (0, 1);
    // then west, to (1023, 1).
    assert_eq!(state.ants(), vec![(MAX_CELL_COUNT - 1, 1)]);
}

#[test]
fn storage_and_copies() {
    let mut state = State::after(50);
    state.storage_is_full();
    let copy = state.clone();
    assert_eq!(field_snapshot(&copy), field_snapshot(&state));
    assert_eq!(copy.ants(), state.ants());
    state.set_width(1024, &vec![32]);
    assert_eq!(state.field_at(1023, 0), 0);
    assert_eq!(state.field_at(2047, 0), 0);
    assert_eq!(state.field_at(32 + 1024, 32), state.field_at(32, 32));
}
