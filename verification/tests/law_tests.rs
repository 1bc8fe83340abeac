use rainbow_ant::{Direction, GridType, State, SNAPSHOT_INTERVAL};

fn picture(state: &State) -> (usize, Vec<(usize, usize)>, Vec<usize>) {
    let (w, h) = state.field_size();
    let mut cells = Vec::new();
    for x in 0..w {
        for y in 0..h {
            cells.push(state.field_at(x, y));
        }
    }
    (state.generation(), state.ants(), cells)
}

#[test]
fn add_ant_twice_adds_once() {
    let mut once = State::default();
    once.add_ant(7, 9, 0);
    let mut twice = State::default();
    twice.add_ant(7, 9, 0);
    twice.add_ant(7, 9, 0);
    assert_eq!(once.ants, twice.ants);
}

#[test]
fn remove_undoes_add() {
    let mut state = State::after(4);
    let before = state.ants.clone();
    state.add_ant(70, 3, 0);
    assert!(state.remove_ant(6, 3));
    assert_eq!(state.ants, before);
}

#[test]
fn rotate_ant_back_and_forth() {
    let mut state = State::default();
    let before = state.ants.clone();
    state.rotate_ant(0, false);
    state.rotate_ant(0, true);
    assert_eq!(state.ants, before);
    state.rotate_ant(0, true);
    state.rotate_ant(0, false);
    assert_eq!(state.ants, before);
}

#[test]
fn rotate_turn_back_and_forth() {
    for grid in [GridType::Square, GridType::SquareDiagonal, GridType::Hexagonal, GridType::Triangular] {
        let mut state = State::default();
        state.grid_type = grid;
        // Colour 1 turns west, which every grid but the hexagonal one knows; there colour 5
        // turns south.
        let colour = if grid == GridType::Hexagonal { 5 } else { 1 };
        let before = state.instructions[0].map.clone();
        state.rotate_instruction_direction(0, colour, false);
        state.rotate_instruction_direction(0, colour, true);
        assert_eq!(state.instructions[0].map, before, "{:?}", grid);
    }
}

#[test]
fn rotate_paint_back_and_forth() {
    let mut state = State::default();
    let before = state.instructions[0].map.clone();
    for colour in 0..8u8 {
        state.rotate_instruction_palette(0, colour, 8, false);
        state.rotate_instruction_palette(0, colour, 8, true);
        state.rotate_instruction_palette(0, colour, 8, true);
        state.rotate_instruction_palette(0, colour, 8, false);
    }
    assert_eq!(state.instructions[0].map, before);
}

#[test]
fn go_to_step_lands_where_running_from_start_lands() {
    let mut state = State::after(SNAPSHOT_INTERVAL + 300);
    for target in [5, SNAPSHOT_INTERVAL + 299, 40, SNAPSHOT_INTERVAL, 0, SNAPSHOT_INTERVAL + 1000] {
        state.go_to_step(target);
        assert_eq!(picture(&state), picture(&State::after(target)), "{target}");
    }
}

#[test]
fn recalculate_after_edit_lands_where_running_from_start_lands() {
    let mut state = State::after(200);
    state.grid_type = GridType::Hexagonal;
    state.rotate_ant(0, false);
    state.recalculate();
    let mut fresh = State::default();
    fresh.grid_type = GridType::Hexagonal;
    fresh.rotate_ant(0, false);
    // Turning the start does not turn the ant standing there now: put it back first.
    fresh.reset();
    fresh.step(200);
    assert_eq!(picture(&state), picture(&fresh));
    // Going back after the edit uses the copies kept by the new run.
    state.go_to_step(50);
    let mut back = State::default();
    back.grid_type = GridType::Hexagonal;
    back.rotate_ant(0, false);
    back.reset();
    back.step(50);
    assert_eq!(picture(&state), picture(&back));
    assert_eq!(state.ants[0].start_position.orientation, Direction::NorthEast);
}

#[test]
fn ants_stay_inside_the_field_in_use() {
    let mut state = State::default();
    state.add_ant(10, 60, 0);
    state.add_ant(63, 0, 0);
    for grid in [GridType::Square, GridType::SquareDiagonal, GridType::Hexagonal, GridType::Triangular] {
        state.grid_type = grid;
        state.step(3000);
        let (w, h) = state.field_size();
        for (x, y) in state.ants() {
            assert!(x < w && y < h);
        }
        for x in 0..w {
            for y in 0..h {
                assert!(state.field_at(x, y) < 8);
            }
        }
    }
}

#[test]
fn stepping_in_parts_and_by_nothing() {
    let mut a = State::after(SNAPSHOT_INTERVAL - 3);
    a.step(0);
    assert_eq!(a.generation(), SNAPSHOT_INTERVAL - 3);
    a.step(5);
    let b = State::after(SNAPSHOT_INTERVAL + 2);
    assert_eq!(picture(&a), picture(&b));
    assert!(a.can_go_to(SNAPSHOT_INTERVAL + 1));
}
