use rainbow_ant::{
    change_speed, Direction, GridType, Instruction, Position, Settings, SpeedChange, State,
    SNAPSHOT_INTERVAL,
};

#[test]
fn add_colour_extends_every_rule_set() {
    let mut state = State::default();
    state.instructions.push(Instruction::default());
    state.add_colour(9);
    for instruction in &state.instructions {
        assert_eq!(instruction.map.len(), 9);
        assert_eq!(instruction.map[&8], (0, None));
        assert_eq!(instruction.map[&0], (1, Some(Direction::East)));
    }
    // A palette of 257 colours counts as 1 in bytes: the new rule is for colour 0.
    state.add_colour(257);
    assert_eq!(state.instructions[0].map[&0], (0, None));
}

#[test]
fn add_instruction_builds_two_colour_rules() {
    let mut state = State::default();
    state.add_instruction(4);
    assert_eq!(state.instructions.len(), 2);
    let map = &state.instructions[1].map;
    assert_eq!(map.len(), 4);
    assert_eq!(map[&0], (1, Some(Direction::East)));
    assert_eq!(map[&1], (0, Some(Direction::West)));
    assert_eq!(map[&2], (0, None));
    assert_eq!(map[&3], (0, None));

    state.add_instruction(0);
    let map = &state.instructions[2].map;
    assert_eq!(map.len(), 2);
    assert_eq!(map[&0], (1, Some(Direction::East)));
}

#[test]
fn set_up_ant_changes_start_and_rule_set() {
    let mut state = State::default();
    state.instructions.push(Instruction::default());
    let start = Position { x: 3, y: 4, orientation: Direction::South };
    assert!(state.set_up_ant(0, start, 1));
    assert_eq!(state.ants[0].start_position, start);
    assert_eq!(state.ants[0].instruction, 1);
    assert_eq!(state.ants(), vec![(32, 32)]);
    assert!(!state.set_up_ant(1, start, 0));
}

#[test]
fn rotate_ant_turns_start_orientation() {
    let mut state = State::default();
    assert!(state.rotate_ant(0, false));
    assert_eq!(state.ants[0].start_position.orientation, Direction::NorthEast);
    assert!(state.rotate_ant(0, true));
    assert!(state.rotate_ant(0, true));
    assert_eq!(state.ants[0].start_position.orientation, Direction::NorthWest);
    assert!(!state.rotate_ant(3, false));
}

#[test]
fn rotate_instruction_direction_cycles_turns() {
    let mut state = State::default();
    state.grid_type = GridType::Square;
    // Colour 0 turns east; on a square grid the next turn is south, the one before north.
    assert!(state.rotate_instruction_direction(0, 0, false));
    assert_eq!(state.instructions[0].map[&0], (1, Some(Direction::South)));
    assert!(state.rotate_instruction_direction(0, 0, true));
    assert!(state.rotate_instruction_direction(0, 0, true));
    assert_eq!(state.instructions[0].map[&0], (1, Some(Direction::North)));
    assert!(state.rotate_instruction_direction(0, 0, true));
    assert_eq!(state.instructions[0].map[&0], (1, None));
    // No rule for colour 20: nothing changes, but the rule set exists.
    assert!(state.rotate_instruction_direction(0, 20, false));
    assert!(!state.rotate_instruction_direction(1, 0, false));
}

#[test]
fn rotate_instruction_palette_cycles_colours() {
    let mut state = State::default();
    assert!(state.rotate_instruction_palette(0, 0, 8, false));
    assert_eq!(state.instructions[0].map[&0], (2, Some(Direction::East)));
    assert!(state.rotate_instruction_palette(0, 7, 8, false));
    assert_eq!(state.instructions[0].map[&7], (1, Some(Direction::West)));
    assert!(state.rotate_instruction_palette(0, 6, 8, true));
    assert_eq!(state.instructions[0].map[&6], (6, Some(Direction::East)));
    // Colour 7 paints 1 now; two steps back wrap round to the last colour.
    assert!(state.rotate_instruction_palette(0, 7, 8, true));
    assert!(state.rotate_instruction_palette(0, 7, 8, true));
    assert_eq!(state.instructions[0].map[&7], (7, Some(Direction::West)));
    assert!(!state.rotate_instruction_palette(2, 0, 8, false));
}

#[test]
fn skip_forward_goes_to_next_multiple() {
    let mut state = State::after(3);
    state.skip_forward();
    assert_eq!(state.generation(), SNAPSHOT_INTERVAL);
    let direct = State::after(SNAPSHOT_INTERVAL);
    assert_eq!(state.ants(), direct.ants());
}

#[test]
fn settings_default_and_pause() {
    let mut settings = Settings::default();
    assert!(settings.paused);
    assert_eq!(settings.steps_per_tick, 10);
    assert_eq!(settings.ms_per_tick, 10);
    assert!(!settings.is_running());
    assert!(!settings.toggle_pause());
    assert!(settings.is_running());
    settings.steps_per_tick = 0;
    assert!(!settings.is_running());
}

#[test]
fn speed_changes() {
    assert_eq!(change_speed(0, SpeedChange::Double), 1);
    assert_eq!(change_speed(6, SpeedChange::Double), 12);
    assert_eq!(change_speed(7, SpeedChange::Halve), 3);
    assert_eq!(change_speed(25, SpeedChange::Decrease), 15);
    assert_eq!(change_speed(10, SpeedChange::Decrease), 1);
    assert_eq!(change_speed(0, SpeedChange::Decrease), 1);
    assert_eq!(change_speed(5, SpeedChange::Increase), 15);

    let mut settings = Settings::default();
    settings.change(SpeedChange::Double, true);
    assert_eq!(settings.ms_per_tick, 20);
    assert_eq!(settings.steps_per_tick, 10);
    settings.change(SpeedChange::Increase, false);
    assert_eq!(settings.steps_per_tick, 20);
    assert_eq!(settings.ms_per_tick, 20);
}
