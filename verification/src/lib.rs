//! Langton's ant with several ants at once, several rule sets and four kinds of grid.
//!
//! The library holds the simulation: directions and grid kinds (`direction`), the ants and
//! how they move (`ant`), their rule sets (`instruction`), the simulation as mathematics
//! (`world`), the state with the copies of the world it keeps (`state`), and what holds of
//! the state across calls (`replay`).
mod ant;
mod direction;
mod instruction;
mod replay;
mod settings;
mod state;
mod world;

pub use ant::{
    back, can_move, lemma_moved_column, lemma_moved_orientation, lemma_moved_row,
    lemma_triangle_straight_back, stays_put, column_after, column_step, first_ant, hex_row_step, hex_turned, moved,
    row_after, row_fits, row_step, triangle_step, wrap, Ant, Position, DEFAULT_SIZE, MAX_CELL_COUNT,
};
pub use direction::{
    effective, effective_direction, following_grid, in_turn_cycle, is_grid_turn, lemma_effective_idempotent,
    lemma_grid_cycle, lemma_next_prev_inverse, lemma_effective_by_number, lemma_numbering, lemma_turn_cycle_off_grid, lemma_turn_cycle_order, lemma_turn_laws, next_direction, next_grid_type,
    next_turn, prev_direction, prev_turn, Direction, GridType,
};
pub use instruction::{default_rules, lemma_default_rules, Instruction, Rule};
pub use replay::{
    lemma_add_ant_by_start, lemma_add_ant_idempotent, lemma_go_forward, lemma_gone_to_consistent, lemma_remove_undoes_add,
    lemma_rotate_ant_inverse, lemma_rotate_paint_inverse, lemma_rotate_turn_inverse, lemma_initial_consistent, lemma_recalculated_consistent,
    lemma_recorded, lemma_recorded_add, lemma_remove_finds_standing, lemma_rotate_ant_by_point,
    lemma_rotate_paint_step, stands_on, lemma_reset_consistent, lemma_stepped_add,
    lemma_stepped_consistent, lemma_stepped_wf,
};
pub use settings::{can_change_speed, change_speed, changed, lemma_speed_changes, Settings, SpeedChange};
pub use state::{
    first_at, initial_view, is_latest, latest_snapshot, lemma_next_multiple, new_rules, next_multiple, recorded, started_at,
    State, StateView,
    SNAPSHOT_INTERVAL,
};
pub use world::{
    ant_at_start, ants_at_start, blank_cells, lemma_ant_turn, lemma_ant_turn_setup,
    lemma_ant_turn_effect, lemma_moved_within, lemma_run_add, lemma_run_setup, lemma_run_wf, lemma_runs_ok_add,
    lemma_runs_ok_prefix, lemma_same_setup_start, lemma_start_idempotent, lemma_stays_inside,
    lemma_turn_order, lemma_turns, lemma_turns_ok_prefix, lemma_wf_runs_ok, World,
};
