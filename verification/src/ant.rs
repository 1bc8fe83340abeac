use vstd::prelude::*;

use crate::direction::{effective, effective_direction, Direction, GridType};

verus! {

/// The side of the largest field, in cells; the field's storage always has this size.
pub const MAX_CELL_COUNT: usize = 1024;

/// The width and the height of a new field.
pub const DEFAULT_SIZE: (usize, usize) = (64, 64);

/// A cell of the field and the direction an ant faces there.
#[derive(Clone, Copy, Debug, PartialEq, Eq, Structural)]
pub struct Position {
    pub x: usize,
    pub y: usize,
    pub orientation: Direction,
}

/// An ant: where it started, which rule set it follows, and where it is now.
#[derive(Clone, Copy, Debug, PartialEq, Eq, Structural)]
pub struct Ant {
    pub start_position: Position,
    pub instruction: usize,
    pub position: Position,
}

/// `v` taken modulo `n`: the cell that `v` lands on along an axis of `n` cells that wraps
/// around.
pub open spec fn wrap(v: int, n: usize) -> usize {
    (v % (n as int)) as usize
}

/// One step back along an axis of `n` cells: from 0 to the far end, otherwise to the cell
/// before, without wrapping (a cell beyond the end stays beyond it).
pub open spec fn back(v: usize, n: usize) -> usize {
    if v == 0 {
        (n - 1) as usize
    } else {
        (v - 1) as usize
    }
}

/// The column step of a move towards `o` on a square grid: -1 westwards, 1 eastwards.
pub open spec fn column_step(o: Direction) -> int {
    match o {
        Direction::West | Direction::NorthWest | Direction::SouthWest => -1,
        Direction::East | Direction::NorthEast | Direction::SouthEast => 1,
        _ => 0,
    }
}

/// The row step of a move towards `o` on a square grid: -1 northwards, 1 southwards.
pub open spec fn row_step(o: Direction) -> int {
    match o {
        Direction::North | Direction::NorthEast | Direction::NorthWest => -1,
        Direction::South | Direction::SouthEast | Direction::SouthWest => 1,
        _ => 0,
    }
}

/// The row after one step north (`-1`), none (`0`) or south (`1`) from row `y` of a field
/// `height` rows high: south wraps around, north goes from row 0 to the last row.
pub open spec fn row_after(y: usize, step: int, height: usize) -> usize {
    if step < 0 {
        back(y, height)
    } else if step > 0 {
        wrap(y + 1, height)
    } else {
        y
    }
}

/// The column after a step of `step` (-1, 0 or 1) from column `x` of a field `width`
/// columns wide, wrapping around.
pub open spec fn column_after(x: usize, step: int, width: usize) -> usize {
    if step == 0 {
        x
    } else {
        wrap(x + step, width)
    }
}

/// Whether a step of `step` rows from row `y` can be made on a field `height` rows high:
/// a step south, or north from row 0, wraps around and needs a row to land on.
pub open spec fn row_fits(y: usize, step: int, height: usize) -> bool {
    (step > 0 || (step < 0 && y == 0)) ==> height > 0
}

/// The orientation on a hexagonal grid after facing `facing` and turning by `turn`: the
/// turn adds in sixths of a circle.
pub open spec fn hex_turned(facing: Direction, turn: Direction) -> Direction {
    Direction::from_hexagon_ordinal((facing.hexagon_ordinal() + turn.hexagon_ordinal()) as int)
}

/// The row step of a move towards `o` on a hexagonal grid from column `x`: north always goes
/// up and south down; north-east and north-west go up from an even column, south-east and
/// south-west down from an odd one.
pub open spec fn hex_row_step(o: Direction, x: usize) -> int {
    let even = x % 2 == 0;
    if o == Direction::North || ((o == Direction::NorthEast || o == Direction::NorthWest) && even) {
        -1
    } else if o == Direction::South || ((o == Direction::SouthEast || o == Direction::SouthWest)
        && !even) {
        1
    } else {
        0
    }
}

/// A move on a triangular grid, for the turn `turn` (south: straight on, east: right, west:
/// left) of an ant facing `facing`: the new orientation, the column step and the row step.
/// An ant facing east or west does not move.
pub open spec fn triangle_step(turn: Direction, facing: Direction) -> (Direction, int, int) {
    match (turn, facing) {
        (Direction::South, Direction::SouthWest)
        | (Direction::East, Direction::North)
        | (Direction::West, Direction::SouthEast) => (Direction::NorthEast, 1, 0),
        (Direction::South, Direction::North)
        | (Direction::East, Direction::SouthEast)
        | (Direction::West, Direction::SouthWest) => (Direction::South, 0, 1),
        (Direction::South, Direction::NorthEast)
        | (Direction::East, Direction::South)
        | (Direction::West, Direction::NorthWest) => (Direction::SouthWest, -1, 0),
        (Direction::South, Direction::SouthEast)
        | (Direction::East, Direction::SouthWest)
        | (Direction::West, Direction::North) => (Direction::NorthWest, -1, 0),
        (Direction::South, Direction::South)
        | (Direction::East, Direction::NorthWest)
        | (Direction::West, Direction::NorthEast) => (Direction::North, 0, -1),
        (Direction::South, Direction::NorthWest)
        | (Direction::East, Direction::NorthEast)
        | (Direction::West, Direction::South) => (Direction::SouthEast, 1, 0),
        _ => (facing, 0, 0),
    }
}

/// Where an ant at `pos` stands after it turns by `direction` on a grid of kind `grid_type`
/// and `width` × `height` cells, and steps on.
///
/// On a square grid the turn adds to the orientation, and the ant steps to the neighbour it
/// then faces: the column moves by the column step modulo the width. On a hexagonal grid the
/// turn adds in sixths of a circle, and a step west goes back one column without wrapping
/// beyond the field. On a triangular grid the ant crosses a side of its triangle as
/// [`triangle_step`] says.
pub open spec fn moved(
    pos: Position,
    grid_type: GridType,
    direction: Direction,
    width: usize,
    height: usize,
) -> Position {
    match grid_type {
        GridType::Square | GridType::SquareDiagonal => {
            let o = pos.orientation.turned(effective(grid_type, direction));
            Position {
                x: column_after(pos.x, column_step(o), width),
                y: row_after(pos.y, row_step(o), height),
                orientation: o,
            }
        },
        GridType::Hexagonal => {
            let o = hex_turned(pos.orientation, effective(grid_type, direction));
            let x = match o {
                Direction::NorthWest | Direction::SouthWest => back(pos.x, width),
                Direction::SouthEast | Direction::NorthEast => wrap(pos.x + 1, width),
                _ => pos.x,
            };
            Position { x, y: row_after(pos.y, hex_row_step(o, pos.x), height), orientation: o }
        },
        GridType::Triangular => {
            let (o, dx, dy) = triangle_step(effective(grid_type, direction), pos.orientation);
            Position {
                x: column_after(pos.x, dx, width),
                y: row_after(pos.y, dy, height),
                orientation: o,
            }
        },
    }
}

/// Whether the move that [`moved`] describes can be made: a step that wraps around an axis,
/// or steps back from its first cell, needs the axis not to be empty.
pub open spec fn can_move(
    pos: Position,
    grid_type: GridType,
    direction: Direction,
    width: usize,
    height: usize,
) -> bool {
    match grid_type {
        GridType::Square | GridType::SquareDiagonal => {
            let o = pos.orientation.turned(effective(grid_type, direction));
            &&& column_step(o) != 0 ==> width > 0
            &&& row_fits(pos.y, row_step(o), height)
        },
        GridType::Hexagonal => {
            let o = hex_turned(pos.orientation, effective(grid_type, direction));
            &&& (o == Direction::NorthWest || o == Direction::SouthWest) ==> row_fits(pos.x, -1, width)
            &&& (o == Direction::NorthEast || o == Direction::SouthEast) ==> width > 0
            &&& row_fits(pos.y, hex_row_step(o, pos.x), height)
        },
        GridType::Triangular => {
            let (o, dx, dy) = triangle_step(effective(grid_type, direction), pos.orientation);
            &&& dx != 0 ==> width > 0
            &&& row_fits(pos.y, dy, height)
        },
    }
}

/// A step back from 0 that wraps around lands on the last cell.
proof fn lemma_wrap_before_zero(n: usize)
    requires
        n > 0,
    ensures
        wrap(-1, n) == n - 1,
{
    vstd::arithmetic::div_mod::lemma_mod_add_multiples_vanish(-1, n as int);
    vstd::arithmetic::div_mod::lemma_small_mod((n - 1) as nat, n as nat);
}

/// A step east from column `v` of `n` columns is column `v + 1` modulo `n`.
proof fn lemma_step_east(v: usize, n: usize)
    requires
        v < n,
    ensures
        wrap(v + 1, n) == (v + 1) % (n as int),
        (v + 1) % (n as int) == if v + 1 < n { v + 1 } else { 0 },
{
    if v + 1 < n {
        vstd::arithmetic::div_mod::lemma_small_mod((v + 1) as nat, n as nat);
    } else {
        vstd::arithmetic::div_mod::lemma_mod_self_0(n as int);
    }
}

/// A step west from column `v` of `n` columns, wrapping around or stepping back from 0, is
/// column `v + n - 1` modulo `n`.
proof fn lemma_step_west(v: usize, n: usize)
    requires
        v < n,
    ensures
        wrap(v - 1, n) == (v + n - 1) % (n as int),
        back(v, n) == (v + n - 1) % (n as int),
        (v + n - 1) % (n as int) == if v == 0 { n - 1 } else { v - 1 },
{
    lemma_wrap_before_zero(n);
    if v == 0 {
        vstd::arithmetic::div_mod::lemma_small_mod((n - 1) as nat, n as nat);
    } else {
        vstd::arithmetic::div_mod::lemma_small_mod((v - 1) as nat, n as nat);
        vstd::arithmetic::div_mod::lemma_mod_add_multiples_vanish(v - 1, n as int);
    }
}

/// Whether the move leaves an ant in place: on a triangular grid, an ant facing east or west.
pub open spec fn stays_put(grid_type: GridType, facing: Direction) -> bool {
    grid_type == GridType::Triangular && (facing == Direction::East || facing == Direction::West)
}

/// The direction an ant faces after a move: on a square grid, with or without diagonals,
/// its compass number is the sum of the numbers of the facing and of the turn, modulo 8; on
/// a hexagonal grid, its number among the sides of a hexagon is the sum of those numbers,
/// modulo 6, and it is never east or west; on a triangular grid a right turn (east) moves
/// that number one side on, straight on (south) three, a left turn (west) five, and an ant
/// facing east or west does not move at all.
pub proof fn lemma_moved_orientation(p: Position, grid_type: GridType, d: Direction, width: usize, height: usize)
    ensures
        ({
            let q = moved(p, grid_type, d, width, height);
            &&& (grid_type == GridType::Square || grid_type == GridType::SquareDiagonal)
                ==> q.orientation.ordinal() == (p.orientation.ordinal() + effective(grid_type, d).ordinal()) % 8
            &&& grid_type == GridType::Hexagonal ==> q.orientation.hexagon_ordinal() == (
                p.orientation.hexagon_ordinal() + effective(grid_type, d).hexagon_ordinal()) % 6
                && q.orientation != Direction::East && q.orientation != Direction::West
            &&& grid_type == GridType::Triangular && !stays_put(grid_type, p.orientation) ==> {
                &&& q.orientation.hexagon_ordinal() == (p.orientation.hexagon_ordinal() + if effective(
                    grid_type,
                    d,
                ) == Direction::East {
                    1nat
                } else if effective(grid_type, d) == Direction::South {
                    3nat
                } else {
                    5nat
                }) % 6
                &&& q.orientation != Direction::East && q.orientation != Direction::West
            }
            &&& stays_put(grid_type, p.orientation) ==> q == p
        }),
{
}

/// On every grid, the column an ant steps to follows the east-west part of the direction
/// it then faces: one column east, wrapping around, when it faces north-east, east or
/// south-east; one column west, wrapping around, when it faces north-west, west or
/// south-west; the same column when it faces north or south.
pub proof fn lemma_moved_column(p: Position, grid_type: GridType, d: Direction, width: usize, height: usize)
    requires
        p.x < width,
        !stays_put(grid_type, p.orientation),
    ensures
        ({
            let q = moved(p, grid_type, d, width, height);
            let o = q.orientation.ordinal();
            &&& 1 <= o <= 3 ==> q.x == (p.x + 1) % (width as int)
            &&& 5 <= o <= 7 ==> q.x == (p.x + width - 1) % (width as int)
            &&& (o == 0 || o == 4) ==> q.x == p.x
        }),
{
    lemma_step_east(p.x, width);
    lemma_step_west(p.x, width);
}

/// The row an ant steps to follows the north-south part of the direction it then faces,
/// wrapping around: on a square grid, one row up facing north-west, north or north-east,
/// one row down facing south-west, south or south-east; on a hexagonal grid, up facing
/// north and down facing south, and for the slanting sides up (north-east, north-west) only
/// from an even column and down (south-east, south-west) only from an odd one; on a
/// triangular grid, up facing north, down facing south, and otherwise the same row.
pub proof fn lemma_moved_row(p: Position, grid_type: GridType, d: Direction, width: usize, height: usize)
    requires
        p.y < height,
        !stays_put(grid_type, p.orientation),
    ensures
        ({
            let q = moved(p, grid_type, d, width, height);
            let o = q.orientation.ordinal();
            let up = (p.y + height - 1) % (height as int);
            let down = (p.y + 1) % (height as int);
            &&& (grid_type == GridType::Square || grid_type == GridType::SquareDiagonal) ==> {
                &&& (o == 7 || o == 0 || o == 1) ==> q.y == up
                &&& (3 <= o <= 5) ==> q.y == down
                &&& (o == 2 || o == 6) ==> q.y == p.y
            }
            &&& grid_type == GridType::Hexagonal ==> {
                &&& o == 0 ==> q.y == up
                &&& o == 4 ==> q.y == down
                &&& (o == 1 || o == 7) ==> q.y == if p.x % 2 == 0 { up } else { p.y as int }
                &&& (o == 3 || o == 5) ==> q.y == if p.x % 2 == 1 { down } else { p.y as int }
            }
            &&& grid_type == GridType::Triangular ==> {
                &&& o == 0 ==> q.y == up
                &&& o == 4 ==> q.y == down
                &&& (o != 0 && o != 4) ==> q.y == p.y
            }
        }),
{
    lemma_step_east(p.y, height);
    lemma_step_west(p.y, height);
}

/// On a triangular grid, going straight on twice crosses the same side of the triangle and
/// back: the ant is where it was, facing as it did.
pub proof fn lemma_triangle_straight_back(p: Position, width: usize, height: usize)
    requires
        p.x < width,
        p.y < height,
        !stays_put(GridType::Triangular, p.orientation),
    ensures
        moved(moved(p, GridType::Triangular, Direction::South, width, height), GridType::Triangular, Direction::South, width, height) == p,
{
    lemma_step_east(p.x, width);
    lemma_step_west(p.x, width);
    lemma_step_east(p.y, height);
    lemma_step_west(p.y, height);
    let q = moved(p, GridType::Triangular, Direction::South, width, height);
    if q.x < width && q.x != p.x {
        lemma_step_east(q.x, width);
        lemma_step_west(q.x, width);
    }
    if q.y < height && q.y != p.y {
        lemma_step_east(q.y, height);
        lemma_step_west(q.y, height);
    }
}

/// [`can_move`] on a square grid, with or without diagonals.
fn square_move_fits(pos: Position, grid_type: GridType, direction: Direction, width: usize, height: usize) -> (r: bool)
    requires
        grid_type == GridType::Square || grid_type == GridType::SquareDiagonal,
    ensures
        r == can_move(pos, grid_type, direction, width, height),
{
    let o = pos.orientation + effective_direction(grid_type, direction);
    let column_ok = match o {
        Direction::North | Direction::South => true,
        _ => width > 0,
    };
    let row_ok = match o {
        Direction::North | Direction::NorthEast | Direction::NorthWest => pos.y != 0 || height > 0,
        Direction::South | Direction::SouthEast | Direction::SouthWest => height > 0,
        _ => true,
    };
    column_ok && row_ok
}

/// [`can_move`] on a hexagonal grid.
fn hex_move_fits(pos: Position, direction: Direction, width: usize, height: usize) -> (r: bool)
    ensures
        r == can_move(pos, GridType::Hexagonal, direction, width, height),
{
    let current = pos.orientation.to_hexagon_u8();
    let turn = effective_direction(GridType::Hexagonal, direction).to_hexagon_u8();
    let o = Direction::from_hexagon_u8((current + turn) % 6);
    assert(o == hex_turned(pos.orientation, effective(GridType::Hexagonal, direction)));
    let even = pos.x % 2 == 0;
    let column_ok = match o {
        Direction::NorthWest | Direction::SouthWest => pos.x != 0 || width > 0,
        Direction::NorthEast | Direction::SouthEast => width > 0,
        _ => true,
    };
    let row_ok = if o == Direction::North || ((o == Direction::NorthEast || o == Direction::NorthWest) && even) {
        pos.y != 0 || height > 0
    } else if o == Direction::South || ((o == Direction::SouthEast || o == Direction::SouthWest) && !even) {
        height > 0
    } else {
        true
    };
    column_ok && row_ok
}

/// [`can_move`] on a triangular grid.
fn triangle_move_fits(pos: Position, direction: Direction, width: usize, height: usize) -> (r: bool)
    ensures
        r == can_move(pos, GridType::Triangular, direction, width, height),
{
    match (effective_direction(GridType::Triangular, direction), pos.orientation) {
        (Direction::South, Direction::SouthWest)
        | (Direction::East, Direction::North)
        | (Direction::West, Direction::SouthEast)
        | (Direction::South, Direction::NorthEast)
        | (Direction::East, Direction::South)
        | (Direction::West, Direction::NorthWest)
        | (Direction::South, Direction::SouthEast)
        | (Direction::East, Direction::SouthWest)
        | (Direction::West, Direction::North)
        | (Direction::South, Direction::NorthWest)
        | (Direction::East, Direction::NorthEast)
        | (Direction::West, Direction::South) => width > 0,
        (Direction::South, Direction::North)
        | (Direction::East, Direction::SouthEast)
        | (Direction::West, Direction::SouthWest) => height > 0,
        (Direction::South, Direction::South)
        | (Direction::East, Direction::NorthWest)
        | (Direction::West, Direction::NorthEast) => pos.y != 0 || height > 0,
        _ => true,
    }
}

impl Ant {
    /// Whether the ant can turn by `direction` and move on a grid of kind `grid_type` and
    /// `width` × `height` cells: [`Ant::travel`] needs this of its field size.
    pub(crate) fn can_travel(&self, grid_type: GridType, direction: Direction, width: usize, height: usize) -> (r: bool)
        ensures
            r == can_move(self.position, grid_type, direction, width, height),
    {
        match grid_type {
            GridType::Square | GridType::SquareDiagonal => square_move_fits(self.position, grid_type, direction, width, height),
            GridType::Hexagonal => hex_move_fits(self.position, direction, width, height),
            GridType::Triangular => triangle_move_fits(self.position, direction, width, height),
        }
    }

    /// Turns the ant by `direction` and moves it one cell on a grid of kind `grid_type` and
    /// `width` × `height` cells.
    pub(crate) fn travel(&mut self, grid_type: GridType, direction: Direction, width: usize, height: usize)
        requires
            can_move(old(self).position, grid_type, direction, width, height),
            old(self).position.x < usize::MAX,
            old(self).position.y < usize::MAX,
        ensures
            final(self).position == moved(old(self).position, grid_type, direction, width, height),
            final(self).start_position == old(self).start_position,
            final(self).instruction == old(self).instruction,
    {
        proof {
            if width > 0 {
                lemma_wrap_before_zero(width);
            }
        }
        match grid_type {
            GridType::SquareDiagonal | GridType::Square => {
                self.position.orientation = self.position.orientation + effective_direction(
                    grid_type,
                    direction,
                );

                match self.position.orientation {
                    Direction::North | Direction::NorthEast | Direction::NorthWest => {
                        if self.position.y == 0 {
                            self.position.y = height - 1;
                        } else {
                            self.position.y = self.position.y - 1;
                        }
                    },
                    Direction::South | Direction::SouthEast | Direction::SouthWest => {
                        self.position.y = (self.position.y + 1) % height;
                    },
                    Direction::East | Direction::West => {},
                }
                match self.position.orientation {
                    Direction::West | Direction::NorthWest | Direction::SouthWest => {
                        if self.position.x == 0 {
                            self.position.x = width - 1;
                        } else {
                            self.position.x = (self.position.x - 1) % width;
                        }
                    },
                    Direction::East | Direction::SouthEast | Direction::NorthEast => {
                        self.position.x = (self.position.x + 1) % width;
                    },
                    Direction::North | Direction::South => {},
                }
            },
            GridType::Hexagonal => {
                let current = self.position.orientation.to_hexagon_u8();
                let direction = effective_direction(grid_type, direction).to_hexagon_u8();
                let next = (current + direction) % 6;
                self.position.orientation = Direction::from_hexagon_u8(next);
                match self.position.orientation {
                    Direction::North => {
                        if self.position.y == 0 {
                            self.position.y = height - 1;
                        } else {
                            self.position.y = self.position.y - 1;
                        }
                    },
                    Direction::NorthEast if self.position.x % 2 == 0 => {
                        if self.position.y == 0 {
                            self.position.y = height - 1;
                        } else {
                            self.position.y = self.position.y - 1;
                        }
                    },
                    Direction::NorthWest if self.position.x % 2 == 0 => {
                        if self.position.y == 0 {
                            self.position.y = height - 1;
                        } else {
                            self.position.y = self.position.y - 1;
                        }
                    },
                    Direction::South => {
                        self.position.y = (self.position.y + 1) % height;
                    },
                    Direction::SouthEast if self.position.x % 2 != 0 => {
                        self.position.y = (self.position.y + 1) % height;
                    },
                    Direction::SouthWest if self.position.x % 2 != 0 => {
                        self.position.y = (self.position.y + 1) % height;
                    },
                    _ => {},
                }
                match self.position.orientation {
                    Direction::NorthWest | Direction::SouthWest => {
                        if self.position.x == 0 {
                            self.position.x = width - 1;
                        } else {
                            self.position.x = self.position.x - 1;
                        }
                    },
                    Direction::SouthEast | Direction::NorthEast => {
                        self.position.x = (self.position.x + 1) % width;
                    },
                    _ => {},
                }
            },
            GridType::Triangular => {
                match (effective_direction(grid_type, direction), self.position.orientation) {
                    (Direction::South, Direction::SouthWest)
                    | (Direction::East, Direction::North)
                    | (Direction::West, Direction::SouthEast) => {
                        self.position.orientation = Direction::NorthEast;
                        self.position.x = (self.position.x + 1) % width;
                    },
                    (Direction::South, Direction::North)
                    | (Direction::East, Direction::SouthEast)
                    | (Direction::West, Direction::SouthWest) => {
                        self.position.orientation = Direction::South;
                        self.position.y = (self.position.y + 1) % height;
                    },
                    (Direction::South, Direction::NorthEast)
                    | (Direction::East, Direction::South)
                    | (Direction::West, Direction::NorthWest) => {
                        self.position.orientation = Direction::SouthWest;
                        if self.position.x == 0 {
                            self.position.x = width - 1;
                        } else {
                            self.position.x = (self.position.x - 1) % width;
                        }
                    },
                    (Direction::South, Direction::SouthEast)
                    | (Direction::East, Direction::SouthWest)
                    | (Direction::West, Direction::North) => {
                        self.position.orientation = Direction::NorthWest;
                        if self.position.x == 0 {
                            self.position.x = width - 1;
                        } else {
                            self.position.x = (self.position.x - 1) % width;
                        }
                    },
                    (Direction::South, Direction::South)
                    | (Direction::East, Direction::NorthWest)
                    | (Direction::West, Direction::NorthEast) => {
                        self.position.orientation = Direction::North;
                        if self.position.y == 0 {
                            self.position.y = height - 1;
                        } else {
                            self.position.y = self.position.y - 1;
                        }
                    },
                    (Direction::South, Direction::NorthWest)
                    | (Direction::East, Direction::NorthEast)
                    | (Direction::West, Direction::South) => {
                        self.position.orientation = Direction::SouthEast;
                        self.position.x = (self.position.x + 1) % width;
                    },
                    _ => {},
                }
            },
        }
    }
}

/// The ant of a new state: in the middle of a field of the default size, facing north,
/// following the first rule set.
pub open spec fn first_ant() -> Ant {
    let p = Position { x: 32, y: 32, orientation: Direction::North };
    Ant { start_position: p, instruction: 0, position: p }
}

impl Default for Ant {
    /// An ant in the middle of a field of the default size, facing north, following the
    /// first rule set.
    fn default() -> (ant: Ant)
        ensures
            ant == first_ant(),
    {
        let x0 = DEFAULT_SIZE.0 / 2;
        let y0 = DEFAULT_SIZE.1 / 2;
        let position = Position { x: x0, y: y0, orientation: Direction::North };
        Ant { start_position: position, position, instruction: 0 }
    }
}

} // verus!
