use vstd::prelude::*;

verus! {

/// The kinds of grid an ant can walk on.
#[derive(Clone, Copy, Debug, PartialEq, Eq, Structural)]
pub enum GridType {
    Square,
    SquareDiagonal,
    Hexagonal,
    Triangular,
}

/// The eight compass directions, numbered clockwise from north.
///
/// For a square grid they are the eight neighbours of a cell:
/// ```text
///   7 | 0 | 1
///  -----------
///   6 |   | 2
///  -----------
///   5 | 4 | 3
/// ```
/// A hexagonal grid uses the six directions other than east and west, a triangular
/// grid uses them to name the sides and corners of a triangle.
#[derive(Clone, Copy, Debug, PartialEq, Eq, Structural)]
pub enum Direction {
    North,
    NorthEast,
    East,
    SouthEast,
    South,
    SouthWest,
    West,
    NorthWest,
}

impl Direction {
    /// The number of the direction on the compass, clockwise from north (0 to 7).
    pub open spec fn ordinal(self) -> nat {
        match self {
            Direction::North => 0,
            Direction::NorthEast => 1,
            Direction::East => 2,
            Direction::SouthEast => 3,
            Direction::South => 4,
            Direction::SouthWest => 5,
            Direction::West => 6,
            Direction::NorthWest => 7,
        }
    }

    /// The direction whose number is `n` modulo 8.
    pub open spec fn from_ordinal(n: int) -> Direction {
        let r = n % 8;
        if r == 0 {
            Direction::North
        } else if r == 1 {
            Direction::NorthEast
        } else if r == 2 {
            Direction::East
        } else if r == 3 {
            Direction::SouthEast
        } else if r == 4 {
            Direction::South
        } else if r == 5 {
            Direction::SouthWest
        } else if r == 6 {
            Direction::West
        } else {
            Direction::NorthWest
        }
    }

    /// `self` turned clockwise by `rhs`: the numbers add up modulo 8.
    pub open spec fn turned(self, rhs: Direction) -> Direction {
        Direction::from_ordinal((self.ordinal() + rhs.ordinal()) as int)
    }

    /// The number of the direction, clockwise from north.
    pub fn index(self) -> (r: u8)
        ensures
            r == self.ordinal(),
    {
        match self {
            Direction::North => 0,
            Direction::NorthEast => 1,
            Direction::East => 2,
            Direction::SouthEast => 3,
            Direction::South => 4,
            Direction::SouthWest => 5,
            Direction::West => 6,
            Direction::NorthWest => 7,
        }
    }

    /// The direction numbered `value` modulo 8.
    pub fn from_index(value: u8) -> (d: Direction)
        ensures
            d == Direction::from_ordinal(value as int),
    {
        match value % 8 {
            0 => Direction::North,
            1 => Direction::NorthEast,
            2 => Direction::East,
            3 => Direction::SouthEast,
            4 => Direction::South,
            5 => Direction::SouthWest,
            6 => Direction::West,
            _ => Direction::NorthWest,
        }
    }

    /// The number of the direction among the six sides of a hexagon, clockwise from north;
    /// east counts as north-east and west as south-west.
    pub open spec fn hexagon_ordinal(self) -> nat {
        match self {
            Direction::North => 0,
            Direction::NorthEast | Direction::East => 1,
            Direction::SouthEast => 2,
            Direction::South => 3,
            Direction::SouthWest | Direction::West => 4,
            Direction::NorthWest => 5,
        }
    }

    /// The side of a hexagon numbered `n` modulo 6.
    pub open spec fn from_hexagon_ordinal(n: int) -> Direction {
        let r = n % 6;
        if r == 0 {
            Direction::North
        } else if r == 1 {
            Direction::NorthEast
        } else if r == 2 {
            Direction::SouthEast
        } else if r == 3 {
            Direction::South
        } else if r == 4 {
            Direction::SouthWest
        } else {
            Direction::NorthWest
        }
    }

    pub(crate) fn to_hexagon_u8(&self) -> (r: u8)
        ensures
            r == self.hexagon_ordinal(),
    {
        match self {
            Direction::North => 0,
            Direction::NorthEast | Direction::East => 1,
            Direction::SouthEast => 2,
            Direction::South => 3,
            Direction::SouthWest | Direction::West => 4,
            Direction::NorthWest => 5,
        }
    }

    pub(crate) fn from_hexagon_u8(value: u8) -> (d: Direction)
        ensures
            d == Direction::from_hexagon_ordinal(value as int),
    {
        match value % 6 {
            0 => Direction::North,
            1 => Direction::NorthEast,
            2 => Direction::SouthEast,
            3 => Direction::South,
            4 => Direction::SouthWest,
            _ => Direction::NorthWest,
        }
    }

    /// The arrow that shows the direction.
    pub open spec fn arrow(self) -> Seq<char> {
        match self {
            Direction::North => "↑"@,
            Direction::NorthEast => "↗"@,
            Direction::East => "→"@,
            Direction::SouthEast => "↘"@,
            Direction::South => "↓"@,
            Direction::SouthWest => "↙"@,
            Direction::West => "←"@,
            Direction::NorthWest => "↖"@,
        }
    }

    /// The arrow that shows the direction.
    pub fn symbol(self) -> (s: &'static str)
        ensures
            s@ == self.arrow(),
    {
        match self {
            Direction::North => "↑",
            Direction::NorthEast => "↗",
            Direction::East => "→",
            Direction::SouthEast => "↘",
            Direction::South => "↓",
            Direction::SouthWest => "↙",
            Direction::West => "←",
            Direction::NorthWest => "↖",
        }
    }
}

impl core::ops::Add for Direction {
    type Output = Direction;

    /// Turns `self` clockwise by `rhs`.
    fn add(self, rhs: Direction) -> (r: Direction) {
        Direction::from_index(self.index() + rhs.index())
    }
}

impl vstd::std_specs::ops::AddSpecImpl for Direction {
    open spec fn obeys_add_spec() -> bool {
        true
    }

    open spec fn add_req(self, rhs: Direction) -> bool {
        true
    }

    open spec fn add_spec(self, rhs: Direction) -> Direction {
        self.turned(rhs)
    }
}

impl core::ops::AddAssign for Direction {
    /// Turns `self` clockwise by `rhs`, in place.
    fn add_assign(&mut self, rhs: Direction)
        ensures
            *final(self) == old(self).turned(rhs),
    {
        *self = *self + rhs;
    }
}

impl From<u8> for Direction {
    /// The direction numbered `value` modulo 8.
    fn from(value: u8) -> (d: Direction) {
        Direction::from_index(value)
    }
}

impl vstd::std_specs::convert::FromSpecImpl<u8> for Direction {
    open spec fn obeys_from_spec() -> bool {
        true
    }

    open spec fn from_spec(v: u8) -> Direction {
        Direction::from_ordinal(v as int)
    }
}

/// The direction that a turn `direction` means on a grid of kind `grid_type`: a square grid
/// knows only the four cardinal directions, a hexagonal grid has no east and west, and a
/// triangular grid knows only south (straight on), east and west.
pub open spec fn effective(grid_type: GridType, direction: Direction) -> Direction {
    match grid_type {
        GridType::SquareDiagonal => direction,
        GridType::Square => match direction {
            Direction::NorthEast | Direction::SouthEast => Direction::East,
            Direction::SouthWest | Direction::NorthWest => Direction::West,
            _ => direction,
        },
        GridType::Hexagonal => match direction {
            Direction::West => Direction::NorthWest,
            Direction::East => Direction::NorthEast,
            _ => direction,
        },
        GridType::Triangular => match direction {
            Direction::North => Direction::South,
            Direction::NorthEast | Direction::SouthEast => Direction::East,
            Direction::SouthWest | Direction::NorthWest => Direction::West,
            _ => direction,
        },
    }
}

/// The direction that a turn `direction` means on a grid of kind `grid_type`.
pub fn effective_direction(grid_type: GridType, direction: Direction) -> (r: Direction)
    ensures
        r == effective(grid_type, direction),
{
    match grid_type {
        GridType::SquareDiagonal => direction,
        GridType::Square => match direction {
            Direction::NorthEast | Direction::SouthEast => Direction::East,
            Direction::SouthWest | Direction::NorthWest => Direction::West,
            direction => direction,
        },
        GridType::Hexagonal => match direction {
            Direction::West => Direction::NorthWest,
            Direction::East => Direction::NorthEast,
            direction => direction,
        },
        GridType::Triangular => match direction {
            Direction::North => Direction::South,
            Direction::NorthEast | Direction::SouthEast => Direction::East,
            Direction::SouthWest | Direction::NorthWest => Direction::West,
            direction => direction,
        },
    }
}

/// The turn that comes after `turn` when a rule's turn is cycled forwards; `None`
/// (no move) sits between the last and the first turn of the cycle.
pub open spec fn next_turn(grid_type: GridType, turn: Option<Direction>) -> Option<Direction> {
    match grid_type {
        GridType::SquareDiagonal => match turn {
            Some(Direction::NorthWest) => None,
            Some(direction) => Some(direction.turned(Direction::NorthEast)),
            None => Some(Direction::North),
        },
        GridType::Square => match turn {
            Some(Direction::West) => None,
            Some(direction) => Some(direction.turned(Direction::East)),
            None => Some(Direction::North),
        },
        GridType::Hexagonal => match turn {
            Some(Direction::NorthWest) => None,
            Some(Direction::SouthWest) => Some(Direction::NorthWest),
            Some(Direction::NorthEast) => Some(Direction::SouthEast),
            Some(direction) => Some(direction.turned(Direction::NorthEast)),
            None => Some(Direction::North),
        },
        GridType::Triangular => match turn {
            None => Some(Direction::East),
            Some(Direction::East) => Some(Direction::South),
            Some(Direction::South) => Some(Direction::West),
            _ => None,
        },
    }
}

/// The turn that comes before `turn` when a rule's turn is cycled backwards.
pub open spec fn prev_turn(grid_type: GridType, turn: Option<Direction>) -> Option<Direction> {
    match grid_type {
        GridType::SquareDiagonal => match turn {
            None => Some(Direction::NorthWest),
            Some(Direction::North) => None,
            Some(direction) => Some(direction.turned(Direction::NorthWest)),
        },
        GridType::Square => match turn {
            Some(Direction::North) => None,
            Some(direction) => Some(direction.turned(Direction::West)),
            None => Some(Direction::West),
        },
        GridType::Hexagonal => match turn {
            Some(Direction::North) => None,
            Some(Direction::NorthWest) => Some(Direction::SouthWest),
            Some(Direction::SouthEast) => Some(Direction::NorthEast),
            Some(direction) => Some(direction.turned(Direction::NorthWest)),
            None => Some(Direction::NorthWest),
        },
        GridType::Triangular => match turn {
            None => Some(Direction::West),
            Some(Direction::West) => Some(Direction::South),
            Some(Direction::South) => Some(Direction::East),
            _ => None,
        },
    }
}

/// The turn before `turn` in the cycle of turns of `grid_type`.
pub fn prev_direction(grid_type: GridType, turn: Option<Direction>) -> (r: Option<Direction>)
    ensures
        r == prev_turn(grid_type, turn),
{
    match grid_type {
        GridType::SquareDiagonal => match turn {
            None => Some(Direction::NorthWest),
            Some(Direction::North) => None,
            Some(direction) => Some(direction + Direction::NorthWest),
        },
        GridType::Square => match turn {
            Some(Direction::North) => None,
            Some(direction) => Some(direction + Direction::West),
            None => Some(Direction::West),
        },
        GridType::Hexagonal => match turn {
            Some(Direction::North) => None,
            Some(Direction::NorthWest) => Some(Direction::SouthWest),
            Some(Direction::SouthEast) => Some(Direction::NorthEast),
            Some(direction) => Some(direction + Direction::NorthWest),
            None => Some(Direction::NorthWest),
        },
        GridType::Triangular => match turn {
            None => Some(Direction::West),
            Some(Direction::West) => Some(Direction::South),
            Some(Direction::South) => Some(Direction::East),
            _ => None,
        },
    }
}

/// The turn after `turn` in the cycle of turns of `grid_type`.
pub fn next_direction(grid_type: GridType, turn: Option<Direction>) -> (r: Option<Direction>)
    ensures
        r == next_turn(grid_type, turn),
{
    match grid_type {
        GridType::SquareDiagonal => match turn {
            Some(Direction::NorthWest) => None,
            Some(direction) => Some(direction + Direction::NorthEast),
            None => Some(Direction::North),
        },
        GridType::Square => match turn {
            Some(Direction::West) => None,
            Some(direction) => Some(direction + Direction::East),
            None => Some(Direction::North),
        },
        GridType::Hexagonal => match turn {
            Some(Direction::NorthWest) => None,
            Some(Direction::SouthWest) => Some(Direction::NorthWest),
            Some(Direction::NorthEast) => Some(Direction::SouthEast),
            Some(direction) => Some(direction + Direction::NorthEast),
            None => Some(Direction::North),
        },
        GridType::Triangular => match turn {
            None => Some(Direction::East),
            Some(Direction::East) => Some(Direction::South),
            Some(Direction::South) => Some(Direction::West),
            _ => None,
        },
    }
}

/// The grid kind after `grid_type` in the cycle square, square with diagonals, hexagonal,
/// triangular.
pub open spec fn following_grid(grid_type: GridType) -> GridType {
    match grid_type {
        GridType::Square => GridType::SquareDiagonal,
        GridType::SquareDiagonal => GridType::Hexagonal,
        GridType::Hexagonal => GridType::Triangular,
        GridType::Triangular => GridType::Square,
    }
}

/// The grid kind after `grid_type`.
pub fn next_grid_type(grid_type: GridType) -> (r: GridType)
    ensures
        r == following_grid(grid_type),
{
    match grid_type {
        GridType::Square => GridType::SquareDiagonal,
        GridType::SquareDiagonal => GridType::Hexagonal,
        GridType::Hexagonal => GridType::Triangular,
        GridType::Triangular => GridType::Square,
    }
}

/// Whether `turn` is one of the turns that a rule can hold on a grid of kind `grid_type`:
/// no move, or a direction that the grid knows as it is.
pub open spec fn is_grid_turn(grid_type: GridType, turn: Option<Direction>) -> bool {
    match turn {
        None => true,
        Some(d) => effective(grid_type, d) == d,
    }
}

/// Whether `turn` lies on the cycle of turns that [`next_direction`] and [`prev_direction`]
/// walk on a grid of kind `grid_type`: every turn on a square grid, with or without
/// diagonals; every turn but east and west on a hexagonal grid; no move, east, south and
/// west on a triangular grid.
pub open spec fn in_turn_cycle(grid_type: GridType, turn: Option<Direction>) -> bool {
    match grid_type {
        GridType::Square | GridType::SquareDiagonal => true,
        GridType::Hexagonal => turn != Some(Direction::East) && turn != Some(Direction::West),
        GridType::Triangular => is_grid_turn(grid_type, turn),
    }
}

/// Cycling a turn forwards and then backwards, or backwards and then forwards, gives back
/// the turn, for every turn on the grid's cycle of turns; and cycling never leaves it.
pub proof fn lemma_next_prev_inverse(grid_type: GridType, turn: Option<Direction>)
    requires
        in_turn_cycle(grid_type, turn),
    ensures
        in_turn_cycle(grid_type, next_turn(grid_type, turn)),
        in_turn_cycle(grid_type, prev_turn(grid_type, turn)),
        prev_turn(grid_type, next_turn(grid_type, turn)) == turn,
        next_turn(grid_type, prev_turn(grid_type, turn)) == turn,
{
    match turn {
        None => {},
        Some(d) => match d {
            Direction::North => {},
            Direction::NorthEast => {},
            Direction::East => {},
            Direction::SouthEast => {},
            Direction::South => {},
            Direction::SouthWest => {},
            Direction::West => {},
            Direction::NorthWest => {},
        },
    }
}

/// Reading a direction through a grid twice changes nothing more than reading it once.
pub proof fn lemma_effective_idempotent(grid_type: GridType, direction: Direction)
    ensures
        effective(grid_type, effective(grid_type, direction)) == effective(grid_type, direction),
        is_grid_turn(grid_type, Some(effective(grid_type, direction))),
        in_turn_cycle(grid_type, Some(effective(grid_type, direction))),
{
}

/// Four steps through the grid kinds lead back to the start, and no fewer do.
pub proof fn lemma_grid_cycle(grid_type: GridType)
    ensures
        following_grid(following_grid(following_grid(following_grid(grid_type)))) == grid_type,
        following_grid(grid_type) != grid_type,
        following_grid(following_grid(grid_type)) != grid_type,
        following_grid(following_grid(following_grid(grid_type))) != grid_type,
{
}

/// Turning is adding numbers modulo 8: it is commutative and associative, and north turns
/// nothing.
pub proof fn lemma_turn_laws(a: Direction, b: Direction, c: Direction)
    ensures
        a.turned(b) == b.turned(a),
        a.turned(b).turned(c) == a.turned(b.turned(c)),
        a.turned(Direction::North) == a,
        Direction::from_ordinal(a.ordinal() as int) == a,
{
}

/// Cycling a rule's turn steps through the grid's directions clockwise, with no move between
/// the last and the first:
/// - with diagonals, forwards is 45 degrees clockwise (the compass number grows by one) from
///   no move through north to north-west, backwards the other way;
/// - on a square grid, forwards is 90 degrees clockwise (the number grows by two modulo 8)
///   from no move through north to west;
/// - on a hexagonal grid, forwards is one side of the hexagon clockwise from no move through
///   north to north-west, never east or west;
/// - on a triangular grid the cycle is no move, east (right), south (straight on), west (left).
pub proof fn lemma_turn_cycle_order(d: Direction)
    ensures
        next_turn(GridType::SquareDiagonal, None) == Some(Direction::North),
        next_turn(GridType::SquareDiagonal, Some(Direction::NorthWest)) is None,
        d != Direction::NorthWest ==> (next_turn(GridType::SquareDiagonal, Some(d)) matches Some(e)
            && e.ordinal() == d.ordinal() + 1),
        prev_turn(GridType::SquareDiagonal, None) == Some(Direction::NorthWest),
        prev_turn(GridType::SquareDiagonal, Some(Direction::North)) is None,
        d != Direction::North ==> (prev_turn(GridType::SquareDiagonal, Some(d)) matches Some(e)
            && e.ordinal() + 1 == d.ordinal()),
        next_turn(GridType::Square, None) == Some(Direction::North),
        next_turn(GridType::Square, Some(Direction::West)) is None,
        d != Direction::West ==> (next_turn(GridType::Square, Some(d)) matches Some(e)
            && e.ordinal() == (d.ordinal() + 2) % 8),
        prev_turn(GridType::Square, None) == Some(Direction::West),
        prev_turn(GridType::Square, Some(Direction::North)) is None,
        d != Direction::North ==> (prev_turn(GridType::Square, Some(d)) matches Some(e)
            && e.ordinal() == (d.ordinal() + 6) % 8),
        next_turn(GridType::Hexagonal, None) == Some(Direction::North),
        next_turn(GridType::Hexagonal, Some(Direction::NorthWest)) is None,
        d != Direction::NorthWest && d != Direction::East && d != Direction::West ==> (next_turn(
            GridType::Hexagonal,
            Some(d),
        ) matches Some(e) && e.hexagon_ordinal() == d.hexagon_ordinal() + 1 && e != Direction::East
            && e != Direction::West),
        prev_turn(GridType::Hexagonal, None) == Some(Direction::NorthWest),
        prev_turn(GridType::Hexagonal, Some(Direction::North)) is None,
        d != Direction::North && d != Direction::East && d != Direction::West ==> (prev_turn(
            GridType::Hexagonal,
            Some(d),
        ) matches Some(e) && e.hexagon_ordinal() + 1 == d.hexagon_ordinal() && e != Direction::East
            && e != Direction::West),
        next_turn(GridType::Triangular, None) == Some(Direction::East),
        next_turn(GridType::Triangular, Some(Direction::East)) == Some(Direction::South),
        next_turn(GridType::Triangular, Some(Direction::South)) == Some(Direction::West),
        next_turn(GridType::Triangular, Some(Direction::West)) is None,
        prev_turn(GridType::Triangular, None) == Some(Direction::West),
        prev_turn(GridType::Triangular, Some(Direction::West)) == Some(Direction::South),
        prev_turn(GridType::Triangular, Some(Direction::South)) == Some(Direction::East),
        prev_turn(GridType::Triangular, Some(Direction::East)) is None,

{
    match d {
        Direction::North => {},
        Direction::NorthEast => {},
        Direction::East => {},
        Direction::SouthEast => {},
        Direction::South => {},
        Direction::SouthWest => {},
        Direction::West => {},
        Direction::NorthWest => {},
    }
}

/// How each grid reads a turn, by compass numbers: with diagonals, as it is; on a square
/// grid, a diagonal as its east or west part (numbers 1 to 3 as east, 5 to 7 as west) and
/// the four cardinal directions as they are; on a hexagonal grid, east as north-east, west
/// as north-west, the rest as it is; on a triangular grid, north and south as south
/// (straight on), numbers 1 to 3 as east (right) and 5 to 7 as west (left).
pub proof fn lemma_effective_by_number(d: Direction)
    ensures
        effective(GridType::SquareDiagonal, d) == d,
        d.ordinal() % 2 == 0 ==> effective(GridType::Square, d) == d,
        d.ordinal() % 2 == 1 && d.ordinal() < 4 ==> effective(GridType::Square, d).ordinal() == 2,
        d.ordinal() % 2 == 1 && d.ordinal() > 4 ==> effective(GridType::Square, d).ordinal() == 6,
        d.ordinal() != 2 && d.ordinal() != 6 ==> effective(GridType::Hexagonal, d) == d,
        d.ordinal() == 2 ==> effective(GridType::Hexagonal, d).ordinal() == 1,
        d.ordinal() == 6 ==> effective(GridType::Hexagonal, d).ordinal() == 7,
        (d.ordinal() == 0 || d.ordinal() == 4) ==> effective(GridType::Triangular, d).ordinal() == 4,
        1 <= d.ordinal() <= 3 ==> effective(GridType::Triangular, d).ordinal() == 2,
        5 <= d.ordinal() <= 7 ==> effective(GridType::Triangular, d).ordinal() == 6,
{
}

/// Numbering the directions: every number modulo 8 names the direction of that number,
/// turning adds the numbers modulo 8, and every number modulo 6 names the side of a hexagon
/// of that number.
pub proof fn lemma_numbering(a: Direction, b: Direction, n: nat)
    ensures
        Direction::from_ordinal(n as int).ordinal() == n % 8,
        a.turned(b).ordinal() == (a.ordinal() + b.ordinal()) % 8,
        Direction::from_hexagon_ordinal(n as int).hexagon_ordinal() == n % 6,
        a.ordinal() < 8,
        a.hexagon_ordinal() < 6,
{
}

/// Turns off a grid's cycle: on a hexagonal grid, east and west cycle 45 degrees clockwise
/// forwards and anticlockwise backwards (into the cycle); on a triangular grid, every
/// direction but east, south and west cycles to no move either way.
pub proof fn lemma_turn_cycle_off_grid(d: Direction)
    ensures
        (d == Direction::East || d == Direction::West) ==> (next_turn(GridType::Hexagonal, Some(d)) matches Some(e)
            && e.ordinal() == d.ordinal() + 1),
        (d == Direction::East || d == Direction::West) ==> (prev_turn(GridType::Hexagonal, Some(d)) matches Some(e)
            && e.ordinal() + 1 == d.ordinal()),
        d != Direction::East && d != Direction::South && d != Direction::West ==> next_turn(GridType::Triangular, Some(d)) is None
            && prev_turn(GridType::Triangular, Some(d)) is None,
{
    match d {
        Direction::North => {},
        Direction::NorthEast => {},
        Direction::East => {},
        Direction::SouthEast => {},
        Direction::South => {},
        Direction::SouthWest => {},
        Direction::West => {},
        Direction::NorthWest => {},
    }
}

} // verus!
