use rainbow_ant::{
    effective_direction, next_direction, next_grid_type, prev_direction, Direction, GridType,
};

const ALL: [Direction; 8] = [
    Direction::North,
    Direction::NorthEast,
    Direction::East,
    Direction::SouthEast,
    Direction::South,
    Direction::SouthWest,
    Direction::West,
    Direction::NorthWest,
];

#[test]
fn direction_add_turns_clockwise() {
    assert_eq!(Direction::North + Direction::East, Direction::East);
    assert_eq!(Direction::West + Direction::East, Direction::North);
    assert_eq!(Direction::NorthWest + Direction::NorthEast, Direction::North);
    assert_eq!(Direction::South + Direction::SouthWest, Direction::NorthEast);
    let mut d = Direction::East;
    d += Direction::South;
    assert_eq!(d, Direction::West);
}

#[test]
fn direction_add_is_commutative_and_north_is_neutral() {
    for a in ALL {
        assert_eq!(a + Direction::North, a);
        for b in ALL {
            assert_eq!(a + b, b + a);
        }
    }
}

#[test]
fn direction_from_u8_wraps_modulo_eight() {
    assert_eq!(Direction::from(0u8), Direction::North);
    assert_eq!(Direction::from(7u8), Direction::NorthWest);
    assert_eq!(Direction::from(9u8), Direction::NorthEast);
    assert_eq!(Direction::from(255u8), Direction::NorthWest);
    for d in ALL {
        assert_eq!(Direction::from(d.index()), d);
        assert_eq!(Direction::from_index(d.index() + 8), d);
    }
}

#[test]
fn direction_symbols() {
    assert_eq!(Direction::North.symbol(), "↑");
    assert_eq!(Direction::NorthEast.symbol(), "↗");
    assert_eq!(Direction::East.symbol(), "→");
    assert_eq!(Direction::SouthEast.symbol(), "↘");
    assert_eq!(Direction::South.symbol(), "↓");
    assert_eq!(Direction::SouthWest.symbol(), "↙");
    assert_eq!(Direction::West.symbol(), "←");
    assert_eq!(Direction::NorthWest.symbol(), "↖");
}

#[test]
fn effective_direction_per_grid() {
    assert_eq!(effective_direction(GridType::SquareDiagonal, Direction::NorthEast), Direction::NorthEast);
    assert_eq!(effective_direction(GridType::Square, Direction::NorthEast), Direction::East);
    assert_eq!(effective_direction(GridType::Square, Direction::SouthWest), Direction::West);
    assert_eq!(effective_direction(GridType::Square, Direction::South), Direction::South);
    assert_eq!(effective_direction(GridType::Hexagonal, Direction::West), Direction::NorthWest);
    assert_eq!(effective_direction(GridType::Hexagonal, Direction::East), Direction::NorthEast);
    assert_eq!(effective_direction(GridType::Hexagonal, Direction::SouthEast), Direction::SouthEast);
    assert_eq!(effective_direction(GridType::Triangular, Direction::North), Direction::South);
    assert_eq!(effective_direction(GridType::Triangular, Direction::SouthEast), Direction::East);
    assert_eq!(effective_direction(GridType::Triangular, Direction::NorthWest), Direction::West);
}

#[test]
fn effective_direction_is_idempotent() {
    for g in [GridType::Square, GridType::SquareDiagonal, GridType::Hexagonal, GridType::Triangular] {
        for d in ALL {
            let e = effective_direction(g, d);
            assert_eq!(effective_direction(g, e), e);
        }
    }
}

#[test]
fn next_direction_cycles() {
    let mut turn = None;
    let mut seen = vec![];
    for _ in 0..9 {
        turn = next_direction(GridType::SquareDiagonal, turn);
        seen.push(turn);
    }
    assert_eq!(seen[0], Some(Direction::North));
    assert_eq!(seen[7], Some(Direction::NorthWest));
    assert_eq!(seen[8], None);

    let square: Vec<_> = (0..5)
        .scan(None, |t, _| {
            *t = next_direction(GridType::Square, *t);
            Some(*t)
        })
        .collect();
    assert_eq!(
        square,
        vec![Some(Direction::North), Some(Direction::East), Some(Direction::South), Some(Direction::West), None]
    );

    let hexagonal: Vec<_> = (0..7)
        .scan(None, |t, _| {
            *t = next_direction(GridType::Hexagonal, *t);
            Some(*t)
        })
        .collect();
    assert_eq!(
        hexagonal,
        vec![
            Some(Direction::North),
            Some(Direction::NorthEast),
            Some(Direction::SouthEast),
            Some(Direction::South),
            Some(Direction::SouthWest),
            Some(Direction::NorthWest),
            None
        ]
    );

    let triangular: Vec<_> = (0..4)
        .scan(None, |t, _| {
            *t = next_direction(GridType::Triangular, *t);
            Some(*t)
        })
        .collect();
    assert_eq!(triangular, vec![Some(Direction::East), Some(Direction::South), Some(Direction::West), None]);
}

#[test]
fn prev_direction_undoes_next_direction() {
    for g in [GridType::Square, GridType::SquareDiagonal, GridType::Hexagonal, GridType::Triangular] {
        let mut turns = vec![None];
        for d in ALL {
            if effective_direction(g, d) == d {
                turns.push(Some(d));
            }
        }
        for t in turns {
            assert_eq!(prev_direction(g, next_direction(g, t)), t);
            assert_eq!(next_direction(g, prev_direction(g, t)), t);
        }
    }
}

#[test]
fn prev_direction_outside_the_grid() {
    assert_eq!(prev_direction(GridType::Hexagonal, Some(Direction::East)), Some(Direction::NorthEast));
    assert_eq!(next_direction(GridType::Hexagonal, Some(Direction::East)), Some(Direction::SouthEast));
    assert_eq!(prev_direction(GridType::Triangular, Some(Direction::North)), None);
    assert_eq!(next_direction(GridType::Square, Some(Direction::NorthEast)), Some(Direction::SouthEast));
}

#[test]
fn grid_types_cycle_in_four() {
    assert_eq!(next_grid_type(GridType::Square), GridType::SquareDiagonal);
    assert_eq!(next_grid_type(GridType::SquareDiagonal), GridType::Hexagonal);
    assert_eq!(next_grid_type(GridType::Hexagonal), GridType::Triangular);
    assert_eq!(next_grid_type(GridType::Triangular), GridType::Square);
}
