use vstd::prelude::*;

use crate::ant::{can_move, moved, wrap, Ant, Position, MAX_CELL_COUNT};
use crate::direction::GridType;
use crate::instruction::Rule;

verus! {

/// The simulation as mathematics: the colours of the cells (indexed by column, then row),
/// the size of the part of the field in use, the ants, the rule sets and the grid kind.
pub struct World {
    pub cells: Seq<Seq<u8>>,
    pub width: usize,
    pub height: usize,
    pub ants: Seq<Ant>,
    pub rules: Seq<Map<u8, Rule>>,
    pub grid_type: GridType,
}

/// A field of the largest size where every cell has colour 0.
pub open spec fn blank_cells() -> Seq<Seq<u8>> {
    Seq::new(MAX_CELL_COUNT as nat, |x: int| Seq::new(MAX_CELL_COUNT as nat, |y: int| 0u8))
}

/// `ant` moved back to where it started.
pub open spec fn ant_at_start(ant: Ant) -> Ant {
    Ant { start_position: ant.start_position, instruction: ant.instruction, position: ant.start_position }
}

/// Every ant of `ants` moved back to where it started.
pub open spec fn ants_at_start(ants: Seq<Ant>) -> Seq<Ant> {
    Seq::new(ants.len(), |i: int| ant_at_start(ants[i]))
}

impl World {
    /// The colour of cell (`x`, `y`).
    pub open spec fn cell(self, x: int, y: int) -> u8 {
        self.cells[x][y]
    }

    /// Whether rule set of ant `i` has a rule for colour `colour`.
    pub open spec fn knows(self, i: int, colour: u8) -> bool {
        self.rules[self.ants[i].instruction as int].contains_key(colour)
    }

    /// The colour that ant `i` paints over colour `colour`.
    pub open spec fn paint(self, i: int, colour: u8) -> u8 {
        self.rules[self.ants[i].instruction as int][colour].0
    }

    /// The storage holds [`MAX_CELL_COUNT`] × [`MAX_CELL_COUNT`] cells.
    pub open spec fn full_storage(self) -> bool {
        &&& self.cells.len() == MAX_CELL_COUNT
        &&& forall|x: int| 0 <= x < MAX_CELL_COUNT ==> #[trigger] self.cells[x].len() == MAX_CELL_COUNT
    }

    /// The storage has the largest size, and the part in use is a non-empty part of it.
    pub open spec fn shaped(self) -> bool {
        &&& self.full_storage()
        &&& 0 < self.width <= MAX_CELL_COUNT
        &&& 0 < self.height <= MAX_CELL_COUNT
    }

    /// Every ant stands inside the storage and follows a rule set that exists.
    pub open spec fn ants_placed(self) -> bool {
        forall|i: int|
            0 <= i < self.ants.len() ==> {
                &&& (#[trigger] self.ants[i]).instruction < self.rules.len()
                &&& self.ants[i].position.x < MAX_CELL_COUNT
                &&& self.ants[i].position.y < MAX_CELL_COUNT
            }
    }

    /// No ant ever meets a colour that its rule set has no rule for: every colour on the
    /// field, and every colour that a rule of an ant paints, has a rule in the rule set of
    /// every ant.
    pub open spec fn palette_closed(self) -> bool {
        &&& forall|i: int, j: int, c: u8|
            #![trigger self.knows(i, c), self.knows(j, self.paint(i, c))]
            0 <= i < self.ants.len() && 0 <= j < self.ants.len() && self.knows(i, c) ==> self.knows(
                j,
                self.paint(i, c),
            )
        &&& forall|j: int, x: int, y: int|
            0 <= j < self.ants.len() && 0 <= x < MAX_CELL_COUNT && 0 <= y < MAX_CELL_COUNT
                ==> #[trigger] self.knows(j, self.cells[x][y])
    }

    /// The world can be run for any number of steps without leaving its storage or meeting
    /// a colour without a rule.
    pub open spec fn wf(self) -> bool {
        &&& self.shaped()
        &&& self.ants_placed()
        &&& self.palette_closed()
    }

    /// Whether cell (`x`, `y`) exists in the storage.
    pub open spec fn holds_cell(self, x: int, y: int) -> bool {
        0 <= x < self.cells.len() && 0 <= y < self.cells[x].len()
    }

    /// Ant `i` can have its turn as the world stands: its rule set exists, it stands on a
    /// cell of the storage, its rule set has a rule for that cell's colour, and the move that
    /// rule makes, if any, can be made.
    pub open spec fn can_turn(self, i: int) -> bool {
        let ant = self.ants[i];
        let p = ant.position;
        let colour = self.cells[p.x as int][p.y as int];
        let rules = self.rules[ant.instruction as int];
        &&& ant.instruction < self.rules.len()
        &&& self.holds_cell(p.x as int, p.y as int)
        &&& rules.contains_key(colour)
        &&& match rules[colour].1 {
            Some(d) => can_move(p, self.grid_type, d, self.width, self.height),
            None => true,
        }
    }

    /// The first `k` ants can have their turns, one after the other.
    pub open spec fn turns_ok(self, k: nat) -> bool
        decreases k,
    {
        if k == 0 {
            true
        } else {
            self.turns_ok((k - 1) as nat) && self.turns((k - 1) as nat).can_turn(k - 1)
        }
    }

    /// Every ant can have its turn in the next generation.
    pub open spec fn tick_ok(self) -> bool {
        self.turns_ok(self.ants.len())
    }

    /// The next `n` generations can be run: every ant can have every turn.
    pub open spec fn runs_ok(self, n: nat) -> bool
        decreases n,
    {
        if n == 0 {
            true
        } else {
            self.runs_ok((n - 1) as nat) && self.run((n - 1) as nat).tick_ok()
        }
    }

    /// Every ant stands inside the part of the field in use and follows a rule set that
    /// exists.
    pub open spec fn ants_inside(self) -> bool {
        forall|i: int|
            0 <= i < self.ants.len() ==> {
                &&& (#[trigger] self.ants[i]).instruction < self.rules.len()
                &&& self.ants[i].position.x < self.width
                &&& self.ants[i].position.y < self.height
            }
    }

    /// The colours `keys` are closed: every rule set has a rule for each of them, each such
    /// rule paints one of them, and every cell of the storage has one of them.
    pub open spec fn colours_within(self, keys: Set<u8>) -> bool {
        &&& forall|r: int, c: u8|
            0 <= r < self.rules.len() && keys.contains(c) ==> #[trigger] self.rules[r].contains_key(c)
                && keys.contains(self.rules[r][c].0)
        &&& forall|x: int, y: int|
            0 <= x < MAX_CELL_COUNT && 0 <= y < MAX_CELL_COUNT ==> keys.contains(#[trigger] self.cells[x][y])
    }

    /// Ant `i` paints its cell as its rule says, and then turns and moves if the rule says so.
    pub open spec fn ant_turn(self, i: int) -> World {
        let ant = self.ants[i];
        let p = ant.position;
        let rule = self.rules[ant.instruction as int][self.cells[p.x as int][p.y as int]];
        let cells = self.cells.update(p.x as int, self.cells[p.x as int].update(p.y as int, rule.0));
        let next = match rule.1 {
            Some(d) => Ant {
                start_position: ant.start_position,
                instruction: ant.instruction,
                position: moved(p, self.grid_type, d, self.width, self.height),
            },
            None => ant,
        };
        World {
            cells,
            width: self.width,
            height: self.height,
            ants: self.ants.update(i, next),
            rules: self.rules,
            grid_type: self.grid_type,
        }
    }

    /// The first `k` ants have had their turn, one after the other.
    pub open spec fn turns(self, k: nat) -> World
        decreases k,
    {
        if k == 0 {
            self
        } else {
            self.turns((k - 1) as nat).ant_turn(k - 1)
        }
    }

    /// One generation: every ant has its turn, in order.
    pub open spec fn tick(self) -> World {
        self.turns(self.ants.len())
    }

    /// `n` generations.
    pub open spec fn run(self, n: nat) -> World
        decreases n,
    {
        if n == 0 {
            self
        } else {
            self.run((n - 1) as nat).tick()
        }
    }

    /// The world before its first generation: a blank field and every ant where it started.
    pub open spec fn at_start(self) -> World {
        World {
            cells: blank_cells(),
            width: self.width,
            height: self.height,
            ants: ants_at_start(self.ants),
            rules: self.rules,
            grid_type: self.grid_type,
        }
    }

    /// Everything that a generation does not change: the size, the rule sets, the grid
    /// kind, the number of ants and where and with which rule set each started.
    pub open spec fn same_setup(self, other: World) -> bool {
        &&& self.width == other.width
        &&& self.height == other.height
        &&& self.rules == other.rules
        &&& self.grid_type == other.grid_type
        &&& self.ants.len() == other.ants.len()
        &&& forall|i: int|
            0 <= i < self.ants.len() ==> (#[trigger] self.ants[i]).start_position
                == other.ants[i].start_position && self.ants[i].instruction
                == other.ants[i].instruction
    }
}

proof fn lemma_moved_inside(p: Position, grid_type: GridType, d: crate::direction::Direction, width: usize, height: usize)
    requires
        p.x < MAX_CELL_COUNT,
        p.y < MAX_CELL_COUNT,
        0 < width <= MAX_CELL_COUNT,
        0 < height <= MAX_CELL_COUNT,
    ensures
        moved(p, grid_type, d, width, height).x < MAX_CELL_COUNT,
        moved(p, grid_type, d, width, height).y < MAX_CELL_COUNT,
{
}

/// An ant's turn keeps the world well formed and its setup unchanged.
pub proof fn lemma_ant_turn(w: World, i: int)
    requires
        w.wf(),
        0 <= i < w.ants.len(),
    ensures
        w.ant_turn(i).wf(),
        w.ant_turn(i).same_setup(w),
{
    let n = w.ant_turn(i);
    let p = w.ants[i].position;
    lemma_moved_inside(p, w.grid_type, crate::direction::Direction::North, w.width, w.height);
    let c = w.cells[p.x as int][p.y as int];
    assert(w.knows(i, c));
    assert forall|x: int| 0 <= x < MAX_CELL_COUNT implies #[trigger] n.cells[x].len() == MAX_CELL_COUNT by {
    }
    assert forall|a: int|
        0 <= a < n.ants.len() implies {
            &&& (#[trigger] n.ants[a]).instruction < n.rules.len()
            &&& n.ants[a].position.x < MAX_CELL_COUNT
            &&& n.ants[a].position.y < MAX_CELL_COUNT
        } by {
        if a == i {
            let rule = w.rules[w.ants[i].instruction as int][c];
            match rule.1 {
                Some(d) => {
                    lemma_moved_inside(p, w.grid_type, d, w.width, w.height);
                },
                None => {},
            }
        }
    }
    assert forall|a: int, b: int, k: u8|
        0 <= a < n.ants.len() && 0 <= b < n.ants.len() && n.knows(a, k) implies n.knows(
            b,
            n.paint(a, k),
        ) by {
        assert(n.ants[a].instruction == w.ants[a].instruction);
        assert(n.ants[b].instruction == w.ants[b].instruction);
        assert(w.knows(a, k));
        assert(w.knows(b, w.paint(a, k)));
    }
    assert forall|b: int, x: int, y: int|
        0 <= b < n.ants.len() && 0 <= x < MAX_CELL_COUNT && 0 <= y < MAX_CELL_COUNT implies #[trigger] n.knows(
            b,
            n.cells[x][y],
        ) by {
        assert(n.ants[b].instruction == w.ants[b].instruction);
        if x == p.x && y == p.y {
            assert(n.cells[x][y] == w.paint(i, c));
            assert(w.knows(b, w.paint(i, c)));
        } else {
            assert(n.cells[x][y] == w.cells[x][y]);
            assert(w.knows(b, w.cells[x][y]));
        }
    }
}

/// Any number of turns keeps the world well formed and its setup unchanged.
pub proof fn lemma_turns(w: World, k: nat)
    requires
        w.wf(),
        k <= w.ants.len(),
    ensures
        w.turns(k).wf(),
        w.turns(k).same_setup(w),
    decreases k,
{
    if k > 0 {
        lemma_turns(w, (k - 1) as nat);
        lemma_ant_turn(w.turns((k - 1) as nat), k - 1);
    }
}

/// Any number of generations keeps the world well formed and its setup unchanged.
pub proof fn lemma_run_wf(w: World, n: nat)
    requires
        w.wf(),
    ensures
        w.run(n).wf(),
        w.run(n).same_setup(w),
    decreases n,
{
    if n > 0 {
        lemma_run_wf(w, (n - 1) as nat);
        lemma_turns(w.run((n - 1) as nat), w.run((n - 1) as nat).ants.len());
    }
}

/// A turn changes nothing of the setup.
pub proof fn lemma_ant_turn_setup(w: World, i: int)
    requires
        0 <= i < w.ants.len(),
    ensures
        w.ant_turn(i).same_setup(w),
{
}

/// Generations change nothing of the setup.
pub proof fn lemma_run_setup(w: World, n: nat)
    ensures
        w.run(n).same_setup(w),
    decreases n,
{
    if n > 0 {
        lemma_run_setup(w, (n - 1) as nat);
        let v = w.run((n - 1) as nat);
        lemma_turns_setup(v, v.ants.len());
    }
}

proof fn lemma_turns_setup(w: World, k: nat)
    requires
        k <= w.ants.len(),
    ensures
        w.turns(k).same_setup(w),
    decreases k,
{
    if k > 0 {
        lemma_turns_setup(w, (k - 1) as nat);
        lemma_ant_turn_setup(w.turns((k - 1) as nat), k - 1);
    }
}

/// Two worlds with the same setup start from the same world.
pub proof fn lemma_same_setup_start(v: World, w: World)
    requires
        v.same_setup(w),
    ensures
        v.at_start() == w.at_start(),
{
    assert(ants_at_start(v.ants) =~= ants_at_start(w.ants));
}

/// A world at its start starts from itself.
pub proof fn lemma_start_idempotent(w: World)
    ensures
        w.at_start().at_start() == w.at_start(),
{
    assert(ants_at_start(ants_at_start(w.ants)) =~= ants_at_start(w.ants));
}

/// Running `a` generations and then `b` more is running `a + b` generations.
pub proof fn lemma_run_add(w: World, a: nat, b: nat)
    ensures
        w.run(a).run(b) == w.run(a + b),
    decreases b,
{
    if b > 0 {
        lemma_run_add(w, a, (b - 1) as nat);
    }
}

/// A well formed world has every ant ready for its turn.
proof fn lemma_wf_can_turn(w: World, i: int)
    requires
        w.wf(),
        0 <= i < w.ants.len(),
    ensures
        w.can_turn(i),
{
    let p = w.ants[i].position;
    assert(w.knows(i, w.cells[p.x as int][p.y as int]));
}

/// A well formed world can have the first `k` turns of a generation.
proof fn lemma_wf_turns_ok(w: World, k: nat)
    requires
        w.wf(),
        k <= w.ants.len(),
    ensures
        w.turns_ok(k),
    decreases k,
{
    if k > 0 {
        lemma_wf_turns_ok(w, (k - 1) as nat);
        lemma_turns(w, (k - 1) as nat);
        lemma_wf_can_turn(w.turns((k - 1) as nat), k - 1);
    }
}

/// A well formed world can be run for any number of generations.
pub proof fn lemma_wf_runs_ok(w: World, n: nat)
    requires
        w.wf(),
    ensures
        w.runs_ok(n),
    decreases n,
{
    if n > 0 {
        lemma_wf_runs_ok(w, (n - 1) as nat);
        lemma_run_wf(w, (n - 1) as nat);
        let v = w.run((n - 1) as nat);
        lemma_wf_turns_ok(v, v.ants.len());
    }
}

/// Turns keep the number of ants.
proof fn lemma_turns_len(w: World, k: nat)
    requires
        k <= w.ants.len(),
    ensures
        w.turns(k).ants.len() == w.ants.len(),
    decreases k,
{
    if k > 0 {
        lemma_turns_len(w, (k - 1) as nat);
    }
}

/// Where the first `k` turns can be had, so can the first `m`, for `m` up to `k`.
pub proof fn lemma_turns_ok_prefix(w: World, k: nat, m: nat)
    requires
        w.turns_ok(k),
        m <= k <= w.ants.len(),
    ensures
        w.turns_ok(m),
        m < k ==> w.turns(m).can_turn(m as int),
        w.turns(m).ants.len() == w.ants.len(),
    decreases k - m,
{
    lemma_turns_len(w, m);
    if m < k {
        lemma_turns_ok_prefix(w, k, m + 1);
    }
}

/// Where `n` generations can be run, so can the first `m`, for `m` up to `n`.
pub proof fn lemma_runs_ok_prefix(w: World, n: nat, m: nat)
    requires
        w.runs_ok(n),
        m <= n,
    ensures
        w.runs_ok(m),
        m < n ==> w.run(m).tick_ok(),
    decreases n - m,
{
    if m < n {
        lemma_runs_ok_prefix(w, n, m + 1);
    }
}

/// `a + b` generations can be run exactly when `a` can, and then `b` more.
pub proof fn lemma_runs_ok_add(w: World, a: nat, b: nat)
    ensures
        w.runs_ok(a + b) == (w.runs_ok(a) && w.run(a).runs_ok(b)),
    decreases b,
{
    if b > 0 {
        lemma_runs_ok_add(w, a, (b - 1) as nat);
        lemma_run_add(w, a, (b - 1) as nat);
    }
}

/// A move from inside the part of the field in use stays inside it.
pub proof fn lemma_moved_within(p: Position, grid_type: GridType, d: crate::direction::Direction, width: usize, height: usize)
    requires
        p.x < width,
        p.y < height,
    ensures
        moved(p, grid_type, d, width, height).x < width,
        moved(p, grid_type, d, width, height).y < height,
{
    vstd::arithmetic::div_mod::lemma_mod_pos_bound(p.x + 1, width as int);
    vstd::arithmetic::div_mod::lemma_mod_pos_bound(p.y + 1, height as int);
    vstd::arithmetic::div_mod::lemma_mod_add_multiples_vanish(-1, width as int);
    vstd::arithmetic::div_mod::lemma_mod_pos_bound(width - 1, width as int);
    if p.x > 0 {
        vstd::arithmetic::div_mod::lemma_mod_pos_bound(p.x - 1, width as int);
    }
    assert(wrap(p.x - 1, width) < width);
    assert(wrap(p.x + 1, width) < width);
}

/// A turn keeps the ants inside the part of the field in use and the colours within
/// `keys`.
proof fn lemma_ant_turn_inside(w: World, keys: Set<u8>, i: int)
    requires
        w.shaped(),
        w.ants_inside(),
        w.colours_within(keys),
        0 <= i < w.ants.len(),
    ensures
        w.can_turn(i),
        w.ant_turn(i).shaped(),
        w.ant_turn(i).ants_inside(),
        w.ant_turn(i).colours_within(keys),
{
    let n = w.ant_turn(i);
    let ant = w.ants[i];
    let p = ant.position;
    let c = w.cells[p.x as int][p.y as int];
    assert(keys.contains(c));
    assert(w.rules[ant.instruction as int].contains_key(c));
    assert(keys.contains(w.rules[ant.instruction as int][c].0));
    match w.rules[ant.instruction as int][c].1 {
        Some(d) => lemma_moved_within(p, w.grid_type, d, w.width, w.height),
        None => {},
    }
    assert forall|x: int| 0 <= x < MAX_CELL_COUNT implies #[trigger] n.cells[x].len() == MAX_CELL_COUNT by {}
    assert forall|a: int|
        0 <= a < n.ants.len() implies {
            &&& (#[trigger] n.ants[a]).instruction < n.rules.len()
            &&& n.ants[a].position.x < n.width
            &&& n.ants[a].position.y < n.height
        } by {}
    assert forall|x: int, y: int|
        0 <= x < MAX_CELL_COUNT && 0 <= y < MAX_CELL_COUNT implies keys.contains(#[trigger] n.cells[x][y]) by {
        if x != p.x || y != p.y {
            assert(n.cells[x][y] == w.cells[x][y]);
        }
    }
}

/// Turns keep the ants inside the part of the field in use and the colours within `keys`.
proof fn lemma_turns_inside(w: World, keys: Set<u8>, k: nat)
    requires
        w.shaped(),
        w.ants_inside(),
        w.colours_within(keys),
        k <= w.ants.len(),
    ensures
        w.turns_ok(k),
        w.turns(k).shaped(),
        w.turns(k).ants_inside(),
        w.turns(k).colours_within(keys),
        w.turns(k).ants.len() == w.ants.len(),
    decreases k,
{
    if k > 0 {
        lemma_turns_inside(w, keys, (k - 1) as nat);
        lemma_ant_turn_inside(w.turns((k - 1) as nat), keys, k - 1);
    }
}

/// Ants that start inside the part of the field in use, on a field whose colours stay
/// within a set `keys` that every rule set knows and paints within, never fail a turn, stay
/// inside the part of the field in use, and leave the colours within `keys`.
pub proof fn lemma_stays_inside(w: World, keys: Set<u8>, n: nat)
    requires
        w.shaped(),
        w.ants_inside(),
        w.colours_within(keys),
    ensures
        w.runs_ok(n),
        w.run(n).shaped(),
        w.run(n).ants_inside(),
        w.run(n).colours_within(keys),
    decreases n,
{
    if n > 0 {
        lemma_stays_inside(w, keys, (n - 1) as nat);
        let v = w.run((n - 1) as nat);
        lemma_turns_inside(v, keys, v.ants.len());
    }
}

/// One ant's turn: the cell it stands on takes the colour its rule paints over the cell's
/// colour, and no other cell changes; then, if the rule has a turn, the ant turns and steps
/// on as [`moved`] says, keeping its start and rule set, and otherwise stays as it is; no
/// other ant, rule set, size or grid kind changes.
pub proof fn lemma_ant_turn_effect(w: World, i: int)
    requires
        0 <= i < w.ants.len(),
        w.can_turn(i),
    ensures
        ({
            let a = w.ants[i];
            let p = a.position;
            let c = w.cells[p.x as int][p.y as int];
            let rule = w.rules[a.instruction as int][c];
            let v = w.ant_turn(i);
            &&& v.cells.len() == w.cells.len()
            &&& forall|x: int| 0 <= x < w.cells.len() ==> #[trigger] v.cells[x].len() == w.cells[x].len()
            &&& v.cells[p.x as int][p.y as int] == rule.0
            &&& v.cell(p.x as int, p.y as int) == rule.0
            &&& w.cell(p.x as int, p.y as int) == c
            &&& forall|x: int, y: int|
                0 <= x < w.cells.len() && 0 <= y < w.cells[x].len() && (x != p.x || y != p.y)
                    ==> #[trigger] v.cells[x][y] == w.cells[x][y]
            &&& v.ants.len() == w.ants.len()
            &&& forall|j: int| 0 <= j < w.ants.len() && j != i ==> #[trigger] v.ants[j] == w.ants[j]
            &&& v.ants[i].start_position == a.start_position
            &&& v.ants[i].instruction == a.instruction
            &&& rule.1 is None ==> v.ants[i].position == p
            &&& rule.1 matches Some(d) ==> v.ants[i].position == moved(p, w.grid_type, d, w.width, w.height)
            &&& v.rules == w.rules && v.width == w.width && v.height == w.height && v.grid_type == w.grid_type
        }),
{
}

/// The ants take their turns in order: where the first two of two ants stand on one cell,
/// the second reads the colour the first painted, so after a generation the cell has the
/// colour the second ant's rule paints over the first ant's paint.
pub proof fn lemma_turn_order(w: World)
    requires
        w.ants.len() == 2,
        w.ants[0].position == w.ants[1].position,
        w.tick_ok(),
    ensures
        ({
            let p = w.ants[0].position;
            let c = w.cells[p.x as int][p.y as int];
            let first = w.rules[w.ants[0].instruction as int][c].0;
            w.tick().cells[p.x as int][p.y as int] == w.rules[w.ants[1].instruction as int][first].0
        }),
{
    lemma_turns_ok_prefix(w, 2, 0);
    lemma_turns_ok_prefix(w, 2, 1);
    let v = w.turns(1);
    assert(v == w.ant_turn(0));
    lemma_ant_turn_effect(w, 0);
    lemma_ant_turn_effect(v, 1);
    assert(w.tick() == v.ant_turn(1));
}

} // verus!
