use vstd::prelude::*;

use std::collections::BTreeMap;
use vstd::std_specs::iter::IteratorSpec;

use crate::ant::{first_ant, Ant, Position, MAX_CELL_COUNT};
use crate::direction::{next_direction, next_turn, prev_direction, prev_turn, Direction, GridType};
use crate::instruction::{default_rules, Instruction, Rule};
use crate::replay::stands_on;
use crate::world::{
    ants_at_start, blank_cells, lemma_runs_ok_prefix, lemma_turns_ok_prefix, lemma_wf_runs_ok, World,
};

verus! {

/// Every this many generations, `step` keeps a copy of the world to go back to.
pub const SNAPSHOT_INTERVAL: usize = 100_000;

/// The colours of the cells, and the size of the part in use. The storage always holds
/// [`MAX_CELL_COUNT`] columns of [`MAX_CELL_COUNT`] cells.
#[derive(Debug)]
pub(crate) struct Field {
    pub(crate) width: usize,
    pub(crate) height: usize,
    pub(crate) values: Vec<[u8; 1024]>,
}

impl Field {
    /// The storage holds [`MAX_CELL_COUNT`] columns, whatever the size of the part in use;
    /// each column holds [`MAX_CELL_COUNT`] cells by its type.
    #[verifier::type_invariant]
    spec fn full(self) -> bool {
        self.values@.len() == MAX_CELL_COUNT
    }

    /// The colours as mathematics, indexed by column, then row.
    pub(crate) open spec fn cells(&self) -> Seq<Seq<u8>> {
        self.values@.map_values(|row: [u8; 1024]| row@)
    }

    /// The storage holds [`MAX_CELL_COUNT`] × [`MAX_CELL_COUNT`] cells.
    pub(crate) fn check_full(&self)
        ensures
            self.values@.len() == MAX_CELL_COUNT,
            self.cells().len() == MAX_CELL_COUNT,
            forall|x: int| 0 <= x < MAX_CELL_COUNT ==> (#[trigger] self.cells()[x]).len() == MAX_CELL_COUNT,
    {
        proof {
            use_type_invariant(self);
            assert forall|x: int| 0 <= x < MAX_CELL_COUNT implies (#[trigger] self.cells()[x]).len() == MAX_CELL_COUNT by {
                assert(self.cells()[x] == self.values@[x]@);
            }
        }
    }

    /// Paints cell (`x`, `y`) with colour `colour`.
    pub(crate) fn paint(&mut self, x: usize, y: usize, colour: u8)
        requires
            x < MAX_CELL_COUNT,
            y < MAX_CELL_COUNT,
        ensures
            final(self).cells() == old(self).cells().update(x as int, old(self).cells()[x as int].update(y as int, colour)),
            final(self).width == old(self).width,
            final(self).height == old(self).height,
    {
        proof {
            use_type_invariant(&*self);
        }
        self.values[x][y] = colour;
        assert(self.cells() =~= old(self).cells().update(x as int, old(self).cells()[x as int].update(y as int, colour)));
    }

    /// A field of `width` × `height` cells in use, all of colour 0.
    pub(crate) fn blank(width: usize, height: usize) -> (f: Field)
        ensures
            f.cells() == blank_cells(),
            f.width == width,
            f.height == height,
    {
        let mut values: Vec<[u8; 1024]> = Vec::new();
        let row: [u8; 1024] = [0u8; 1024];
        assert(row@ =~= Seq::new(MAX_CELL_COUNT as nat, |y: int| 0u8));
        let mut x: usize = 0;
        while x < MAX_CELL_COUNT
            invariant
                x <= MAX_CELL_COUNT,
                values@.len() == x,
                row@ == Seq::new(MAX_CELL_COUNT as nat, |y: int| 0u8),
                forall|i: int| 0 <= i < x ==> (#[trigger] values@[i]) == row,
            decreases MAX_CELL_COUNT - x,
        {
            values.push(row);
            x = x + 1;
        }
        let f = Field { width, height, values };
        assert(f.cells() =~= blank_cells());
        f
    }

    /// A copy of the field with the same colours and size.
    pub(crate) fn duplicate(&self) -> (f: Field)
        ensures
            f.cells() == self.cells(),
            f.width == self.width,
            f.height == self.height,
    {
        proof {
            use_type_invariant(self);
        }
        let mut values: Vec<[u8; 1024]> = Vec::new();
        let mut x: usize = 0;
        while x < MAX_CELL_COUNT
            invariant
                x <= MAX_CELL_COUNT,
                self.values@.len() == MAX_CELL_COUNT,
                values@.len() == x,
                forall|i: int| 0 <= i < x ==> (#[trigger] values@[i]) == self.values@[i],
            decreases MAX_CELL_COUNT - x,
        {
            values.push(self.values[x]);
            x = x + 1;
        }
        assert(values@ =~= self.values@);
        Field { width: self.width, height: self.height, values }
    }
}

impl Clone for Field {
    /// A copy of the field with the same colours and size.
    fn clone(&self) -> (f: Field) {
        self.duplicate()
    }
}

/// The parts of a world as the program holds them, as mathematics.
pub(crate) open spec fn world_of(
    field: Field,
    ants: Seq<Ant>,
    instructions: Seq<Instruction>,
    grid_type: GridType,
) -> World {
    World {
        cells: field.cells(),
        width: field.width,
        height: field.height,
        ants,
        rules: instructions.map_values(|i: Instruction| i.map@),
        grid_type,
    }
}

/// A copy of the world at some generation.
#[derive(Debug, Clone)]
pub(crate) struct Snapshot {
    pub(crate) field: Field,
    pub(crate) ants: Vec<Ant>,
    pub(crate) instructions: Vec<Instruction>,
    pub(crate) grid_type: GridType,
}

impl Snapshot {
    pub(crate) open spec fn world(&self) -> World {
        world_of(self.field, self.ants@, self.instructions@, self.grid_type)
    }

    pub(crate) fn duplicate(&self) -> (s: Snapshot)
        ensures
            s.world() == self.world(),
    {
        Snapshot {
            field: self.field.duplicate(),
            ants: copy_ants(&self.ants),
            instructions: copy_instructions(&self.instructions),
            grid_type: self.grid_type,
        }
    }
}

fn copy_ants(ants: &Vec<Ant>) -> (r: Vec<Ant>)
    ensures
        r@ == ants@,
{
    let mut r: Vec<Ant> = Vec::new();
    let mut i: usize = 0;
    while i < ants.len()
        invariant
            i <= ants@.len(),
            r@ == ants@.subrange(0, i as int),
        decreases ants@.len() - i,
    {
        r.push(ants[i]);
        i = i + 1;
    }
    assert(r@ =~= ants@);
    r
}

fn copy_instructions(instructions: &Vec<Instruction>) -> (r: Vec<Instruction>)
    ensures
        r@.map_values(|i: Instruction| i.map@) == instructions@.map_values(|i: Instruction| i.map@),
{
    let mut r: Vec<Instruction> = Vec::new();
    let mut j: usize = 0;
    while j < instructions.len()
        invariant
            j <= instructions@.len(),
            r@.len() == j,
            forall|k: int| 0 <= k < j ==> (#[trigger] r@[k]).map@ == instructions@[k].map@,
        decreases instructions@.len() - j,
    {
        r.push(instructions[j].duplicate());
        j = j + 1;
    }
    assert(r@.map_values(|i: Instruction| i.map@) =~= instructions@.map_values(|i: Instruction| i.map@));
    r
}

/// Every ant of `ants` moved back to where it started.
fn starts_of(ants: &Vec<Ant>) -> (r: Vec<Ant>)
    ensures
        r@ == ants_at_start(ants@),
{
    let mut r: Vec<Ant> = Vec::new();
    let mut i: usize = 0;
    while i < ants.len()
        invariant
            i <= ants@.len(),
            r@.len() == i,
            forall|j: int| 0 <= j < i ==> #[trigger] r@[j] == crate::world::ant_at_start(ants@[j]),
        decreases ants@.len() - i,
    {
        let mut ant = ants[i];
        ant.position = ant.start_position;
        r.push(ant);
        i = i + 1;
    }
    assert(r@ =~= ants_at_start(ants@));
    r
}

/// Forgets the copies kept of generation `step` and later.
fn forget_from(snapshots: &mut BTreeMap<usize, Snapshot>, step: usize)
    ensures
        final(snapshots)@ == old(snapshots)@.restrict(Set::new(|j: usize| j < step)),
{
    broadcast use vstd::seq_lib::group_seq_properties;

    let mut doomed: Vec<usize> = Vec::new();
    proof {
        vstd::std_specs::btree::axiom_spec_keys_iter(snapshots);
    }
    for k in it: snapshots.keys()
        invariant
            forall|i: int| 0 <= i < it.index() && *it.seq()[i] >= step ==> doomed@.contains(*it.seq()[i]),
            forall|i: int| 0 <= i < doomed@.len() ==> doomed@[i] >= step,
    {
        let ghost before = doomed@;
        let key = *k;
        assert(key == *it.seq()[it.index()]);
        if key >= step {
            doomed.push(key);
            proof {
                assert forall|x: usize| before.contains(x) implies doomed@.contains(x) by {
                    let j = choose|j: int| 0 <= j < before.len() && before[j] == x;
                    assert(doomed@[j] == x);
                }
                assert(doomed@[before.len() as int] == key);
            }
        }
    }
    let ghost old_map = snapshots@;
    assert forall|k: usize| old_map.contains_key(k) && k >= step implies doomed@.contains(k) by {
        let keys = vstd::std_specs::btree::spec_keys_iter(snapshots).remaining();
        assert(keys.unref().to_set().contains(k));
        let i = choose|i: int| 0 <= i < keys.unref().len() && keys.unref()[i] == k;
        assert(*keys[i] == k);
    }
    let mut d: usize = 0;
    while d < doomed.len()
        invariant
            d <= doomed@.len(),
            forall|k: usize| #[trigger] snapshots@.contains_key(k) == (old_map.contains_key(k) && forall|j: int| 0 <= j < d ==> doomed@[j] != k),
            forall|k: usize| #[trigger] snapshots@.contains_key(k) ==> snapshots@[k] == old_map[k],
        decreases doomed@.len() - d,
    {
        let key = doomed[d];
        snapshots.remove(&key);
        d = d + 1;
    }
    assert forall|k: usize| #[trigger] snapshots@.contains_key(k) == (old_map.contains_key(k) && k < step) by {
        if old_map.contains_key(k) && k >= step {
            let j = choose|j: int| 0 <= j < doomed@.len() && doomed@[j] == k;
        }
    }
    assert(snapshots@ =~= old_map.restrict(Set::new(|j: usize| j < step)));
}

/// The rules of the ants `ants` and the rule sets `instructions` are those of world `w`.
pub(crate) open spec fn rules_of(w: World, ants: Seq<Ant>, instructions: Seq<Instruction>) -> bool {
    &&& w.ants == ants
    &&& w.rules == instructions.map_values(|i: Instruction| i.map@)
    &&& forall|k: int| 0 <= k < ants.len() ==> (#[trigger] ants[k]).instruction < instructions.len()
}

/// Whether the rule set of ant `j` has a rule for colour `colour`.
fn ant_knows(ants: &Vec<Ant>, instructions: &Vec<Instruction>, j: usize, colour: u8, w: Ghost<World>) -> (r: bool)
    requires
        rules_of(w@, ants@, instructions@),
        j < ants@.len(),
    ensures
        r == w@.knows(j as int, colour),
{
    let ant = ants[j];
    match instructions[ant.instruction].rule(colour) {
        Some(_) => true,
        None => false,
    }
}

/// Whether every colour that the rules of ant `i` paint has a rule in the rule set of every
/// ant.
fn paints_known(ants: &Vec<Ant>, instructions: &Vec<Instruction>, i: usize, w: Ghost<World>) -> (r: bool)
    requires
        rules_of(w@, ants@, instructions@),
        i < ants@.len(),
    ensures
        r == (forall|j: int, c: u8|
            0 <= j < ants@.len() && w@.knows(i as int, c) ==> w@.knows(j, w@.paint(i as int, c))),
{
    let n = ants.len();
    let ant = ants[i];
    let mut c: usize = 0;
    while c < 256
        invariant
            c <= 256,
            n == ants@.len(),
            i < n,
            rules_of(w@, ants@, instructions@),
            ant == ants@[i as int],
            forall|j: int, k: u8|
                0 <= j < n && k < c && w@.knows(i as int, k) ==> w@.knows(j, w@.paint(i as int, k)),
        decreases 256 - c,
    {
        let colour = c as u8;
        match instructions[ant.instruction].rule(colour) {
            Some((paint, _)) => {
                let mut j: usize = 0;
                while j < n
                    invariant
                        j <= n,
                        n == ants@.len(),
                        rules_of(w@, ants@, instructions@),
                        w@.knows(i as int, colour),
                        paint == w@.paint(i as int, colour),
                        forall|l: int| 0 <= l < j ==> w@.knows(l, paint),
                    decreases n - j,
                {
                    if !ant_knows(ants, instructions, j, paint, w) {
                        assert(!w@.knows(j as int, w@.paint(i as int, colour)));
                        return false;
                    }
                    j = j + 1;
                }
            },
            None => {},
        }
        c = c + 1;
    }
    true
}

/// Whether the rule set of every ant has a rule for colour `c`, for each colour `c`.
fn known_by_all(ants: &Vec<Ant>, instructions: &Vec<Instruction>, w: Ghost<World>) -> (known: Vec<bool>)
    requires
        rules_of(w@, ants@, instructions@),
    ensures
        known@.len() == 256,
        forall|c: u8| #[trigger] known@[c as int] == (forall|j: int| 0 <= j < ants@.len() ==> w@.knows(j, c)),
{
    let n = ants.len();
    let mut known: Vec<bool> = Vec::new();
    let mut c: usize = 0;
    while c < 256
        invariant
            c <= 256,
            n == ants@.len(),
            rules_of(w@, ants@, instructions@),
            known@.len() == c,
            forall|k: u8| k < c ==> #[trigger] known@[k as int] == (forall|j: int| 0 <= j < n ==> w@.knows(j, k)),
        decreases 256 - c,
    {
        let colour = c as u8;
        let mut all = true;
        let mut j: usize = 0;
        while j < n
            invariant
                j <= n,
                n == ants@.len(),
                rules_of(w@, ants@, instructions@),
                all == (forall|l: int| 0 <= l < j ==> w@.knows(l, colour)),
            decreases n - j,
        {
            if !ant_knows(ants, instructions, j, colour, w) {
                all = false;
            }
            j = j + 1;
        }
        known.push(all);
        assert(known@[colour as int] == all);
        c = c + 1;
    }
    known
}

/// Whether the part of `field` in use is a non-empty part of its storage.
fn field_shaped(field: &Field, w: Ghost<World>) -> (r: bool)
    requires
        w@.cells == field.cells(),
        w@.width == field.width,
        w@.height == field.height,
    ensures
        r == w@.shaped(),
{
    if field.width == 0 || field.width > MAX_CELL_COUNT || field.height == 0 || field.height
        > MAX_CELL_COUNT {
        return false;
    }
    field.check_full();
    true
}

/// Whether a world with `field`, `ants` and `instructions` can run: every ant stands inside
/// the storage and follows a rule set that exists, and no ant ever meets a colour without a
/// rule.
fn parts_runnable(field: &Field, ants: &Vec<Ant>, instructions: &Vec<Instruction>, w: Ghost<World>) -> (r: bool)
    requires
        w@ == world_of(*field, ants@, instructions@, w@.grid_type),
    ensures
        r == w@.wf(),
{
    if !field_shaped(field, w) {
        return false;
    }
    let n = ants.len();
    let mut i: usize = 0;
    while i < n
        invariant
            i <= n,
            n == ants@.len(),
            w@ == world_of(*field, ants@, instructions@, w@.grid_type),
            forall|k: int| 0 <= k < i ==> {
                &&& (#[trigger] ants@[k]).instruction < instructions@.len()
                &&& ants@[k].position.x < MAX_CELL_COUNT
                &&& ants@[k].position.y < MAX_CELL_COUNT
            },
        decreases n - i,
    {
        let ant = ants[i];
        if ant.instruction >= instructions.len() || ant.position.x >= MAX_CELL_COUNT || ant.position.y >= MAX_CELL_COUNT {
            assert(!w@.ants_placed()) by {
                assert(w@.ants[i as int] == ant);
            }
            return false;
        }
        i = i + 1;
    }
    assert(w@.ants_placed());
    assert(rules_of(w@, ants@, instructions@));
    let mut a: usize = 0;
    while a < n
        invariant
            a <= n,
            n == ants@.len(),
            rules_of(w@, ants@, instructions@),
            forall|b: int, j: int, c: u8|
                0 <= b < a && 0 <= j < n && w@.knows(b, c) ==> w@.knows(j, w@.paint(b, c)),
        decreases n - a,
    {
        if !paints_known(ants, instructions, a, w) {
            proof {
                let (j, c) = choose|j: int, c: u8| 0 <= j < n && w@.knows(a as int, c) && !w@.knows(j, w@.paint(a as int, c));
                assert(!w@.palette_closed());
            }
            return false;
        }
        a = a + 1;
    }
    let known = known_by_all(ants, instructions, w);
    let mut x: usize = 0;
    while x < MAX_CELL_COUNT
        invariant
            x <= MAX_CELL_COUNT,
            w@ == world_of(*field, ants@, instructions@, w@.grid_type),
            w@.shaped(),
            rules_of(w@, ants@, instructions@),
            known@.len() == 256,
            forall|c: u8| #[trigger] known@[c as int] == (forall|j: int| 0 <= j < ants@.len() ==> w@.knows(j, c)),
            forall|j: int, xx: int, y: int|
                0 <= j < ants@.len() && 0 <= xx < x && 0 <= y < MAX_CELL_COUNT ==> #[trigger] w@.knows(j, w@.cells[xx][y]),
        decreases MAX_CELL_COUNT - x,
    {
        let row = &field.values[x];
        assert(row@ == w@.cells[x as int]);
        let mut y: usize = 0;
        while y < MAX_CELL_COUNT
            invariant
                y <= MAX_CELL_COUNT,
                x < MAX_CELL_COUNT,
                row@ == w@.cells[x as int],
                rules_of(w@, ants@, instructions@),
                w@.shaped(),
                known@.len() == 256,
                forall|c: u8| #[trigger] known@[c as int] == (forall|j: int| 0 <= j < ants@.len() ==> w@.knows(j, c)),
                forall|j: int, xx: int, yy: int|
                    0 <= j < ants@.len() && 0 <= xx < x && 0 <= yy < MAX_CELL_COUNT ==> #[trigger] w@.knows(j, w@.cells[xx][yy]),
                forall|j: int, yy: int|
                    0 <= j < ants@.len() && 0 <= yy < y ==> #[trigger] w@.knows(j, w@.cells[x as int][yy]),
            decreases MAX_CELL_COUNT - y,
        {
            let colour = row[y];
            if !known[colour as usize] {
                proof {
                    assert(known@[colour as int] == known@[colour as usize as int]);
                    assert(!(forall|j: int| 0 <= j < ants@.len() ==> w@.knows(j, colour)));
                    let j = choose|j: int| 0 <= j < ants@.len() && !w@.knows(j, colour);
                    assert(!w@.knows(j, w@.cells[x as int][y as int]));
                    assert(!w@.palette_closed());
                }
                return false;
            }
            y = y + 1;
        }
        x = x + 1;
    }
    true
}

/// The simulation: the world now, how many generations it has run, and the copies of the
/// world that were kept on the way.
#[derive(Debug, Clone)]
pub struct State {
    snapshots: BTreeMap<usize, Snapshot>,
    generation: usize,
    pub ants: Vec<Ant>,
    field: Field,
    pub instructions: Vec<Instruction>,
    pub grid_type: GridType,
}

/// A state as mathematics.
pub struct StateView {
    pub generation: nat,
    pub world: World,
    pub snapshots: Map<usize, World>,
}

impl View for State {
    type V = StateView;

    closed spec fn view(&self) -> StateView {
        StateView {
            generation: self.generation as nat,
            world: world_of(self.field, self.ants@, self.instructions@, self.grid_type),
            snapshots: self.snapshots@.map_values(|s: Snapshot| s.world()),
        }
    }
}

/// `snapshots` after `n` generations of `w`, which started at generation `g`: each
/// generation that is a multiple of [`SNAPSHOT_INTERVAL`] keeps the world as it was then.
pub open spec fn recorded(snapshots: Map<usize, World>, w: World, g: nat, n: nat) -> Map<usize, World>
    decreases n,
{
    if n == 0 {
        snapshots
    } else {
        let before = recorded(snapshots, w, g, (n - 1) as nat);
        let at = g + n - 1;
        if at % (SNAPSHOT_INTERVAL as int) == 0 {
            before.insert(at as usize, w.run((n - 1) as nat))
        } else {
            before
        }
    }
}

/// `k` is the latest generation at or before `step` that `snapshots` holds a copy of.
pub open spec fn is_latest(snapshots: Map<usize, World>, step: nat, k: usize) -> bool {
    &&& snapshots.contains_key(k)
    &&& k <= step
    &&& forall|j: usize| #[trigger] snapshots.contains_key(j) && j <= step ==> j <= k
}

/// The latest generation at or before `step` that `snapshots` holds a copy of, if any.
pub open spec fn latest_snapshot(snapshots: Map<usize, World>, step: nat) -> Option<usize> {
    if exists|k: usize| is_latest(snapshots, step, k) {
        Some(choose|k: usize| is_latest(snapshots, step, k))
    } else {
        None
    }
}

/// The state of a new simulation: generation 0, a blank field of 64 × 64 cells, one ant in
/// the middle facing north, the default rule set, a square grid with diagonals, no copies.
pub open spec fn initial_view() -> StateView {
    StateView {
        generation: 0,
        world: World {
            cells: blank_cells(),
            width: 64,
            height: 64,
            ants: seq![first_ant()],
            rules: seq![default_rules()],
            grid_type: GridType::SquareDiagonal,
        },
        snapshots: Map::empty(),
    }
}

/// The first multiple of [`SNAPSHOT_INTERVAL`] after generation `g`.
pub open spec fn next_multiple(g: nat) -> nat {
    (g / (SNAPSHOT_INTERVAL as nat) + 1) * (SNAPSHOT_INTERVAL as nat)
}

/// The rule set added for a palette of `palette_len` colours (counted in bytes).
pub open spec fn new_rules(palette_len: usize) -> Map<u8, Rule> {
    Map::new(|c: u8| c < palette_len % 256, |c: u8| (0u8, None::<Direction>)).insert(
        0u8,
        (1u8, Some(Direction::East)),
    ).insert(1u8, (0u8, Some(Direction::West)))
}

/// The next kept generation after `g` is the least multiple of [`SNAPSHOT_INTERVAL`]
/// strictly after `g`: it is after `g`, a multiple, and no more than one interval later.
pub proof fn lemma_next_multiple(g: nat)
    ensures
        next_multiple(g) > g,
        next_multiple(g) % (SNAPSHOT_INTERVAL as nat) == 0,
        next_multiple(g) <= g + SNAPSHOT_INTERVAL,
{
    let p = SNAPSHOT_INTERVAL as int;
    let q = g as int / p;
    vstd::arithmetic::div_mod::lemma_fundamental_div_mod(g as int, p);
    vstd::arithmetic::div_mod::lemma_mod_multiples_basic(q + 1, p);
    assert((q + 1) * p == p * q + p) by (nonlinear_arith);
}

/// Whether some ant of `ants` started at cell (`x`, `y`).
pub open spec fn started_at(ants: Seq<Ant>, x: usize, y: usize) -> bool {
    exists|i: int| 0 <= i < ants.len() && (#[trigger] ants[i]).start_position.x == x && ants[i].start_position.y == y
}

/// Whether ant `i` of `ants` stands on cell (`x`, `y`) and no ant before it does.
pub open spec fn first_at(ants: Seq<Ant>, x: usize, y: usize, i: int) -> bool {
    &&& 0 <= i < ants.len()
    &&& ants[i].position.x == x
    &&& ants[i].position.y == y
    &&& forall|j: int| 0 <= j < i ==> !((#[trigger] ants[j]).position.x == x && ants[j].position.y == y)
}

impl StateView {
    /// The state with `world` in place of its world.
    pub open spec fn with_world(self, world: World) -> StateView {
        StateView { generation: self.generation, world, snapshots: self.snapshots }
    }

    /// The state with `ants` in place of its ants.
    pub open spec fn with_ants(self, ants: Seq<Ant>) -> StateView {
        self.with_world(World { ants, ..self.world })
    }

    /// The state after adding an ant at cell (`x` mod width, `y` mod height), facing north,
    /// following rule set `instruction` mod the number of rule sets; unchanged when an ant
    /// already started at that cell.
    pub open spec fn ant_added(self, x: usize, y: usize, instruction: usize) -> StateView {
        let x0 = (x % self.world.width) as usize;
        let y0 = (y % self.world.height) as usize;
        if started_at(self.world.ants, x0, y0) {
            self
        } else {
            let p = Position { x: x0, y: y0, orientation: Direction::North };
            self.with_ants(
                self.world.ants.push(
                    Ant {
                        start_position: p,
                        instruction: (instruction as int % self.world.rules.len() as int) as usize,
                        position: p,
                    },
                ),
            )
        }
    }

    /// The state with the part of the field in use `width` wide, and ant `i` starting in
    /// column `start_xs[i]`.
    pub open spec fn widened(self, width: usize, start_xs: Seq<usize>) -> StateView {
        self.with_world(
            World {
                width,
                ants: Seq::new(
                    self.world.ants.len(),
                    |i: int|
                        Ant {
                            start_position: Position { x: start_xs[i], ..self.world.ants[i].start_position },
                            ..self.world.ants[i]
                        },
                ),
                ..self.world
            },
        )
    }

    /// The state with the part of the field in use `height` high, and ant `i` starting in
    /// row `start_ys[i]`.
    pub open spec fn heightened(self, height: usize, start_ys: Seq<usize>) -> StateView {
        self.with_world(
            World {
                height,
                ants: Seq::new(
                    self.world.ants.len(),
                    |i: int|
                        Ant {
                            start_position: Position { y: start_ys[i], ..self.world.ants[i].start_position },
                            ..self.world.ants[i]
                        },
                ),
                ..self.world
            },
        )
    }

    /// The state with `rules` in place of its rule sets.
    pub open spec fn with_rules(self, rules: Seq<Map<u8, Rule>>) -> StateView {
        self.with_world(World { rules, ..self.world })
    }

    /// The state after a colour was added to a palette that now has `palette_len` colours:
    /// every rule set gets a rule for the new colour (its index counted in bytes) that paints
    /// colour 0 and does not move.
    pub open spec fn colour_added(self, palette_len: usize) -> StateView {
        let c = (palette_len as int % 256 - 1) as u8;
        self.with_rules(
            Seq::new(self.world.rules.len(), |i: int| self.world.rules[i].insert(c, (0u8, None::<Direction>))),
        )
    }

    /// The state after a rule set was added for a palette of `palette_len` colours (counted
    /// in bytes): colour 0 paints 1 and turns east, colour 1 paints 0 and turns west, every
    /// other colour paints 0 and does not move.
    pub open spec fn instruction_added(self, palette_len: usize) -> StateView {
        self.with_rules(self.world.rules.push(new_rules(palette_len)))
    }

    /// The state with ant `index` starting at `start` and following rule set `instruction`.
    pub open spec fn ant_set_up(self, index: int, start: Position, instruction: usize) -> StateView {
        let a = self.world.ants[index];
        self.with_ants(
            self.world.ants.update(index, Ant { start_position: start, instruction, position: a.position }),
        )
    }

    /// The state with the start orientation of ant `index` turned a step anticlockwise
    /// (`backwards`) or clockwise.
    pub open spec fn ant_rotated(self, index: int, backwards: bool) -> StateView {
        let a = self.world.ants[index];
        let by = if backwards { Direction::NorthWest } else { Direction::NorthEast };
        let s = a.start_position;
        self.ant_set_up(
            index,
            Position { x: s.x, y: s.y, orientation: s.orientation.turned(by) },
            a.instruction,
        )
    }

    /// The state with the turn of the rule for `colour` in rule set `index` cycled backwards
    /// or forwards among the turns of the grid, if the rule set has such a rule.
    pub open spec fn turn_rotated(self, index: int, colour: u8, backwards: bool) -> StateView {
        let rules = self.world.rules[index];
        if rules.contains_key(colour) {
            let (paint, turn) = rules[colour];
            let next = if backwards {
                prev_turn(self.world.grid_type, turn)
            } else {
                next_turn(self.world.grid_type, turn)
            };
            self.with_rules(self.world.rules.update(index, rules.insert(colour, (paint, next))))
        } else {
            self
        }
    }

    /// The state with the colour painted by the rule for `colour` in rule set `index` cycled
    /// backwards or forwards through a palette of `palette_len` colours (counted in bytes),
    /// if the rule set has such a rule.
    pub open spec fn paint_rotated(self, index: int, colour: u8, palette_len: usize, backwards: bool) -> StateView {
        let rules = self.world.rules[index];
        if rules.contains_key(colour) {
            let (paint, turn) = rules[colour];
            let n = palette_len as int % 256;
            let next = if backwards {
                if paint == 0 {
                    (n - 1) as u8
                } else {
                    (paint - 1) as u8
                }
            } else {
                ((paint + 1) % n) as u8
            };
            self.with_rules(self.world.rules.update(index, rules.insert(colour, (next, turn))))
        } else {
            self
        }
    }

    /// Whether the paint of the rule for `colour` in rule set `index` can be cycled through a
    /// palette of `palette_len` colours: the palette, counted in bytes, is not empty where
    /// the cycle wraps, and forwards the painted colour is not the last byte.
    pub open spec fn can_rotate_paint(self, index: int, colour: u8, palette_len: usize, backwards: bool) -> bool {
        let rules = self.world.rules[index];
        rules.contains_key(colour) ==> {
            let paint = rules[colour].0;
            if backwards {
                paint == 0 ==> palette_len % 256 != 0
            } else {
                paint < 255 && palette_len % 256 != 0
            }
        }
    }

    /// The state at generation 0: a blank field and every ant where it started; the copies
    /// kept stay.
    pub open spec fn reset(self) -> StateView {
        StateView { generation: 0, world: self.world.at_start(), snapshots: self.snapshots }
    }

    /// Every copy kept can be run from.
    pub open spec fn snapshots_wf(self) -> bool {
        forall|k: usize| #[trigger] self.snapshots.contains_key(k) ==> self.snapshots[k].wf()
    }

    /// The state put back to the copy kept at generation `k`, forgetting the copies of
    /// generation `step` and later; the grid kind stays as it is.
    pub open spec fn restored(self, k: usize, step: nat) -> StateView {
        let copy = self.snapshots[k];
        StateView {
            generation: k as nat,
            world: World { grid_type: self.world.grid_type, ..copy },
            snapshots: self.snapshots.restrict(Set::new(|j: usize| j < step)),
        }
    }

    /// Whether every turn on the way to generation `step` can be had: running on from here
    /// forwards, or backwards from the latest copy kept at or before `step` (with none,
    /// there is nothing to run).
    pub open spec fn can_go(self, step: nat) -> bool {
        if step >= self.generation {
            self.world.runs_ok((step - self.generation) as nat)
        } else {
            match latest_snapshot(self.snapshots, step) {
                Some(k) => self.restored(k, step).world.runs_ok((step - k) as nat),
                None => true,
            }
        }
    }

    /// The state after going to generation `step`: forwards by running on; backwards by
    /// running on from the latest copy kept at or before `step`. Without such a copy, the
    /// state stays as it is.
    pub open spec fn gone_to(self, step: nat) -> StateView {
        if step >= self.generation {
            self.stepped((step - self.generation) as nat)
        } else {
            match latest_snapshot(self.snapshots, step) {
                Some(k) => self.restored(k, step).stepped((step - k) as nat),
                None => self,
            }
        }
    }

    /// The state after `count` more generations.
    pub open spec fn stepped(self, count: nat) -> StateView {
        StateView {
            generation: self.generation + count,
            world: self.world.run(count),
            snapshots: recorded(self.snapshots, self.world, self.generation, count),
        }
    }
}

impl State {
    pub(crate) fn take_snapshot(&self) -> (s: Snapshot)
        ensures
            s.world() == self@.world,
    {
        Snapshot {
            field: self.field.duplicate(),
            ants: copy_ants(&self.ants),
            instructions: copy_instructions(&self.instructions),
            grid_type: self.grid_type,
        }
    }

    /// Runs the simulation `count` generations on. Before each generation whose number is a
    /// multiple of [`SNAPSHOT_INTERVAL`], a copy of the world is kept.
    pub fn step(&mut self, count: usize)
        requires
            old(self)@.world.runs_ok(count as nat),
            old(self)@.generation + count <= usize::MAX,
        ensures
            final(self)@ == old(self)@.stepped(count as nat),
    {
        let ghost start = self@;
        let mut done: usize = 0;
        while done < count
            invariant
                done <= count,
                start.world.runs_ok(count as nat),
                start.generation + count <= usize::MAX,
                self@ == start.stepped(done as nat),
            decreases count - done,
        {
            proof {
                lemma_runs_ok_prefix(start.world, count as nat, done as nat);
            }
            if self.generation % SNAPSHOT_INTERVAL == 0 {
                let snapshot = self.take_snapshot();
                let ghost before = self.snapshots@;
                self.snapshots.insert(self.generation, snapshot);
                assert(self.snapshots@.map_values(|s: Snapshot| s.world()) =~= before.map_values(
                    |s: Snapshot| s.world(),
                ).insert(self.generation, snapshot.world()));
            }
            self.generation = self.generation + 1;
            let n = self.ants.len();
            let ghost before = self@;
            let mut i: usize = 0;
            while i < n
                invariant
                    i <= n,
                    n == before.world.ants.len(),
                    before.world.tick_ok(),
                    self@ == (StateView { world: before.world.turns(i as nat), ..before }),
                decreases n - i,
            {
                proof {
                    lemma_turns_ok_prefix(before.world, n as nat, i as nat);
                }
                self.turn_ant(i);
                i = i + 1;
            }
            done = done + 1;
        }
    }

    /// Runs the world `count` generations on, without keeping copies or counting the
    /// generations, as long as every ant can have its turn; tells whether all could.
    fn run_checked(&mut self, count: usize) -> (ok: bool)
        ensures
            ok == old(self)@.world.runs_ok(count as nat),
            ok ==> final(self)@.world == old(self)@.world.run(count as nat),
    {
        let ghost start = self@.world;
        let mut done: usize = 0;
        while done < count
            invariant
                done <= count,
                start == old(self)@.world,
                start.runs_ok(done as nat),
                self@.world == start.run(done as nat),
            decreases count - done,
        {
            let n = self.ants.len();
            let ghost before = self@.world;
            let mut i: usize = 0;
            while i < n
                invariant
                    i <= n,
                    n == before.ants.len(),
                    before == start.run(done as nat),
                    start == old(self)@.world,
                    start.runs_ok(done as nat),
                    done < count,
                    before.turns_ok(i as nat),
                    self@.world == before.turns(i as nat),
                decreases n - i,
            {
                proof {
                    lemma_turns_ok_prefix(before, i as nat, i as nat);
                }
                if !self.can_turn_now(i) {
                    proof {
                        if start.runs_ok(count as nat) {
                            lemma_runs_ok_prefix(start, count as nat, done as nat);
                            lemma_turns_ok_prefix(before, n as nat, i as nat);
                        }
                    }
                    return false;
                }
                self.turn_ant(i);
                i = i + 1;
            }
            done = done + 1;
        }
        true
    }

    /// Whether ant `i` can have its turn as the world stands.
    fn can_turn_now(&self, i: usize) -> (r: bool)
        requires
            i < self@.world.ants.len(),
        ensures
            r == self@.world.can_turn(i as int),
    {
        let ant = self.ants[i];
        if ant.instruction >= self.instructions.len() {
            return false;
        }
        let x = ant.position.x;
        let y = ant.position.y;
        self.field.check_full();
        if x >= MAX_CELL_COUNT || y >= MAX_CELL_COUNT {
            return false;
        }
        assert(self@.world.cells[x as int] == self.field.values@[x as int]@);
        let colour = self.field.values[x][y];
        match self.instructions[ant.instruction].rule(colour) {
            None => false,
            Some((_, turn)) => match turn {
                Some(direction) => ant.can_travel(self.grid_type, direction, self.field.width, self.field.height),
                None => true,
            },
        }
    }

    /// A simulation run `steps` generations from the state of a new one.
    pub fn after(steps: usize) -> (r: State)
        ensures
            r@ == initial_view().stepped(steps as nat),
    {
        let mut result = State::default();
        proof {
            lemma_wf_runs_ok(initial_view().world, steps as nat);
        }
        result.step(steps);
        result
    }

    /// The cells the ants stand on now, in the order of the ants.
    pub fn ants(&self) -> (r: Vec<(usize, usize)>)
        ensures
            r@ == self@.world.ants.map_values(|a: Ant| (a.position.x, a.position.y)),
    {
        let mut r: Vec<(usize, usize)> = Vec::new();
        let mut i: usize = 0;
        while i < self.ants.len()
            invariant
                i <= self.ants@.len(),
                r@ == self.ants@.subrange(0, i as int).map_values(|a: Ant| (a.position.x, a.position.y)),
            decreases self.ants@.len() - i,
        {
            r.push((self.ants[i].position.x, self.ants[i].position.y));
            i = i + 1;
            assert(self.ants@.subrange(0, i as int).drop_last() =~= self.ants@.subrange(0, i - 1));
        }
        assert(self.ants@.subrange(0, i as int) =~= self.ants@);
        r
    }

    /// The width and height of the part of the field in use.
    pub fn field_size(&self) -> (r: (usize, usize))
        ensures
            r == (self@.world.width, self@.world.height),
    {
        (self.field.width, self.field.height)
    }

    /// The colour of cell (`x` mod width, `y` mod height).
    pub fn field_at(&self, x: usize, y: usize) -> (r: usize)
        requires
            self@.world.width > 0,
            self@.world.height > 0,
            x % self@.world.width < MAX_CELL_COUNT,
            y % self@.world.height < MAX_CELL_COUNT,
        ensures
            r == self@.world.cell((x % self@.world.width) as int, (y % self@.world.height) as int),
            x < self@.world.width && y < self@.world.height ==> r == self@.world.cell(x as int, y as int),
            r < 256,
    {
        let cx = x % self.field.width;
        let cy = y % self.field.height;
        self.field.check_full();
        proof {
            if x < self.field.width && y < self.field.height {
                vstd::arithmetic::div_mod::lemma_small_mod(x as nat, self.field.width as nat);
                vstd::arithmetic::div_mod::lemma_small_mod(y as nat, self.field.height as nat);
            }
            let cells = self.field.cells();
            assert(cells[cx as int] == self.field.values@[cx as int]@);
        }
        self.field.values[cx][cy] as usize
    }

    /// The storage of the field always holds [`MAX_CELL_COUNT`] × [`MAX_CELL_COUNT`] cells,
    /// whatever the size of the part in use.
    pub fn storage_is_full(&self)
        ensures
            self@.world.full_storage(),
    {
        self.field.check_full();
    }

    /// How many generations the simulation has run.
    pub fn generation(&self) -> (r: usize)
        ensures
            r == self@.generation,
    {
        self.generation
    }

    /// Adds an ant at cell (`x` mod width, `y` mod height), facing north, following rule set
    /// `instruction` mod the number of rule sets, unless an ant started at that cell.
    #[verifier::loop_isolation(false)]
    pub fn add_ant(&mut self, x: usize, y: usize, instruction: usize)
        requires
            old(self)@.world.width > 0,
            old(self)@.world.height > 0,
            old(self)@.world.rules.len() > 0,
        ensures
            final(self)@ == old(self)@.ant_added(x, y, instruction),
            (forall|j: int| 0 <= j < old(self)@.world.ants.len() ==> (#[trigger] old(self)@.world.ants[j]).start_position.x
                != x % old(self)@.world.width || old(self)@.world.ants[j].start_position.y != y % old(self)@.world.height)
                ==> final(self)@.world.ants.len() == old(self)@.world.ants.len() + 1,
            (exists|j: int| 0 <= j < old(self)@.world.ants.len() && (#[trigger] old(self)@.world.ants[j]).start_position.x
                == x % old(self)@.world.width && old(self)@.world.ants[j].start_position.y == y % old(self)@.world.height)
                ==> final(self)@ == old(self)@,
    {
        proof {
            crate::replay::lemma_add_ant_by_start(self@, x, y, instruction);
        }
        let cx = x % self.field.width;
        let cy = y % self.field.height;
        let mut i: usize = 0;
        while i < self.ants.len()
            invariant
                i <= self.ants@.len(),
                forall|j: int| 0 <= j < i ==> !((#[trigger] self.ants@[j]).start_position.x == cx && self.ants@[j].start_position.y == cy),
            decreases self.ants@.len() - i,
        {
            if self.ants[i].start_position.x == cx && self.ants[i].start_position.y == cy {
                assert(started_at(self@.world.ants, cx, cy));
                return;
            }
            i = i + 1;
        }
        let position = Position { x: cx, y: cy, orientation: Direction::North };
        let ghost before = self@;
        assert(!started_at(before.world.ants, cx, cy));
        self.ants.push(Ant { start_position: position, position, instruction: instruction % self.instructions.len() });
        assert(self@ == before.ant_added(x, y, instruction));
    }

    /// The index of the first ant that stands on cell (`x`, `y`), if any.
    fn first_ant_at(&self, x: usize, y: usize) -> (r: Option<usize>)
        ensures
            r matches Some(i) ==> first_at(self@.world.ants, x, y, i as int),
            r is None ==> forall|i: int| !first_at(self@.world.ants, x, y, i),
    {
        let mut i: usize = 0;
        while i < self.ants.len()
            invariant
                i <= self.ants@.len(),
                forall|j: int| 0 <= j < i ==> !((#[trigger] self.ants@[j]).position.x == x && self.ants@[j].position.y == y),
            decreases self.ants@.len() - i,
        {
            if self.ants[i].position.x == x && self.ants[i].position.y == y {
                return Some(i);
            }
            i = i + 1;
        }
        assert forall|k: int| !first_at(self@.world.ants, x, y, k) by {
            if 0 <= k < self.ants@.len() {
                assert(!(self.ants@[k].position.x == x && self.ants@[k].position.y == y));
            }
        }
        None
    }

    /// Removes the first ant that stands on cell (`x`, `y`); tells whether there was one.
    pub fn remove_ant(&mut self, x: usize, y: usize) -> (removed: bool)
        ensures
            removed == (exists|i: int| first_at(old(self)@.world.ants, x, y, i)),
            removed == (exists|i: int| stands_on(old(self)@.world.ants, i, x, y)),
            forall|i: int| #[trigger] first_at(old(self)@.world.ants, x, y, i) ==> stands_on(old(self)@.world.ants, i, x, y),
            forall|i: int| first_at(old(self)@.world.ants, x, y, i) ==> final(self)@ == old(self)@.with_ants(
                old(self)@.world.ants.remove(i),
            ),
            !removed ==> final(self)@ == old(self)@,
    {
        proof {
            crate::replay::lemma_remove_finds_standing(self@.world.ants, x, y);
        }
        match self.first_ant_at(x, y) {
            Some(i) => {
                proof {
                    assert forall|k: int| first_at(old(self)@.world.ants, x, y, k) implies k == i by {
                        if k < i {
                            assert(!(self.ants@[k].position.x == x && self.ants@[k].position.y == y));
                        } else if k > i {
                            assert(!(self.ants@[i as int].position.x == x && self.ants@[i as int].position.y == y));
                        }
                    }
                }
                self.ants.remove(i);
                assert(self@ == old(self)@.with_ants(old(self)@.world.ants.remove(i as int)));
                true
            },
            None => false,
        }
    }

    /// Puts the simulation back to generation 0: a blank field and every ant where it
    /// started. Returns the generation it was at.
    pub fn reset(&mut self) -> (steps: usize)
        ensures
            steps == old(self)@.generation,
            final(self)@ == old(self)@.reset(),
    {
        let steps = self.generation;
        self.generation = 0;
        self.field = Field::blank(self.field.width, self.field.height);
        self.ants = starts_of(&self.ants);
        steps
    }

    /// Runs the simulation again from generation 0 up to the generation it was at, with the
    /// rule sets, ants and field size it has now.
    pub fn recalculate(&mut self)
        requires
            old(self)@.reset().world.runs_ok(old(self)@.generation),
        ensures
            final(self)@ == old(self)@.reset().stepped(old(self)@.generation),
    {
        let steps = self.reset();
        self.step(steps);
    }

    /// Sets the width of the part of the field in use to `width`, and the column each ant
    /// starts in to the matching entry of `start_xs`.
    pub fn set_width(&mut self, width: usize, start_xs: &Vec<usize>)
        requires
            start_xs@.len() == old(self)@.world.ants.len(),
        ensures
            final(self)@ == old(self)@.widened(width, start_xs@),
    {
        let mut ants: Vec<Ant> = Vec::new();
        let mut i: usize = 0;
        while i < self.ants.len()
            invariant
                i <= self.ants@.len(),
                start_xs@.len() == self.ants@.len(),
                ants@.len() == i,
                forall|j: int| 0 <= j < i ==> #[trigger] ants@[j] == old(self)@.widened(width, start_xs@).world.ants[j],
            decreases self.ants@.len() - i,
        {
            let mut ant = self.ants[i];
            ant.start_position.x = start_xs[i];
            ants.push(ant);
            i = i + 1;
        }
        assert(ants@ =~= old(self)@.widened(width, start_xs@).world.ants);
        self.ants = ants;
        proof {
            use_type_invariant(&self.field);
        }
        self.field.width = width;
    }

    /// Sets the height of the part of the field in use to `height`, and the row each ant
    /// starts in to the matching entry of `start_ys`.
    pub fn set_height(&mut self, height: usize, start_ys: &Vec<usize>)
        requires
            start_ys@.len() == old(self)@.world.ants.len(),
        ensures
            final(self)@ == old(self)@.heightened(height, start_ys@),
    {
        let mut ants: Vec<Ant> = Vec::new();
        let mut i: usize = 0;
        while i < self.ants.len()
            invariant
                i <= self.ants@.len(),
                start_ys@.len() == self.ants@.len(),
                ants@.len() == i,
                forall|j: int| 0 <= j < i ==> #[trigger] ants@[j] == old(self)@.heightened(height, start_ys@).world.ants[j],
            decreases self.ants@.len() - i,
        {
            let mut ant = self.ants[i];
            ant.start_position.y = start_ys[i];
            ants.push(ant);
            i = i + 1;
        }
        assert(ants@ =~= old(self)@.heightened(height, start_ys@).world.ants);
        self.ants = ants;
        proof {
            use_type_invariant(&self.field);
        }
        self.field.height = height;
    }

    /// Adds a rule for a new colour to every rule set, after a colour was added to a palette
    /// that now has `palette_len` colours: it paints colour 0 and does not move.
    pub fn add_colour(&mut self, palette_len: usize)
        requires
            palette_len % 256 != 0,
        ensures
            final(self)@ == old(self)@.colour_added(palette_len),
    {
        let n = palette_len as u8;
        assert(n == palette_len % 256) by (bit_vector)
            requires
                n == palette_len as u8;
        let c = n - 1;
        let mut i: usize = 0;
        while i < self.instructions.len()
            invariant
                i <= self.instructions@.len(),
                self.instructions@.len() == old(self).instructions@.len(),
                self@.generation == old(self)@.generation,
                self@.snapshots == old(self)@.snapshots,
                self@.world == (World { rules: self@.world.rules, ..old(self)@.world }),
                forall|j: int| 0 <= j < i ==> #[trigger] self@.world.rules[j] == old(self)@.world.rules[j].insert(c, (0u8, None::<Direction>)),
                forall|j: int| i <= j < self.instructions@.len() ==> #[trigger] self@.world.rules[j] == old(self)@.world.rules[j],
            decreases self.instructions@.len() - i,
        {
            let ghost prev = self.instructions@;
            let ghost prev_rules = self@.world.rules;
            self.instructions[i].map.insert(c, (0, None));
            proof {
                assert(self.instructions@[i as int].map@ == prev[i as int].map@.insert(c, (0u8, None::<Direction>)));
                assert forall|j: int| 0 <= j < prev.len() implies #[trigger] self@.world.rules[j] == if j == i {
                    prev_rules[j].insert(c, (0u8, None::<Direction>))
                } else {
                    prev_rules[j]
                } by {
                    assert(self@.world.rules[j] == self.instructions@[j].map@);
                    assert(prev_rules[j] == prev[j].map@);
                }
            }
            i = i + 1;
        }
        assert(self@.world.rules =~= old(self)@.colour_added(palette_len).world.rules);
    }

    /// Adds a rule set for a palette of `palette_len` colours: colour 0 paints 1 and turns
    /// east, colour 1 paints 0 and turns west, every other colour paints 0 and stays.
    pub fn add_instruction(&mut self, palette_len: usize)
        ensures
            final(self)@ == old(self)@.instruction_added(palette_len),
    {
        let n = palette_len as u8;
        let mut map: BTreeMap<u8, Rule> = BTreeMap::new();
        let mut c: u8 = 0;
        while c < n
            invariant
                c <= n,
                map@ == Map::new(|k: u8| k < c, |k: u8| (0u8, None::<Direction>)),
            decreases n - c,
        {
            map.insert(c, (0, None));
            c = c + 1;
            assert(map@ =~= Map::new(|k: u8| k < c, |k: u8| (0u8, None::<Direction>)));
        }
        map.insert(0, (1, Some(Direction::East)));
        map.insert(1, (0, Some(Direction::West)));
        assert(n == palette_len % 256) by (bit_vector)
            requires
                n == palette_len as u8;
        assert(map@ =~= new_rules(palette_len));
        self.instructions.push(Instruction { map });
        assert(self@.world.rules =~= old(self)@.world.rules.push(new_rules(palette_len)));
    }

    /// Sets where ant `index` starts and which rule set it follows, if there is such an ant;
    /// tells whether there was.
    pub fn set_up_ant(&mut self, index: usize, start: Position, instruction: usize) -> (found: bool)
        ensures
            found == (index < old(self)@.world.ants.len()),
            found ==> final(self)@ == old(self)@.ant_set_up(index as int, start, instruction),
            !found ==> final(self)@ == old(self)@,
    {
        if index < self.ants.len() {
            let mut ant = self.ants[index];
            ant.start_position = start;
            ant.instruction = instruction;
            self.ants.set(index, ant);
            true
        } else {
            false
        }
    }

    /// Turns the start orientation of ant `index` a step anticlockwise (`backwards`) or
    /// clockwise, if there is such an ant; tells whether there was.
    pub fn rotate_ant(&mut self, index: usize, backwards: bool) -> (found: bool)
        ensures
            found == (index < old(self)@.world.ants.len()),
            found ==> final(self)@ == old(self)@.ant_rotated(index as int, backwards),
            !found ==> final(self)@ == old(self)@,
    {
        if index < self.ants.len() {
            let mut ant = self.ants[index];
            if backwards {
                ant.start_position.orientation = ant.start_position.orientation + Direction::NorthWest;
            } else {
                ant.start_position.orientation = ant.start_position.orientation + Direction::NorthEast;
            }
            self.ants.set(index, ant);
            true
        } else {
            false
        }
    }

    /// Cycles the turn of the rule for `colour` in rule set `index` backwards or forwards
    /// among the turns of the grid; tells whether there is such a rule set.
    pub fn rotate_instruction_direction(&mut self, index: usize, colour: u8, backwards: bool) -> (found: bool)
        ensures
            found == (index < old(self)@.world.rules.len()),
            found ==> final(self)@ == old(self)@.turn_rotated(index as int, colour, backwards),
            !found ==> final(self)@ == old(self)@,
    {
        if index < self.instructions.len() {
            match self.instructions[index].rule(colour) {
                Some((paint, turn)) => {
                    let next = if backwards {
                        prev_direction(self.grid_type, turn)
                    } else {
                        next_direction(self.grid_type, turn)
                    };
                    self.instructions[index].map.insert(colour, (paint, next));
                    assert(self@.world.rules =~= old(self)@.turn_rotated(index as int, colour, backwards).world.rules);
                },
                None => {},
            }
            true
        } else {
            false
        }
    }

    /// Cycles the colour painted by the rule for `colour` in rule set `index` backwards or
    /// forwards through a palette of `palette_len` colours; tells whether there is such a
    /// rule set.
    pub fn rotate_instruction_palette(&mut self, index: usize, colour: u8, palette_len: usize, backwards: bool) -> (found: bool)
        requires
            index < old(self)@.world.rules.len() ==> old(self)@.can_rotate_paint(index as int, colour, palette_len, backwards),
        ensures
            found == (index < old(self)@.world.rules.len()),
            found ==> final(self)@ == old(self)@.paint_rotated(index as int, colour, palette_len, backwards),
            !found ==> final(self)@ == old(self)@,
    {
        if index < self.instructions.len() {
            match self.instructions[index].rule(colour) {
                Some((paint, turn)) => {
                    let n = palette_len as u8;
                    assert(n == palette_len % 256) by (bit_vector)
                        requires
                            n == palette_len as u8;
                    let next = if backwards {
                        if paint == 0 {
                            n - 1
                        } else {
                            paint - 1
                        }
                    } else {
                        (paint + 1) % n
                    };
                    self.instructions[index].map.insert(colour, (next, turn));
                    assert(self@.world.rules =~= old(self)@.paint_rotated(index as int, colour, palette_len, backwards).world.rules);
                },
                None => {},
            }
            true
        } else {
            false
        }
    }

    /// Goes to the next generation after this one that is a multiple of
    /// [`SNAPSHOT_INTERVAL`].
    pub fn skip_forward(&mut self)
        requires
            next_multiple(old(self)@.generation) <= usize::MAX,
            old(self)@.world.runs_ok((next_multiple(old(self)@.generation) - old(self)@.generation) as nat),
        ensures
            final(self)@ == old(self)@.stepped((next_multiple(old(self)@.generation) - old(self)@.generation) as nat),
            final(self)@.generation > old(self)@.generation,
            final(self)@.generation % (SNAPSHOT_INTERVAL as nat) == 0,
            final(self)@.generation <= old(self)@.generation + SNAPSHOT_INTERVAL,
    {
        proof {
            lemma_next_multiple(self@.generation);
        }
        let target = (self.generation / SNAPSHOT_INTERVAL + 1) * SNAPSHOT_INTERVAL;
        proof {
            vstd::arithmetic::div_mod::lemma_fundamental_div_mod(self.generation as int, SNAPSHOT_INTERVAL as int);
        }
        self.go_to_step(target);
    }

    /// Whether cell (`x` mod width, `y` mod height) can be read: [`State::field_at`] needs
    /// exactly this.
    pub fn can_read(&self, x: usize, y: usize) -> (r: bool)
        ensures
            r == (self@.world.width > 0 && self@.world.height > 0 && x % self@.world.width
                < MAX_CELL_COUNT && y % self@.world.height < MAX_CELL_COUNT),
    {
        if self.field.width == 0 || self.field.height == 0 {
            return false;
        }
        let cx = x % self.field.width;
        let cy = y % self.field.height;
        self.field.check_full();
        cx < MAX_CELL_COUNT && cy < MAX_CELL_COUNT
    }

    /// Whether the paint of the rule for `colour` in rule set `index` can be cycled through
    /// a palette of `palette_len` colours: [`State::rotate_instruction_palette`] needs
    /// exactly this.
    pub fn can_rotate_instruction_palette(&self, index: usize, colour: u8, palette_len: usize, backwards: bool) -> (r: bool)
        ensures
            r == (index < self@.world.rules.len() ==> self@.can_rotate_paint(index as int, colour, palette_len, backwards)),
    {
        if index < self.instructions.len() {
            match self.instructions[index].rule(colour) {
                Some((paint, _)) => {
                    if backwards {
                        paint != 0 || palette_len % 256 != 0
                    } else {
                        paint < 255 && palette_len % 256 != 0
                    }
                },
                None => true,
            }
        } else {
            true
        }
    }

    /// Whether the world is well formed: it can then run on for any number of generations.
    pub fn is_runnable(&self) -> (r: bool)
        ensures
            r == self@.world.wf(),
    {
        parts_runnable(&self.field, &self.ants, &self.instructions, Ghost(self@.world))
    }

    /// Whether every turn of the next `count` generations can be had: [`State::step`] needs
    /// exactly this. A well formed world can; otherwise a copy of the world is run to see.
    pub fn can_step(&self, count: usize) -> (r: bool)
        ensures
            r == self@.world.runs_ok(count as nat),
    {
        if self.is_runnable() {
            proof {
                lemma_wf_runs_ok(self@.world, count as nat);
            }
            return true;
        }
        let mut scratch = State {
            snapshots: BTreeMap::new(),
            generation: 0,
            ants: copy_ants(&self.ants),
            field: self.field.duplicate(),
            instructions: copy_instructions(&self.instructions),
            grid_type: self.grid_type,
        };
        assert(scratch@.world == self@.world);
        scratch.run_checked(count)
    }

    /// Whether [`State::go_to_step`] can go to generation `step`: every turn on the way can be
    /// had.
    pub fn can_go_to(&self, step: usize) -> (r: bool)
        ensures
            r == self@.can_go(step as nat),
    {
        if step >= self.generation {
            return self.can_step(step - self.generation);
        }
        match self.latest_snapshot_at_or_before(step) {
            None => true,
            Some(record) => {
                assert(self@.snapshots.contains_key(record));
                match self.snapshots.get(&record) {
                    Some(snapshot) => {
                        let copy = snapshot.duplicate();
                        let mut scratch = State {
                            snapshots: BTreeMap::new(),
                            generation: 0,
                            ants: copy.ants,
                            field: copy.field,
                            instructions: copy.instructions,
                            grid_type: self.grid_type,
                        };
                        assert(scratch@.world == self@.restored(record, step as nat).world);
                        if scratch.is_runnable() {
                            proof {
                                lemma_wf_runs_ok(scratch@.world, (step - record) as nat);
                            }
                            true
                        } else {
                            scratch.run_checked(step - record)
                        }
                    },
                    None => false,
                }
            },
        }
    }

    /// Whether the simulation can run again from its start up to the generation it is at:
    /// [`State::recalculate`] needs exactly this.
    pub fn can_recalculate(&self) -> (r: bool)
        ensures
            r == self@.reset().world.runs_ok(self@.generation),
    {
        let mut scratch = State {
            snapshots: BTreeMap::new(),
            generation: 0,
            ants: starts_of(&self.ants),
            field: Field::blank(self.field.width, self.field.height),
            instructions: copy_instructions(&self.instructions),
            grid_type: self.grid_type,
        };
        assert(scratch@.world == self@.reset().world);
        if scratch.is_runnable() {
            proof {
                lemma_wf_runs_ok(scratch@.world, self@.generation);
            }
            true
        } else {
            scratch.run_checked(self.generation)
        }
    }

    /// Whether [`State::skip_forward`] can go to the next multiple of [`SNAPSHOT_INTERVAL`]:
    /// it fits, and every turn on the way can be had.
    pub fn can_skip_forward(&self) -> (r: bool)
        ensures
            r == (next_multiple(self@.generation) <= usize::MAX && self@.world.runs_ok(
                (next_multiple(self@.generation) - self@.generation) as nat,
            )),
    {
        let q = self.generation / SNAPSHOT_INTERVAL;
        proof {
            vstd::arithmetic::div_mod::lemma_fundamental_div_mod(self.generation as int, SNAPSHOT_INTERVAL as int);
        }
        if q >= usize::MAX / SNAPSHOT_INTERVAL {
            proof {
                vstd::arithmetic::div_mod::lemma_fundamental_div_mod(usize::MAX as int, SNAPSHOT_INTERVAL as int);
                assert((q + 1) * SNAPSHOT_INTERVAL > usize::MAX) by (nonlinear_arith)
                    requires
                        q >= usize::MAX / SNAPSHOT_INTERVAL,
                        usize::MAX == SNAPSHOT_INTERVAL * (usize::MAX / SNAPSHOT_INTERVAL) + usize::MAX % SNAPSHOT_INTERVAL,
                        usize::MAX % SNAPSHOT_INTERVAL < SNAPSHOT_INTERVAL,
                ;
            }
            return false;
        }
        proof {
            assert((q + 1) * SNAPSHOT_INTERVAL <= usize::MAX) by (nonlinear_arith)
                requires
                    q < usize::MAX / SNAPSHOT_INTERVAL,
                    SNAPSHOT_INTERVAL * (usize::MAX / SNAPSHOT_INTERVAL) <= usize::MAX,
            ;
        }
        let target = (q + 1) * SNAPSHOT_INTERVAL;
        self.can_step(target - self.generation)
    }

    /// Goes to generation `step`: forwards by running on, backwards from the latest copy of
    /// the world kept at or before `step`, forgetting the copies kept from `step` on.
    pub fn go_to_step(&mut self, step: usize)
        requires
            old(self)@.can_go(step as nat),
        ensures
            final(self)@ == old(self)@.gone_to(step as nat),
    {
        if step >= self.generation {
            let diff = step - self.generation;
            self.step(diff);
        } else {
            match self.latest_snapshot_at_or_before(step) {
                Some(record) => {
                    let ghost before = self@;
                    let copy = match self.snapshots.get(&record) {
                        Some(snapshot) => snapshot.duplicate(),
                        None => {
                            return ;
                        },
                    };
                    assert(before.snapshots[record] == copy.world());
                    self.generation = record;
                    self.field = copy.field;
                    self.ants = copy.ants;
                    self.instructions = copy.instructions;
                    forget_from(&mut self.snapshots, step);
                    assert(self.snapshots@.map_values(|s: Snapshot| s.world()) =~= before.snapshots.restrict(
                        Set::new(|j: usize| j < step),
                    ));
                    assert(self@ == before.restored(record, step as nat));
                    self.step(step - self.generation);
                },
                None => {},
            }
        }
    }

    /// The latest generation at or before `step` of which a copy was kept.
    fn latest_snapshot_at_or_before(&self, step: usize) -> (r: Option<usize>)
        ensures
            r == latest_snapshot(self@.snapshots, step as nat),
    {
        let mut found: Option<usize> = None;
        proof {
            vstd::std_specs::btree::axiom_spec_keys_iter(&self.snapshots);
            let keys = vstd::std_specs::btree::spec_keys_iter(&self.snapshots).remaining();
            assert forall|i: int| 0 <= i < keys.len() implies self.snapshots@.contains_key(*keys[i]) by {
                assert(keys.unref()[i] == *keys[i]);
                assert(keys.unref().to_set().contains(keys.unref()[i]));
            }
        }
        for k in it: self.snapshots.keys()
            invariant
                found matches Some(f) ==> {
                    &&& self.snapshots@.contains_key(f)
                    &&& f <= step
                    &&& forall|i: int| 0 <= i < it.index() && *it.seq()[i] <= step ==> *it.seq()[i] <= f
                },
                found is None ==> forall|i: int| 0 <= i < it.index() ==> *it.seq()[i] > step,
                forall|i: int| 0 <= i < it.seq().len() ==> self.snapshots@.contains_key(*it.seq()[i]),
        {
            if *k <= step {
                match found {
                    Some(f) => {
                        if *k > f {
                            found = Some(*k);
                        }
                    },
                    None => {
                        found = Some(*k);
                    },
                }
            }
        }
        proof {
            let view = self@.snapshots;
            assert forall|j: usize| #[trigger] view.contains_key(j) implies self.snapshots@.contains_key(j) by {}
            match found {
                Some(f) => {
                    assert(is_latest(view, step as nat, f));
                    assert forall|k: usize| is_latest(view, step as nat, k) implies k == f by {}
                },
                None => {
                    assert forall|k: usize| !is_latest(view, step as nat, k) by {}
                },
            }
        }
        found
    }

    /// Ant `i` has its turn.
    fn turn_ant(&mut self, i: usize)
        requires
            i < old(self)@.world.ants.len(),
            old(self)@.world.can_turn(i as int),
        ensures
            final(self)@ == (StateView { world: old(self)@.world.ant_turn(i as int), ..old(self)@ }),
    {
        self.field.check_full();
        let ant = self.ants[i];
        let x = ant.position.x;
        let y = ant.position.y;
        assert(self@.world.cells[x as int] == self.field.values@[x as int]@);
        let colour = self.field.values[x][y];
        let rule = self.instructions[ant.instruction].rule(colour);
        match rule {
            Some((paint, turn)) => {
                self.field.paint(x, y, paint);
                match turn {
                    Some(direction) => {
                        let mut moved_ant = ant;
                        moved_ant.travel(self.grid_type, direction, self.field.width, self.field.height);
                        self.ants.set(i, moved_ant);
                    },
                    None => {},
                }
            },
            None => {},
        }
        assert(self@.world.cells =~= old(self)@.world.ant_turn(i as int).cells);
        assert(self@.world.ants =~= old(self)@.world.ant_turn(i as int).ants);
    }
}

impl Default for State {
    /// The state of a new simulation, [`initial_view`].
    fn default() -> (s: State)
        ensures
            s@ == initial_view(),
    {
        let mut ants: Vec<Ant> = Vec::new();
        ants.push(Ant::default());
        let mut instructions: Vec<Instruction> = Vec::new();
        instructions.push(Instruction::default());
        let s = State {
            snapshots: BTreeMap::new(),
            generation: 0,
            ants,
            field: Field::blank(64, 64),
            instructions,
            grid_type: GridType::SquareDiagonal,
        };
        assert(s@.world.ants =~= seq![first_ant()]);
        assert(s@.world.rules =~= seq![default_rules()]);
        assert(s@.snapshots =~= Map::<usize, World>::empty());
        s
    }
}

} // verus!
