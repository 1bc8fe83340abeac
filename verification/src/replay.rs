//! What holds of the simulation across calls: running on composes, the copies kept are the
//! world as it was, and going to a generation lands where running from the start lands.
use vstd::prelude::*;

use crate::ant::{Ant, Position};
use crate::direction::{in_turn_cycle, lemma_next_prev_inverse, Direction};
use crate::state::{
    first_at, initial_view, is_latest, latest_snapshot, recorded, started_at, StateView, SNAPSHOT_INTERVAL,
};
use crate::world::{
    lemma_run_add, lemma_runs_ok_add, lemma_run_setup, lemma_run_wf, lemma_same_setup_start, lemma_start_idempotent,
    World,
};

verus! {

/// Which keys `recorded` holds and what it keeps under them: the copies it started with,
/// and over them, for each generation `k` from `g` on (fewer than `g + n`) that is a
/// multiple of [`SNAPSHOT_INTERVAL`], the world `k - g` generations after `w`.
pub proof fn lemma_recorded(snapshots: Map<usize, World>, w: World, g: nat, n: nat, k: usize)
    requires
        g + n <= usize::MAX + 1,
    ensures
        recorded(snapshots, w, g, n).contains_key(k) == (snapshots.contains_key(k) || (g <= k < g
            + n && k % SNAPSHOT_INTERVAL == 0)),
        recorded(snapshots, w, g, n).contains_key(k) ==> recorded(snapshots, w, g, n)[k] == if g
            <= k < g + n && k % SNAPSHOT_INTERVAL == 0 {
            w.run((k - g) as nat)
        } else {
            snapshots[k]
        },
    decreases n,
{
    if n > 0 {
        lemma_recorded(snapshots, w, g, (n - 1) as nat, k);
    }
}

/// Recording `a` generations and then `b` more is recording `a + b` generations.
pub proof fn lemma_recorded_add(snapshots: Map<usize, World>, w: World, g: nat, a: nat, b: nat)
    ensures
        recorded(recorded(snapshots, w, g, a), w.run(a), g + a, b) == recorded(snapshots, w, g, a + b),
    decreases b,
{
    if b > 0 {
        lemma_recorded_add(snapshots, w, g, a, (b - 1) as nat);
        lemma_run_add(w, a, (b - 1) as nat);
    }
}

/// Running on `a` generations and then `b` more is running on `a + b` generations: the
/// generation, the world and the copies kept all agree, and the `a + b` generations can be
/// run exactly when the `a` can and then the `b`. Running on no generation changes nothing.
pub proof fn lemma_stepped_add(v: StateView, a: nat, b: nat)
    ensures
        v.stepped(a).stepped(b) == v.stepped(a + b),
        v.world.runs_ok(a + b) == (v.world.runs_ok(a) && v.stepped(a).world.runs_ok(b)),
        v.stepped(0) == v,
{
    lemma_runs_ok_add(v.world, a, b);
    lemma_run_add(v.world, a, b);
    lemma_recorded_add(v.snapshots, v.world, v.generation, a, b);
}

/// Going forwards to generation `k` is running on `k - generation` generations, and can be
/// done exactly when those generations can be run: no copy kept is used.
pub proof fn lemma_go_forward(v: StateView, k: nat)
    requires
        k >= v.generation,
    ensures
        v.gone_to(k) == v.stepped((k - v.generation) as nat),
        v.can_go(k) == v.world.runs_ok((k - v.generation) as nat),
        v.gone_to(k).generation == k,
{
}

/// Running on keeps a runnable world runnable, and the copies it keeps runnable.
pub proof fn lemma_stepped_wf(v: StateView, n: nat)
    requires
        v.generation + n <= usize::MAX,
        v.world.wf(),
        v.snapshots_wf(),
    ensures
        v.stepped(n).world.wf(),
        v.stepped(n).snapshots_wf(),
{
    lemma_run_wf(v.world, n);
    let s = v.stepped(n).snapshots;
    assert forall|k: usize| #[trigger] s.contains_key(k) implies s[k].wf() by {
        lemma_recorded(v.snapshots, v.world, v.generation, n, k);
        if v.generation <= k < v.generation + n && k % SNAPSHOT_INTERVAL == 0 {
            lemma_run_wf(v.world, (k - v.generation) as nat);
        }
    }
}

impl StateView {
    /// Every copy kept is of a generation that is a multiple of [`SNAPSHOT_INTERVAL`].
    pub open spec fn aligned(self) -> bool {
        forall|k: usize| #[trigger] self.snapshots.contains_key(k) ==> k % SNAPSHOT_INTERVAL == 0
    }

    /// The world is where running from its start for `generation` generations leads, and
    /// for every multiple of [`SNAPSHOT_INTERVAL`] below `generation` a copy of the world
    /// as it was then is kept.
    pub open spec fn consistent(self) -> bool {
        &&& self.aligned()
        &&& self.world == self.world.at_start().run(self.generation)
        &&& forall|k: usize|
            k < self.generation && k % SNAPSHOT_INTERVAL == 0 ==> {
                &&& #[trigger] self.snapshots.contains_key(k)
                &&& self.snapshots[k] == self.world.at_start().run(k as nat)
            }
    }
}

/// A new simulation is consistent.
pub proof fn lemma_initial_consistent()
    ensures
        initial_view().consistent(),
{
    let v = initial_view();
    lemma_start_idempotent(v.world);
    assert(v.world.at_start() =~= v.world) by {
        assert(crate::world::ants_at_start(v.world.ants) =~= v.world.ants);
    }
}

/// Putting a state back to generation 0 makes it consistent.
pub proof fn lemma_reset_consistent(v: StateView)
    requires
        v.aligned(),
    ensures
        v.reset().consistent(),
        v.reset().world == v.world.at_start(),
{
    lemma_start_idempotent(v.world);
}

/// Running a consistent state on keeps it consistent, and it stays where running from the
/// start leads.
pub proof fn lemma_stepped_consistent(v: StateView, n: nat)
    requires
        v.generation + n <= usize::MAX,
        v.consistent(),
    ensures
        v.stepped(n).consistent(),
        v.stepped(n).world == v.world.at_start().run(v.generation + n),
        v.stepped(n).world.at_start() == v.world.at_start(),
{
    let s = v.world.at_start();
    let u = v.stepped(n);
    lemma_run_add(s, v.generation, n);
    lemma_run_setup(v.world, n);
    lemma_same_setup_start(u.world, v.world);
    assert forall|k: usize| #[trigger] u.snapshots.contains_key(k) implies k % SNAPSHOT_INTERVAL == 0 by {
        lemma_recorded(v.snapshots, v.world, v.generation, n, k);
    }
    assert forall|k: usize| k < u.generation && k % SNAPSHOT_INTERVAL == 0 implies {
        &&& #[trigger] u.snapshots.contains_key(k)
        &&& u.snapshots[k] == u.world.at_start().run(k as nat)
    } by {
        lemma_recorded(v.snapshots, v.world, v.generation, n, k);
        if k >= v.generation {
            lemma_run_add(s, v.generation, (k - v.generation) as nat);
        }
    }
}

/// The largest multiple of [`SNAPSHOT_INTERVAL`] at or below `n` is at least every such
/// multiple at or below `n`.
proof fn lemma_round_down(j: int, n: int)
    requires
        0 <= j <= n,
        j % (SNAPSHOT_INTERVAL as int) == 0,
    ensures
        j <= n - n % (SNAPSHOT_INTERVAL as int),
{
    let p = SNAPSHOT_INTERVAL as int;
    vstd::arithmetic::div_mod::lemma_fundamental_div_mod(j, p);
    vstd::arithmetic::div_mod::lemma_fundamental_div_mod(n, p);
    vstd::arithmetic::div_mod::lemma_div_is_ordered(j, n, p);
    vstd::arithmetic::mul::lemma_mul_inequality(j / p, n / p, p);
    vstd::arithmetic::mul::lemma_mul_is_commutative(j / p, p);
    vstd::arithmetic::mul::lemma_mul_is_commutative(n / p, p);
}

/// The multiple of [`SNAPSHOT_INTERVAL`] just at or below `n` is a multiple of it.
proof fn lemma_round_down_aligned(n: int)
    requires
        0 <= n,
    ensures
        0 <= n - n % (SNAPSHOT_INTERVAL as int) <= n,
        (n - n % (SNAPSHOT_INTERVAL as int)) % (SNAPSHOT_INTERVAL as int) == 0,
{
    let p = SNAPSHOT_INTERVAL as int;
    vstd::arithmetic::div_mod::lemma_fundamental_div_mod(n, p);
    vstd::arithmetic::div_mod::lemma_mod_multiples_basic(n / p, p);
    vstd::arithmetic::mul::lemma_mul_is_commutative(n / p, p);
}

/// Going to generation `n` from a consistent state lands at generation `n`, on the world
/// that running from the start for `n` generations leads to, and keeps the state
/// consistent: backwards and forwards alike.
pub proof fn lemma_gone_to_consistent(v: StateView, n: nat)
    requires
        n <= usize::MAX,
        v.consistent(),
    ensures
        v.gone_to(n).consistent(),
        v.gone_to(n).generation == n,
        v.gone_to(n).world == v.world.at_start().run(n),
        v.gone_to(n).world.at_start() == v.world.at_start(),
{
    let s = v.world.at_start();
    if n >= v.generation {
        lemma_stepped_consistent(v, (n - v.generation) as nat);
    } else {
        let p = SNAPSHOT_INTERVAL as int;
        let r = n as int - (n as int) % p;
        lemma_round_down_aligned(n as int);
        let k = r as usize;
        assert(v.snapshots.contains_key(k));
        assert(is_latest(v.snapshots, n, k)) by {
            assert forall|j: usize| #[trigger] v.snapshots.contains_key(j) && j <= n implies j <= k by {
                lemma_round_down(j as int, n as int);
            }
        }
        assert(latest_snapshot(v.snapshots, n) == Some(k)) by {
            assert forall|j: usize| is_latest(v.snapshots, n, j) implies j == k by {}
        }
        let w = v.restored(k, n);
        lemma_run_setup(s, k as nat);
        lemma_same_setup_start(s.run(k as nat), s);
        lemma_start_idempotent(v.world);
        assert(w.world == s.run(k as nat));
        assert(w.world.at_start() == s);
        assert(w.consistent()) by {
            assert forall|j: usize| #[trigger] w.snapshots.contains_key(j) implies j % SNAPSHOT_INTERVAL == 0 by {
                assert(v.snapshots.contains_key(j));
            }
            assert forall|j: usize| j < w.generation && j % SNAPSHOT_INTERVAL == 0 implies {
                &&& #[trigger] w.snapshots.contains_key(j)
                &&& w.snapshots[j] == w.world.at_start().run(j as nat)
            } by {
                assert(v.snapshots.contains_key(j));
            }
        }
        lemma_stepped_consistent(w, (n - k) as nat);
    }
}

/// Running again from the start up to the same generation gives a consistent state at the
/// same generation, the world that running from the start leads to.
pub proof fn lemma_recalculated_consistent(v: StateView)
    requires
        v.generation <= usize::MAX,
        v.aligned(),
    ensures
        v.reset().stepped(v.generation).consistent(),
        v.reset().stepped(v.generation).generation == v.generation,
        v.reset().stepped(v.generation).world == v.world.at_start().run(v.generation),
{
    lemma_reset_consistent(v);
    lemma_stepped_consistent(v.reset(), v.generation);
    lemma_start_idempotent(v.world);
}

/// Adding an ant twice at the same cell adds it once.
pub proof fn lemma_add_ant_idempotent(v: StateView, x: usize, y: usize, instruction: usize)
    requires
        v.world.width > 0,
        v.world.height > 0,
        v.world.rules.len() > 0,
    ensures
        v.ant_added(x, y, instruction).ant_added(x, y, instruction) == v.ant_added(x, y, instruction),
{
    let x0 = (x % v.world.width) as usize;
    let y0 = (y % v.world.height) as usize;
    let u = v.ant_added(x, y, instruction);
    if !started_at(v.world.ants, x0, y0) {
        let i = v.world.ants.len() as int;
        assert(u.world.ants[i].start_position.x == x0 && u.world.ants[i].start_position.y == y0);
        assert(started_at(u.world.ants, x0, y0));
    }
}

/// Removing the ant on a cell right after adding it there undoes the adding, where no ant
/// started on the cell or stands on it.
pub proof fn lemma_remove_undoes_add(v: StateView, x: usize, y: usize, instruction: usize)
    requires
        v.world.width > 0,
        v.world.height > 0,
        v.world.rules.len() > 0,
        !started_at(v.world.ants, (x % v.world.width) as usize, (y % v.world.height) as usize),
        forall|j: int|
            0 <= j < v.world.ants.len() ==> !((#[trigger] v.world.ants[j]).position.x == x
                % v.world.width && v.world.ants[j].position.y == y % v.world.height),
    ensures
        ({
            let u = v.ant_added(x, y, instruction);
            let x0 = (x % v.world.width) as usize;
            let y0 = (y % v.world.height) as usize;
            &&& first_at(u.world.ants, x0, y0, v.world.ants.len() as int)
            &&& u.with_ants(u.world.ants.remove(v.world.ants.len() as int)) == v
        }),
{
    let u = v.ant_added(x, y, instruction);
    assert(u.world.ants.remove(v.world.ants.len() as int) =~= v.world.ants);
    assert(u.with_ants(v.world.ants).world =~= v.world);
}

/// Turning an ant's start anticlockwise undoes turning it clockwise, and the other way round.
pub proof fn lemma_rotate_ant_inverse(v: StateView, index: int, backwards: bool)
    requires
        0 <= index < v.world.ants.len(),
    ensures
        v.ant_rotated(index, backwards).ant_rotated(index, !backwards) == v,
{
    let a = v.world.ants[index];
    crate::direction::lemma_turn_laws(a.start_position.orientation, Direction::NorthEast, Direction::NorthWest);
    crate::direction::lemma_turn_laws(a.start_position.orientation, Direction::NorthWest, Direction::NorthEast);
    assert(v.ant_rotated(index, backwards).ant_rotated(index, !backwards).world.ants =~= v.world.ants);
    assert(v.ant_rotated(index, backwards).ant_rotated(index, !backwards).world =~= v.world);
}

/// Cycling the turn of a rule forwards and then backwards, or backwards and then forwards,
/// gives back the rule, when its turn lies on the grid's cycle of turns.
pub proof fn lemma_rotate_turn_inverse(v: StateView, index: int, colour: u8, backwards: bool)
    requires
        0 <= index < v.world.rules.len(),
        v.world.rules[index].contains_key(colour) ==> in_turn_cycle(v.world.grid_type, v.world.rules[index][colour].1),
    ensures
        v.turn_rotated(index, colour, backwards).turn_rotated(index, colour, !backwards) == v,
{
    let rules = v.world.rules[index];
    if rules.contains_key(colour) {
        lemma_next_prev_inverse(v.world.grid_type, rules[colour].1);
        let u = v.turn_rotated(index, colour, backwards).turn_rotated(index, colour, !backwards);
        assert(u.world.rules[index] =~= rules);
        assert(u.world.rules =~= v.world.rules);
        assert(u.world =~= v.world);
    }
}

/// Cycling the colour a rule paints forwards and then backwards, or backwards and then
/// forwards, through a palette gives back the rule, when the colour is in the palette.
pub proof fn lemma_rotate_paint_inverse(v: StateView, index: int, colour: u8, palette_len: usize, backwards: bool)
    requires
        0 <= index < v.world.rules.len(),
        palette_len % 256 != 0,
        v.world.rules[index].contains_key(colour) ==> v.world.rules[index][colour].0 < palette_len % 256,
    ensures
        v.can_rotate_paint(index, colour, palette_len, backwards),
        v.paint_rotated(index, colour, palette_len, backwards).can_rotate_paint(index, colour, palette_len, !backwards),
        v.paint_rotated(index, colour, palette_len, backwards).paint_rotated(index, colour, palette_len, !backwards) == v,
{
    let rules = v.world.rules[index];
    if rules.contains_key(colour) {
        let p = rules[colour].0;
        let n = palette_len as int % 256;
        if p + 1 < n {
            vstd::arithmetic::div_mod::lemma_small_mod((p + 1) as nat, n as nat);
        } else {
            vstd::arithmetic::div_mod::lemma_mod_self_0(n);
        }
        if p == 0 {
            vstd::arithmetic::div_mod::lemma_mod_self_0(n);
        } else {
            vstd::arithmetic::div_mod::lemma_small_mod(p as nat, n as nat);
        }
        let u = v.paint_rotated(index, colour, palette_len, backwards).paint_rotated(index, colour, palette_len, !backwards);
        assert(u.world.rules[index] =~= rules);
        assert(u.world.rules =~= v.world.rules);
        assert(u.world =~= v.world);
    }
}

/// Some ant stands on cell (`x`, `y`) now (not where it started).
pub open spec fn stands_on(ants: Seq<Ant>, i: int, x: usize, y: usize) -> bool {
    0 <= i < ants.len() && ants[i].position.x == x && ants[i].position.y == y
}

/// Where some ant stands on a cell, a first one does.
proof fn lemma_first_standing(ants: Seq<Ant>, x: usize, y: usize, i: int)
    requires
        stands_on(ants, i, x, y),
    ensures
        exists|k: int| first_at(ants, x, y, k),
    decreases i,
{
    if exists|j: int| 0 <= j < i && stands_on(ants, j, x, y) {
        let j = choose|j: int| 0 <= j < i && stands_on(ants, j, x, y);
        lemma_first_standing(ants, x, y, j);
    } else {
        assert forall|j: int| 0 <= j < i implies !((#[trigger] ants[j]).position.x == x && ants[j].position.y == y) by {
            if ants[j].position.x == x && ants[j].position.y == y {
                assert(stands_on(ants, j, x, y));
            }
        }
        assert(first_at(ants, x, y, i));
    }
}

/// [`State::remove_ant`] finds an ant exactly when some ant stands on the cell now, and the
/// one it finds, the first in order, stands there; there is only one first.
pub proof fn lemma_remove_finds_standing(ants: Seq<Ant>, x: usize, y: usize)
    ensures
        (exists|i: int| first_at(ants, x, y, i)) == (exists|i: int| stands_on(ants, i, x, y)),
        forall|i: int| #[trigger] first_at(ants, x, y, i) ==> stands_on(ants, i, x, y)
            && forall|j: int| 0 <= j < i ==> !stands_on(ants, j, x, y),
        forall|i: int, j: int| first_at(ants, x, y, i) && first_at(ants, x, y, j) ==> i == j,
{
    if exists|i: int| stands_on(ants, i, x, y) {
        let i = choose|i: int| stands_on(ants, i, x, y);
        lemma_first_standing(ants, x, y, i);
    }
    assert forall|i: int| #[trigger] first_at(ants, x, y, i) implies stands_on(ants, i, x, y)
        && forall|j: int| 0 <= j < i ==> !stands_on(ants, j, x, y) by {}
    assert forall|i: int, j: int| first_at(ants, x, y, i) && first_at(ants, x, y, j) implies i == j by {
        if i < j {
            assert(stands_on(ants, i, x, y));
        } else if j < i {
            assert(stands_on(ants, j, x, y));
        }
    }
}

/// [`State::add_ant`] adds an ant exactly when no ant started on the cell itself (`x` mod
/// width, `y` mod height), whatever the starts in the same column or row: the new ant comes
/// last, starts and stands on that cell facing north, and follows rule set `instruction`
/// mod the number of rule sets; nothing else changes. Where an ant started on the cell,
/// nothing changes at all.
pub proof fn lemma_add_ant_by_start(v: StateView, x: usize, y: usize, instruction: usize)
    requires
        v.world.width > 0,
        v.world.height > 0,
        v.world.rules.len() > 0,
    ensures
        ({
            let x0 = (x % v.world.width) as usize;
            let y0 = (y % v.world.height) as usize;
            let n = v.world.ants.len();
            let u = v.ant_added(x, y, instruction);
            let cell = Position { x: x0, y: y0, orientation: Direction::North };
            &&& (forall|j: int| 0 <= j < n ==> (#[trigger] v.world.ants[j]).start_position.x != x0
                || v.world.ants[j].start_position.y != y0) ==> {
                &&& u.world.ants.len() == n + 1
                &&& u.world.ants.subrange(0, n as int) == v.world.ants
                &&& u.world.ants[n as int].start_position == cell
                &&& u.world.ants[n as int].position == cell
                &&& u.world.ants[n as int].instruction == (instruction as int % v.world.rules.len() as int) as usize
                &&& u.generation == v.generation
                &&& u.snapshots == v.snapshots
                &&& u.world == (World { ants: u.world.ants, ..v.world })
            }
            &&& (exists|j: int| 0 <= j < n && (#[trigger] v.world.ants[j]).start_position.x == x0
                && v.world.ants[j].start_position.y == y0) ==> u == v
        }),
{
    let x0 = (x % v.world.width) as usize;
    let y0 = (y % v.world.height) as usize;
    let n = v.world.ants.len();
    let u = v.ant_added(x, y, instruction);
    if !started_at(v.world.ants, x0, y0) {
        assert(u.world.ants.subrange(0, n as int) =~= v.world.ants);
    }
}

/// Rotating an ant's start turns it one compass point: clockwise (the number grows by one
/// modulo 8) or anticlockwise (backwards); its start cell, rule set and current position
/// stay, and so does every other ant.
pub proof fn lemma_rotate_ant_by_point(v: StateView, index: int, backwards: bool)
    requires
        0 <= index < v.world.ants.len(),
    ensures
        ({
            let a = v.world.ants[index];
            let b = v.ant_rotated(index, backwards).world.ants[index];
            &&& b.start_position.orientation.ordinal() == (a.start_position.orientation.ordinal() + if backwards {
                7nat
            } else {
                1nat
            }) % 8
            &&& b.start_position.x == a.start_position.x
            &&& b.start_position.y == a.start_position.y
            &&& b.instruction == a.instruction
            &&& b.position == a.position
            &&& v.ant_rotated(index, backwards).world.ants.len() == v.world.ants.len()
            &&& forall|j: int| 0 <= j < v.world.ants.len() && j != index ==> #[trigger] v.ant_rotated(
                index,
                backwards,
            ).world.ants[j] == v.world.ants[j]
        }),
{
}

/// Cycling the colour a rule paints through a palette of `n` colours (`palette_len` counted
/// in bytes) goes to the next colour, from the last to the first, forwards, and to the one
/// before, from the first to the last, backwards; the rule's turn stays.
pub proof fn lemma_rotate_paint_step(v: StateView, index: int, colour: u8, palette_len: usize, backwards: bool)
    requires
        0 <= index < v.world.rules.len(),
        v.world.rules[index].contains_key(colour),
        v.world.rules[index][colour].0 < palette_len % 256,
    ensures
        ({
            let n = palette_len as int % 256;
            let (p, t) = v.world.rules[index][colour];
            let r = v.paint_rotated(index, colour, palette_len, backwards).world.rules[index][colour];
            &&& !backwards ==> r.0 == if p + 1 == n { 0 } else { p + 1 }
            &&& backwards ==> r.0 == if p == 0 { n - 1 } else { p - 1 }
            &&& r.1 == t
        }),
{
    let n = palette_len as int % 256;
    let p = v.world.rules[index][colour].0;
    if p + 1 < n {
        vstd::arithmetic::div_mod::lemma_small_mod((p + 1) as nat, n as nat);
    } else {
        vstd::arithmetic::div_mod::lemma_mod_self_0(n);
    }
}

} // verus!
