use vstd::prelude::*;

use std::collections::BTreeMap;

use crate::direction::Direction;

verus! {

/// What an ant does on a cell of a given colour: the colour it paints the cell, and the turn
/// it then takes (`None`: it stays where it is).
pub type Rule = (u8, Option<Direction>);

/// A rule set: for each colour of the palette, the rule an ant follows there.
#[derive(Clone, Debug)]
pub struct Instruction {
    /// Map from current palette index to next palette index and direction
    pub map: BTreeMap<u8, Rule>,
}

/// The rule set of a new state: eight colours, each painted over by the next one (the last
/// by the first), with the turns east, west, north, east, west, south, east, west.
pub open spec fn default_rules() -> Map<u8, Rule> {
    map![
        0u8 => (1u8, Some(Direction::East)),
        1u8 => (2u8, Some(Direction::West)),
        2u8 => (3u8, Some(Direction::North)),
        3u8 => (4u8, Some(Direction::East)),
        4u8 => (5u8, Some(Direction::West)),
        5u8 => (6u8, Some(Direction::South)),
        6u8 => (7u8, Some(Direction::East)),
        7u8 => (0u8, Some(Direction::West)),
    ]
}

impl Instruction {
    /// A copy of the rule set with the same rules.
    pub fn duplicate(&self) -> (r: Instruction)
        ensures
            r.map@ == self.map@,
    {
        Instruction { map: self.map.clone() }
    }

    /// The rule for colour `colour`, if the rule set has one.
    pub fn rule(&self, colour: u8) -> (r: Option<Rule>)
        ensures
            r == (if self.map@.contains_key(colour) {
                Some(self.map@[colour])
            } else {
                None
            }),
    {
        match self.map.get(&colour) {
            Some(rule) => Some(*rule),
            None => None,
        }
    }
}

impl Default for Instruction {
    /// The rule set of a new state, [`default_rules`].
    fn default() -> (r: Instruction)
        ensures
            r.map@ == default_rules(),
    {
        let mut map: BTreeMap<u8, Rule> = BTreeMap::new();
        map.insert(0, (1, Some(Direction::East)));
        map.insert(1, (2, Some(Direction::West)));
        map.insert(2, (3, Some(Direction::North)));
        map.insert(3, (4, Some(Direction::East)));
        map.insert(4, (5, Some(Direction::West)));
        map.insert(5, (6, Some(Direction::South)));
        map.insert(6, (7, Some(Direction::East)));
        map.insert(7, (0, Some(Direction::West)));
        Instruction { map }
    }
}

/// The default rule set has a rule for exactly the colours 0 to 7; each paints the next
/// colour, the last painting colour 0; the turns run east, west, north, east, west, south,
/// east, west: a right or left turn on every colour but 2 (north, straight on) and 5
/// (south, back).
pub proof fn lemma_default_rules()
    ensures
        forall|c: u8| #[trigger] default_rules().contains_key(c) <==> c < 8,
        forall|c: u8| c < 8 ==> #[trigger] default_rules()[c].0 == (c + 1) % 8,
        forall|c: u8| c < 8 && c % 3 == 0 ==> #[trigger] default_rules()[c].1 == Some(Direction::East),
        forall|c: u8| c < 8 && c % 3 == 1 ==> #[trigger] default_rules()[c].1 == Some(Direction::West),
        default_rules()[2].1 == Some(Direction::North),
        default_rules()[5].1 == Some(Direction::South),
{
    assert forall|c: u8| #[trigger] default_rules().contains_key(c) <==> c < 8 by {}
}

} // verus!
