//! The typed configuration of an attack: which patterns it shows and how its
//! transform may be chosen.

use crate::playfield::PatternBlueprint;
use vstd::prelude::*;

verus! {

/// Where the origin of a transform comes from.
#[derive(Clone, Copy, Debug, PartialEq, Eq, Structural)]
pub enum Origin {
    /// Anywhere on the rings.
    Random,
    /// Where the player stands.
    Targeted,
}

impl Default for Origin {
    fn default() -> (origin: Self)
        ensures
            origin == Origin::Random,
    {
        Origin::Random
    }
}

/// What a transform may do: where its origin comes from, and whether it may
/// swap the rings or reflect the pattern.
#[derive(Clone, Copy, Debug, PartialEq, Eq, Structural)]
pub struct TransformBlueprint {
    pub origin: Origin,
    pub transpose: bool,
    pub mirror: bool,
}

impl Default for TransformBlueprint {
    fn default() -> (blueprint: Self)
        ensures
            blueprint == (TransformBlueprint {
                origin: Origin::Random,
                transpose: false,
                mirror: false,
            }),
    {
        TransformBlueprint { origin: Origin::Random, transpose: false, mirror: false }
    }
}

/// The four shapes of an attack, each with its source patterns in the order in
/// which they are shown.
#[derive(Clone, Copy, Debug)]
pub enum AttackPatterns<const N: usize> {
    Four([PatternBlueprint<N>; 1]),
    FourPlusFour([PatternBlueprint<N>; 3]),
    Eight([PatternBlueprint<N>; 1]),
    EightPlusEight([PatternBlueprint<N>; 6]),
}

impl<const N: usize> AttackPatterns<N> {
    /// The source patterns, in declared order.
    pub open spec fn blueprints(&self) -> Seq<PatternBlueprint<N>> {
        match *self {
            AttackPatterns::Four(patterns) => patterns@,
            AttackPatterns::FourPlusFour(patterns) => patterns@,
            AttackPatterns::Eight(patterns) => patterns@,
            AttackPatterns::EightPlusEight(patterns) => patterns@,
        }
    }
}

/// One configured attack.
#[derive(Clone, Copy, Debug)]
pub struct Attack<const N: usize> {
    pub patterns: AttackPatterns<N>,
    pub transform: TransformBlueprint,
}

/// The rows of pattern `p` in a table that is laid out outer index first, then
/// pattern, then inner index.
pub open spec fn rows_of_pattern<const N: usize, const P: usize>(
    table: [[[bool; N]; P]; N],
    p: int,
) -> Seq<Seq<bool>> {
    Seq::new(N as nat, |o: int| table[o][p]@)
}

/// Splits a table laid out as outer index, pattern, inner index into its `P`
/// blueprints.
pub fn blueprints_from_rows<const N: usize, const P: usize>(table: [[[bool; N]; P]; N]) -> (blueprints:
    [PatternBlueprint<N>; P])
    ensures
        forall|p: int| 0 <= p < P ==> (#[trigger] blueprints[p])@ == rows_of_pattern(table, p),
{
    let mut blueprints = [PatternBlueprint::new([[false; N]; N]); P];
    let mut p: usize = 0;
    while p < P
        invariant
            p <= P,
            forall|q: int| 0 <= q < p ==> (#[trigger] blueprints[q])@ == rows_of_pattern(table, q),
        decreases P - p,
    {
        let mut cells = [[false; N]; N];
        let mut o: usize = 0;
        while o < N
            invariant
                o <= N,
                p < P,
                forall|o2: int| 0 <= o2 < o ==> (#[trigger] cells[o2])@ == table[o2][p as int]@,
            decreases N - o,
        {
            let mut i: usize = 0;
            while i < N
                invariant
                    i <= N,
                    o < N,
                    p < P,
                    forall|o2: int| 0 <= o2 < o ==> (#[trigger] cells[o2])@ == table[o2][p as int]@,
                    forall|i2: int| 0 <= i2 < i ==> cells[o as int][i2] == table[o as int][p as int][i2],
                decreases N - i,
            {
                cells[o][i] = table[o][p][i];
                i += 1;
            }
            assert(cells[o as int]@ =~= table[o as int][p as int]@);
            o += 1;
        }
        let blueprint = PatternBlueprint::new(cells);
        assert(blueprint@ =~= rows_of_pattern(table, p as int));
        blueprints[p] = blueprint;
        p += 1;
    }
    blueprints
}

} // verus!
