//! The commands that an attack is expanded into: one announcement, then one
//! pattern per beat, warned first and struck afterwards.

use crate::chance::{random_position, random_ratio};
use crate::level::{Attack, AttackPatterns, Origin, TransformBlueprint};
use crate::playfield::{blank, Coord, Pattern, PatternBlueprint, Transform};
use rand::rngs::StdRng;
use std::collections::VecDeque;
use vstd::prelude::*;

verus! {

/// The phase in which a pattern is shown: a warning does no harm, a strike
/// kills a player who stands on a set cell.
#[derive(Clone, Copy, Debug, PartialEq, Eq, Structural)]
pub enum Flash {
    Warn,
    Strike,
}

/// One unit of work for the game: the announcement of an attack, or one
/// pattern to show for one beat.
#[derive(Clone, Copy, Debug)]
pub enum Command<const N: usize> {
    NewAttack(Attack<N>, Transform<N>),
    FlashPattern(Pattern<N>, Flash),
}

impl<const N: usize> Command<N> {
    pub(crate) fn warn(pattern: Pattern<N>) -> (command: Self)
        ensures
            command == Command::FlashPattern(pattern, Flash::Warn),
    {
        Command::FlashPattern(pattern, Flash::Warn)
    }

    pub(crate) fn strike(pattern: Pattern<N>) -> (command: Self)
        ensures
            command == Command::FlashPattern(pattern, Flash::Strike),
    {
        Command::FlashPattern(pattern, Flash::Strike)
    }
}

impl TransformBlueprint {
    /// Whether `transform` is one that this blueprint may give for a player at
    /// `player`: a targeted origin is the player's position, and the rings are
    /// swapped or the pattern reflected only where the blueprint allows it.
    pub open spec fn admits<const N: usize>(
        &self,
        player: (Coord<N>, Coord<N>),
        transform: Transform<N>,
    ) -> bool {
        &&& transform.origin.0.on_ring()
        &&& transform.origin.1.on_ring()
        &&& self.origin == Origin::Targeted ==> transform.origin == player
        &&& transform.transpose ==> self.transpose
        &&& transform.mirror ==> self.mirror
    }

    /// The transform that the blueprint gives once the draws are made: the
    /// origin is the player's position where it is targeted and the drawn
    /// position elsewhere, and each symmetry is applied where the blueprint
    /// allows it and its flip came up.
    pub fn place<const N: usize>(
        &self,
        player: (Coord<N>, Coord<N>),
        drawn: (Coord<N>, Coord<N>),
        flip_transpose: bool,
        flip_mirror: bool,
    ) -> (transform: Transform<N>)
        ensures
            transform.origin == if self.origin == Origin::Targeted {
                player
            } else {
                drawn
            },
            transform.transpose == (self.transpose && flip_transpose),
            transform.mirror == (self.mirror && flip_mirror),
    {
        Transform {
            origin: match self.origin {
                Origin::Random => drawn,
                Origin::Targeted => player,
            },
            transpose: self.transpose && flip_transpose,
            mirror: self.mirror && flip_mirror,
        }
    }

    /// Chooses a transform: draws a position where the origin is random, flips
    /// a fair coin for each symmetry that is allowed, and places the blueprint
    /// by these draws.
    pub fn construct<const N: usize>(&self, rng: &mut StdRng, player: (Coord<N>, Coord<N>)) -> (transform:
        Transform<N>)
        ensures
            self.admits(player, transform),
    {
        proof {
            use_type_invariant(player.0);
            use_type_invariant(player.1);
        }
        let drawn = match self.origin {
            Origin::Random => random_position(rng),
            Origin::Targeted => player,
        };
        let flip_transpose = self.transpose && random_ratio(rng, 1, 2);
        let flip_mirror = self.mirror && random_ratio(rng, 1, 2);
        self.place(player, drawn, flip_transpose, flip_mirror)
    }
}

impl<const N: usize> Attack<N> {
    /// The number of beats that the attack occupies.
    pub open spec fn beats(&self) -> nat {
        match self.patterns {
            AttackPatterns::Four(_) => 4,
            AttackPatterns::FourPlusFour(_) => 8,
            AttackPatterns::Eight(_) => 8,
            AttackPatterns::EightPlusEight(_) => 16,
        }
    }

    /// The weight of the attack in a random choice, counted in quarters.
    pub open spec fn quarters(&self) -> nat {
        match self.patterns {
            AttackPatterns::Four(_) => 1,
            AttackPatterns::FourPlusFour(_) => 2,
            AttackPatterns::Eight(_) => 2,
            AttackPatterns::EightPlusEight(_) => 4,
        }
    }

    /// The number of beats, from the first, on which the attack only warns.
    pub open spec fn warnings(&self) -> nat {
        match self.patterns {
            AttackPatterns::Four(_) => 3,
            AttackPatterns::FourPlusFour(_) => 4,
            AttackPatterns::Eight(_) => 7,
            AttackPatterns::EightPlusEight(_) => 8,
        }
    }

    /// The phase of the pattern shown on beat `k` of the attack.
    pub open spec fn slot_flash(&self, k: int) -> Flash {
        if k < self.warnings() {
            Flash::Warn
        } else {
            Flash::Strike
        }
    }

    /// The source pattern shown on beat `k` of the attack, or `None` where the
    /// beat is padded with the empty pattern. An attack with one pattern shows
    /// it on every beat. One with several shows them in declared order, once in
    /// each half, and pads the rest of the half.
    pub open spec fn slot_source(&self, k: int) -> Option<int> {
        match self.patterns {
            AttackPatterns::Four(_) => Some(0),
            AttackPatterns::FourPlusFour(_) => if k % 4 < 3 {
                Some(k % 4)
            } else {
                None
            },
            AttackPatterns::Eight(_) => Some(0),
            AttackPatterns::EightPlusEight(_) => if k % 8 < 6 {
                Some(k % 8)
            } else {
                None
            },
        }
    }

    /// The grid shown on beat `k` of the attack under `transform`.
    pub open spec fn slot_grid(&self, transform: Transform<N>, k: int) -> Seq<Seq<bool>> {
        match self.slot_source(k) {
            Some(j) => self.patterns.blueprints()[j].placed_by(transform),
            None => blank(N as int),
        }
    }

    /// The command for beat `k` of the attack under `transform`.
    pub open spec fn slot_command(&self, transform: Transform<N>, k: int) -> Command<N> {
        Command::FlashPattern(Pattern::of(self.slot_grid(transform, k)), self.slot_flash(k))
    }

    /// Everything the attack puts on the queue: its announcement, then one
    /// command for each of its beats.
    pub open spec fn commands(&self, transform: Transform<N>) -> Seq<Command<N>> {
        seq![Command::NewAttack(*self, transform)] + Seq::new(
            self.beats(),
            |k: int| self.slot_command(transform, k),
        )
    }

    pub fn beat_length(&self) -> (length: u64)
        ensures
            length == self.beats(),
    {
        match self.patterns {
            AttackPatterns::Four(_) => 4,
            AttackPatterns::FourPlusFour(_) => 8,
            AttackPatterns::Eight(_) => 8,
            AttackPatterns::EightPlusEight(_) => 16,
        }
    }

    /// The weight of the attack in quarters: 1 stands for 0.25, 4 for 1.0.
    pub fn weight_quarters(&self) -> (quarters: u32)
        ensures
            quarters == self.quarters(),
    {
        match self.patterns {
            AttackPatterns::Four(_) => 1,
            AttackPatterns::FourPlusFour(_) => 2,
            AttackPatterns::Eight(_) => 2,
            AttackPatterns::EightPlusEight(_) => 4,
        }
    }

    /// The weight with which the attack may start on `beat`: its own weight
    /// where its length divides the beat, and none elsewhere.
    pub open spec fn spawn_quarters(&self, beat: u64) -> nat {
        if beat as nat % self.beats() == 0 {
            self.quarters()
        } else {
            0
        }
    }

    /// The weight with which the attack may start on `beat`, in quarters.
    pub fn spawn_weight(&self, beat: u64) -> (quarters: u128)
        ensures
            quarters == self.spawn_quarters(beat),
    {
        if beat % self.beat_length() == 0 {
            self.weight_quarters() as u128
        } else {
            0
        }
    }

    /// The number of source patterns.
    fn source_count(&self) -> (count: usize)
        ensures
            count == self.patterns.blueprints().len(),
    {
        match self.patterns {
            AttackPatterns::Four(_) => 1,
            AttackPatterns::FourPlusFour(_) => 3,
            AttackPatterns::Eight(_) => 1,
            AttackPatterns::EightPlusEight(_) => 6,
        }
    }

    /// The source pattern at place `j` of the declared order.
    fn source(&self, j: usize) -> (blueprint: &PatternBlueprint<N>)
        requires
            j < self.patterns.blueprints().len(),
        ensures
            *blueprint == self.patterns.blueprints()[j as int],
    {
        match &self.patterns {
            AttackPatterns::Four(patterns) => &patterns[j],
            AttackPatterns::FourPlusFour(patterns) => &patterns[j],
            AttackPatterns::Eight(patterns) => &patterns[j],
            AttackPatterns::EightPlusEight(patterns) => &patterns[j],
        }
    }

    /// Every source pattern placed under `transform`, in declared order.
    fn construct_all(&self, transform: Transform<N>) -> (shown: Vec<Pattern<N>>)
        ensures
            shown@.len() == self.patterns.blueprints().len(),
            forall|j: int|
                0 <= j < shown@.len() ==> (#[trigger] shown@[j])@ == self.patterns.blueprints()[j].placed_by(
                    transform,
                ),
    {
        let count = self.source_count();
        let mut shown: Vec<Pattern<N>> = Vec::new();
        let mut j: usize = 0;
        while j < count
            invariant
                j <= count,
                count == self.patterns.blueprints().len(),
                shown@.len() == j,
                forall|j2: int|
                    0 <= j2 < j ==> (#[trigger] shown@[j2])@ == self.patterns.blueprints()[j2].placed_by(
                        transform,
                    ),
            decreases count - j,
        {
            shown.push(self.source(j).construct(transform));
            j += 1;
        }
        shown
    }

    /// The index of the source pattern shown on beat `k`, if the beat is not padded.
    fn source_at(&self, k: u64) -> (source: Option<usize>)
        requires
            k < self.beats(),
        ensures
            source matches Some(j) ==> self.slot_source(k as int) == Some(j as int) && j
                < self.patterns.blueprints().len(),
            source is None ==> self.slot_source(k as int) is None,
    {
        match self.patterns {
            AttackPatterns::Four(_) => Some(0),
            AttackPatterns::FourPlusFour(_) => if k % 4 < 3 {
                Some((k % 4) as usize)
            } else {
                None
            },
            AttackPatterns::Eight(_) => Some(0),
            AttackPatterns::EightPlusEight(_) => if k % 8 < 6 {
                Some((k % 8) as usize)
            } else {
                None
            },
        }
    }

    /// The count of beats on which the attack only warns.
    fn warning_count(&self) -> (count: u64)
        ensures
            count == self.warnings(),
    {
        match self.patterns {
            AttackPatterns::Four(_) => 3,
            AttackPatterns::FourPlusFour(_) => 4,
            AttackPatterns::Eight(_) => 7,
            AttackPatterns::EightPlusEight(_) => 8,
        }
    }

    /// Appends the attack to the queue: its announcement, then one pattern per
    /// beat, the warnings before the strikes.
    pub fn enqueue(self, commands: &mut VecDeque<Command<N>>, transform: Transform<N>)
        ensures
            final(commands)@ == old(commands)@ + self.commands(transform),
    {
        commands.push_back(Command::NewAttack(self, transform));
        let shown = self.construct_all(transform);
        let length = self.beat_length();
        let warnings = self.warning_count();
        let mut k: u64 = 0;
        while k < length
            invariant
                k <= length,
                length == self.beats(),
                warnings == self.warnings(),
                shown@.len() == self.patterns.blueprints().len(),
                forall|j: int|
                    0 <= j < shown@.len() ==> (#[trigger] shown@[j])@ == self.patterns.blueprints()[j].placed_by(transform),
                commands@ == old(commands)@ + self.commands(transform).take(k + 1),
            decreases length - k,
        {
            let pattern = match self.source_at(k) {
                Some(j) => shown[j],
                None => Pattern::empty(),
            };
            let command = if k < warnings {
                Command::warn(pattern)
            } else {
                Command::strike(pattern)
            };
            proof {
                pattern.lemma_grid_of();
                assert(command == self.slot_command(transform, k as int));
                assert(self.commands(transform).take(k + 2) =~= self.commands(transform).take(k + 1).push(
                    command,
                ));
            }
            commands.push_back(command);
            k += 1;
        }
        proof {
            assert(self.commands(transform).take(length + 1) =~= self.commands(transform));
        }
    }
}

impl<const N: usize> Attack<N> {
    /// An attack puts one command more on the queue than it has beats, and the
    /// first of them announces the attack.
    pub proof fn law_queue_length(self, transform: Transform<N>)
        ensures
            self.commands(transform).len() == self.beats() + 1,
            self.commands(transform)[0] == Command::NewAttack(self, transform),
    {
    }

    /// After the announcement come the warnings and then the strikes, never
    /// mixed: command `k` warns up to the attack's count of warnings and
    /// strikes from there to the last beat.
    pub proof fn law_warnings_before_strikes(self, transform: Transform<N>, k: int)
        requires
            1 <= k <= self.beats(),
        ensures
            self.commands(transform)[k] matches Command::FlashPattern(_, flash) && flash == if k
                <= self.warnings() {
                Flash::Warn
            } else {
                Flash::Strike
            },
    {
    }

    /// An attack of several patterns warns in the first half of its beats and
    /// strikes in the second half.
    pub proof fn law_equal_halves(self, transform: Transform<N>, k: int)
        requires
            self.patterns is FourPlusFour || self.patterns is EightPlusEight,
            1 <= k <= self.beats(),
        ensures
            self.commands(transform)[k] matches Command::FlashPattern(_, flash) && flash == if k
                <= self.beats() / 2 {
                Flash::Warn
            } else {
                Flash::Strike
            },
    {
    }
}

} // verus!
