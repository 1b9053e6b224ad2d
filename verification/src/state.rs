//! The state of the game: its phases, the player, and what is on show.

use crate::audio::Tick;
use crate::chance::random_position;
use crate::command::{Command, Flash};
use crate::level::Attack;
use crate::playfield::{blank, Coord, Pattern, Transform};
use rand::rngs::StdRng;
use std::collections::VecDeque;
use vstd::prelude::*;

verus! {

/// The keys that were pressed since the last frame.
#[derive(Clone, Copy, Debug, PartialEq, Eq, Structural)]
pub struct Input {
    /// One sector back on the inner ring.
    pub inner_back: bool,
    /// One sector forward on the inner ring.
    pub inner_forward: bool,
    /// One sector back on the outer ring.
    pub outer_back: bool,
    /// One sector forward on the outer ring.
    pub outer_forward: bool,
    /// Start a game, or start over.
    pub start: bool,
    /// Give up the running game.
    pub force_death: bool,
}

/// One reading of the clock.
#[derive(Clone, Copy, Debug, PartialEq, Eq, Structural)]
pub struct Clock {
    /// The whole ticks since the clock was started.
    pub ticks: u64,
    /// Whether less than half of the next tick has passed.
    pub first_half: bool,
}

/// Something for the caller to carry out once the frame has returned.
#[derive(Clone, Copy, Debug, PartialEq, Eq, Structural)]
pub enum Cue {
    /// Play the low drum of the countdown.
    LowDrum,
    /// Play the high drum that ends the countdown.
    HighDrum,
    /// Play the sound of the player's death.
    DeathSound,
    /// Start the looping music at the given beat.
    StartMusic(u64),
    /// Stop the music.
    StopMusic,
    /// Restart the clock from tick zero.
    RestartClock,
    /// Turn the rings at a new, fast speed.
    SpinFast,
    /// Turn the rings at a new, slow speed.
    SpinSlow,
    /// Set the rings to new angles.
    NewAngles,
}

/// The phase that the game is in.
#[derive(Debug)]
pub enum PlayState<const N: usize> {
    /// Before the first game.
    Initial,
    /// A game is running.
    Playing {
        commands: VecDeque<Command<N>>,
        curr_attack: Option<Attack<N>>,
        curr_transform: Transform<N>,
    },
    /// The player has died; the attack that did it plays on.
    Death {
        commands: VecDeque<Command<N>>,
        attack: Option<Attack<N>>,
        original_transform: Transform<N>,
    },
    /// The phase changes with the next frame, which restarts the clock first.
    Transition(Box<PlayState<N>>),
}

/// A phase, with each queue as the sequence of its commands.
pub enum PlayStateView<const N: usize> {
    Initial,
    Playing {
        commands: Seq<Command<N>>,
        curr_attack: Option<Attack<N>>,
        curr_transform: Transform<N>,
    },
    Death {
        commands: Seq<Command<N>>,
        attack: Option<Attack<N>>,
        original_transform: Transform<N>,
    },
    Transition(Box<PlayStateView<N>>),
}

impl<const N: usize> PlayState<N> {
    /// The phase with each queue as the sequence of its commands.
    pub open spec fn phase(&self) -> PlayStateView<N>
        decreases self,
    {
        match self {
            PlayState::Initial => PlayStateView::Initial,
            PlayState::Playing { commands, curr_attack, curr_transform } => PlayStateView::Playing {
                commands: commands@,
                curr_attack: *curr_attack,
                curr_transform: *curr_transform,
            },
            PlayState::Death { commands, attack, original_transform } => PlayStateView::Death {
                commands: commands@,
                attack: *attack,
                original_transform: *original_transform,
            },
            PlayState::Transition(inner) => PlayStateView::Transition(Box::new(inner.phase())),
        }
    }
}

impl<const N: usize> View for PlayState<N> {
    type V = PlayStateView<N>;

    open spec fn view(&self) -> PlayStateView<N> {
        self.phase()
    }
}

/// Everything that a frame reads and writes, but for the speaker.
#[derive(Debug)]
pub struct GameState<const N: usize> {
    pub play_state: PlayState<N>,
    pub player: (Coord<N>, Coord<N>),
    pub pattern: Pattern<N>,
    pub flash: Flash,
    pub draw_flashes: bool,
    pub tick: Tick,
    pub high_score: u64,
}

/// A game state, with its phase as a view.
pub struct GameView<const N: usize> {
    pub play_state: PlayStateView<N>,
    pub player: (Coord<N>, Coord<N>),
    pub pattern: Pattern<N>,
    pub flash: Flash,
    pub draw_flashes: bool,
    pub tick: Tick,
    pub high_score: u64,
}

impl<const N: usize> View for GameState<N> {
    type V = GameView<N>;

    open spec fn view(&self) -> GameView<N> {
        GameView {
            play_state: self.play_state@,
            player: self.player,
            pattern: self.pattern,
            flash: self.flash,
            draw_flashes: self.draw_flashes,
            tick: self.tick,
            high_score: self.high_score,
        }
    }
}

/// Wraps a phase so that the clock is restarted before the phase begins.
pub fn transition_state<const N: usize>(play_state: PlayState<N>) -> (wrapped: PlayState<N>)
    ensures
        wrapped@ == PlayStateView::Transition(Box::new(play_state@)),
        wrapped == PlayState::Transition(Box::new(play_state)),
{
    PlayState::Transition(Box::new(play_state))
}

/// How one cell of the playfield looks.
#[derive(Clone, Copy, Debug, PartialEq, Eq, Structural)]
pub struct Tile {
    /// The phase of the pattern that lights the cell, if one does.
    pub lit: Option<Flash>,
    /// Whether the player stands on the cell.
    pub occupied: bool,
}

impl<const N: usize> GameState<N> {
    /// How the cell at `position` looks: lit where the pattern is set and the
    /// flashes are shown, and occupied where the player stands.
    pub fn tile(&self, position: (Coord<N>, Coord<N>)) -> (tile: Tile)
        ensures
            tile.lit == if self.draw_flashes && self.pattern.cell(position.0@, position.1@) {
                Some(self.flash)
            } else {
                None
            },
            tile.occupied == (position.0@ == self.player.0@ && position.1@ == self.player.1@),
    {
        Tile {
            lit: if self.draw_flashes && self.pattern[position] {
                Some(self.flash)
            } else {
                None
            },
            occupied: position.0 == self.player.0 && position.1 == self.player.1,
        }
    }
}

/// Where the player stands after the moves of one frame: on each ring, a step
/// back if it was asked for, then a step forward if it was asked for.
pub open spec fn moved<const N: usize>(player: (Coord<N>, Coord<N>), input: Input) -> (
    Coord<N>,
    Coord<N>,
) {
    let one = Coord::<N>::at(1int % N as int);
    let inner_back = if input.inner_back {
        player.0.minus(one)
    } else {
        player.0
    };
    let inner = if input.inner_forward {
        inner_back.plus(one)
    } else {
        inner_back
    };
    let outer_back = if input.outer_back {
        player.1.minus(one)
    } else {
        player.1
    };
    let outer = if input.outer_forward {
        outer_back.plus(one)
    } else {
        outer_back
    };
    (inner, outer)
}

/// Moves the player by the keys of one frame.
pub fn move_player<const N: usize>(player: (Coord<N>, Coord<N>), input: Input) -> (to: (
    Coord<N>,
    Coord<N>,
))
    ensures
        to == moved(player, input),
{
    proof {
        use_type_invariant(player.0);
    }
    let (mut inner, mut outer) = player;
    if input.inner_back {
        inner = inner - Coord::one();
    }
    if input.inner_forward {
        inner = inner + Coord::one();
    }
    if input.outer_back {
        outer = outer - Coord::one();
    }
    if input.outer_forward {
        outer = outer + Coord::one();
    }
    (inner, outer)
}

impl<const N: usize> GameView<N> {
    /// The game that a new round starts with: about to play, with an empty
    /// queue and nothing shown, the countdown at its first tick.
    pub open spec fn fresh(player: (Coord<N>, Coord<N>), high_score: u64) -> GameView<N> {
        GameView {
            play_state: PlayStateView::Transition(
                Box::new(
                    PlayStateView::Playing {
                        commands: Seq::empty(),
                        curr_attack: None,
                        curr_transform: Transform::plain(),
                    },
                ),
            ),
            player,
            pattern: Pattern::of(blank(N as int)),
            flash: Flash::Warn,
            draw_flashes: false,
            tick: Tick::Countdown(0),
            high_score,
        }
    }
}

/// A game about to start, with the player at a random position.
pub fn new_game<const N: usize>(rng: &mut StdRng, high_score: u64) -> (game: GameState<N>)
    requires
        N > 0,
    ensures
        game@ == GameView::fresh(game.player, high_score),
        game.player.0.on_ring(),
        game.player.1.on_ring(),
{
    let pattern = Pattern::empty();
    proof {
        pattern.lemma_grid_of();
    }
    GameState {
        play_state: transition_state(
            PlayState::Playing {
                commands: VecDeque::new(),
                curr_attack: None,
                curr_transform: Transform::identity(),
            },
        ),
        player: random_position(rng),
        pattern,
        flash: Flash::Warn,
        draw_flashes: false,
        tick: Tick::Countdown(0),
        high_score,
    }
}

} // verus!
