//! What one tick does to the game, given the random choices that it calls
//! for, and how those choices are made.

use crate::audio::{classify, Speaker, SpeakerView, Tick, DEATH_COUNTDOWN, PLAY_COUNTDOWN};
use crate::chance::{random_up_to, select_attack};
use crate::command::{Command, Flash};
use crate::level::Attack;
use crate::playfield::Transform;
use crate::queue::{announcements, pop_to_flash, popped, unpopped};
use crate::state::{Cue, GameState, GameView, PlayState, PlayStateView};
use rand::rngs::StdRng;
use vstd::prelude::*;

verus! {

/// The random choices that one tick may call for.
#[derive(Clone, Copy, Debug)]
pub struct Draw<const N: usize> {
    /// The section at which the music starts, for the first beat.
    pub section: i32,
    /// The attack to start, for a beat that finds the queue empty.
    pub attack: Option<Attack<N>>,
    /// The transform under which the attack starts.
    pub transform: Transform<N>,
}

/// A game with its speaker, the cues given so far, and whether the player has
/// died: what a tick works on.
pub struct Stage<const N: usize> {
    pub game: GameView<N>,
    pub speaker: SpeakerView,
    pub cues: Seq<Cue>,
    pub died: bool,
}

impl<const N: usize> Stage<N> {
    /// The stage after a tick of a running game. A countdown tick sounds a
    /// drum, the high one on the last. A beat starts the music if it is the
    /// first, follows the music, raises the high score to the beat, puts the
    /// drawn attack on an empty queue, and takes commands off the queue up to
    /// the first pattern: each announcement becomes the current attack and
    /// spins the rings, the pattern is shown, and a strike on the player's
    /// cell kills.
    pub open spec fn playing_tick(self, tick: Tick, draw: Draw<N>) -> Stage<N> {
        match tick {
            Tick::Countdown(n) => Stage {
                game: GameView { tick, ..self.game },
                cues: self.cues.push(
                    if n + 1 == PLAY_COUNTDOWN {
                        Cue::HighDrum
                    } else {
                        Cue::LowDrum
                    },
                ),
                ..self
            },
            Tick::Beat(beat) => {
                let commands = self.game.play_state->Playing_commands;
                let queue = if commands.len() == 0 && draw.attack is Some {
                    commands + draw.attack->0.commands(draw.transform)
                } else {
                    commands
                };
                let taken = popped(queue);
                Stage {
                    game: GameView {
                        play_state: PlayStateView::Playing {
                            commands: unpopped(queue),
                            curr_attack: match taken.attack {
                                Some((attack, _)) => Some(attack),
                                None => self.game.play_state->Playing_curr_attack,
                            },
                            curr_transform: match taken.attack {
                                Some((_, transform)) => transform,
                                None => self.game.play_state->Playing_curr_transform,
                            },
                        },
                        pattern: match taken.shown {
                            Some((pattern, _)) => pattern,
                            None => self.game.pattern,
                        },
                        flash: match taken.shown {
                            Some((_, flash)) => flash,
                            None => self.game.flash,
                        },
                        tick,
                        high_score: if self.game.high_score >= beat {
                            self.game.high_score
                        } else {
                            beat
                        },
                        ..self.game
                    },
                    speaker: (if beat == 0 {
                        self.speaker.seek(draw.section as int)
                    } else {
                        self.speaker
                    }).progress(beat),
                    cues: (if beat == 0 {
                        self.cues.push(Cue::StartMusic((draw.section * 16) as u64))
                    } else {
                        self.cues
                    }) + Seq::new(announcements(queue), |k: int| Cue::SpinFast),
                    died: taken.shown matches Some((pattern, flash)) && flash == Flash::Strike
                        && pattern.cell(self.game.player.0@, self.game.player.1@),
                }
            },
        }
    }

    /// The stage after a tick of a game that was lost: the game has lingered
    /// for the tick, and each announcement on the way has spun the rings slowly.
    pub open spec fn death_tick(self, tick: Tick, draw: Draw<N>) -> Stage<N> {
        Stage {
            game: self.game.lingered(tick, draw),
            cues: self.cues + Seq::new(self.game.linger_spins(tick, draw), |k: int| Cue::SpinSlow),
            ..self
        }
    }

    /// The stage once the tick to come has been handed out.
    pub open spec fn handed(self) -> Stage<N> {
        Stage {
            speaker: SpeakerView { processed: self.speaker.processed + 1, ..self.speaker },
            ..self
        }
    }

    /// The tick that is handed out next in a running game.
    pub open spec fn playing_next(self) -> Tick {
        classify(self.speaker.processed as u64, PLAY_COUNTDOWN)
    }

    /// The tick that is handed out next in a game that was lost.
    pub open spec fn death_next(self) -> Tick {
        classify(self.speaker.processed as u64, DEATH_COUNTDOWN)
    }
}

impl<const N: usize> GameView<N> {
    /// Whether `draw` is one that a tick of this running game could have made.
    /// The music starts at a section that was reached before. On a beat that
    /// finds the queue empty, the attack is one of `attacks` whose length
    /// divides the beat, under a transform that its blueprint admits, and it
    /// is missing only where no attack may start on the beat. On every other
    /// tick no attack is drawn.
    pub open spec fn playing_draw_fits(
        self,
        speaker: SpeakerView,
        attacks: Seq<Attack<N>>,
        tick: Tick,
        draw: Draw<N>,
    ) -> bool {
        &&& tick == Tick::Beat(0) ==> 0 <= draw.section <= speaker.record
        &&& if tick is Beat && self.play_state->Playing_commands.len() == 0 {
            match draw.attack {
                Some(attack) => {
                    &&& attacks.contains(attack)
                    &&& attack.spawn_quarters(tick->Beat_0) > 0
                    &&& attack.transform.admits(self.player, draw.transform)
                },
                None => forall|i: int|
                    0 <= i < attacks.len() ==> (#[trigger] attacks[i]).spawn_quarters(tick->Beat_0) == 0,
            }
        } else {
            draw.attack is None
        }
    }

    /// Whether `draw` is one that a tick of this lost game could have made: on
    /// a beat that finds the queue empty, the transform is one that the
    /// blueprint of the attack admits.
    pub open spec fn lingering_draw_fits(self, tick: Tick, draw: Draw<N>) -> bool {
        tick is Beat && self.play_state->Death_commands.len() == 0 && self.play_state->Death_attack is Some
            ==> self.play_state->Death_attack->0.transform.admits(self.player, draw.transform)
    }

    /// The queue of a lost game at a beat, before commands are taken off it:
    /// where it had run empty, the attack is put on it again, at the drawn
    /// origin and with the symmetries that it had when the player died.
    pub open spec fn relit(self, draw: Draw<N>) -> Seq<Command<N>> {
        let commands = self.play_state->Death_commands;
        let attack = self.play_state->Death_attack;
        let original = self.play_state->Death_original_transform;
        if commands.len() == 0 && attack is Some {
            commands + attack->0.commands(
                Transform {
                    origin: draw.transform.origin,
                    transpose: original.transpose,
                    mirror: original.mirror,
                },
            )
        } else {
            commands
        }
    }

    /// The number of announcements that a tick of a lost game takes off the queue.
    pub open spec fn linger_spins(self, tick: Tick, draw: Draw<N>) -> nat {
        match tick {
            Tick::Countdown(_) => 0,
            Tick::Beat(_) => announcements(self.relit(draw)),
        }
    }

    /// The game after a tick of a game that was lost. The last tick of the
    /// countdown hides the flashes. A beat takes commands off the queue up to
    /// the first pattern, which is shown.
    pub open spec fn lingered(self, tick: Tick, draw: Draw<N>) -> GameView<N> {
        match tick {
            Tick::Countdown(n) => GameView {
                draw_flashes: if n + 1 == DEATH_COUNTDOWN {
                    false
                } else {
                    self.draw_flashes
                },
                ..self
            },
            Tick::Beat(_) => {
                let taken = popped(self.relit(draw));
                GameView {
                    play_state: PlayStateView::Death {
                        commands: unpopped(self.relit(draw)),
                        attack: self.play_state->Death_attack,
                        original_transform: self.play_state->Death_original_transform,
                    },
                    pattern: match taken.shown {
                        Some((pattern, _)) => pattern,
                        None => self.pattern,
                    },
                    flash: match taken.shown {
                        Some((_, flash)) => flash,
                        None => self.flash,
                    },
                    ..self
                }
            },
        }
    }
}

/// Appends `count` copies of one cue.
fn push_cues(cues: &mut Vec<Cue>, cue: Cue, count: usize)
    ensures
        final(cues)@ == old(cues)@ + Seq::new(count as nat, |k: int| cue),
{
    let mut done: usize = 0;
    while done < count
        invariant
            done <= count,
            cues@ == old(cues)@ + Seq::new(done as nat, |k: int| cue),
        decreases count - done,
    {
        cues.push(cue);
        done += 1;
    }
}

impl<const N: usize> GameState<N> {
    /// Plays one tick of a running game with the choices in `draw`; tells
    /// whether the player died on it.
    pub fn play_tick(self, speaker: &mut Speaker, tick: Tick, draw: Draw<N>, cues: &mut Vec<Cue>) -> (next:
        (Self, bool))
        requires
            self.play_state is Playing,
            tick matches Tick::Countdown(n) ==> n < PLAY_COUNTDOWN,
            tick == Tick::Beat(0) ==> 0 <= draw.section <= old(speaker)@.record,
        ensures
            (Stage { game: next.0@, speaker: final(speaker)@, cues: final(cues)@, died: next.1 }) == (Stage {
                game: self@,
                speaker: old(speaker)@,
                cues: old(cues)@,
                died: false,
            }).playing_tick(tick, draw),
            next.0.play_state is Playing,
    {
        let ghost before = Stage {
            game: self@,
            speaker: speaker@,
            cues: cues@,
            died: false,
        };
        let GameState { play_state, player, pattern, flash, draw_flashes, tick: _, high_score } = self;
        match tick {
            Tick::Countdown(n) => {
                if n + 1 == PLAY_COUNTDOWN {
                    cues.push(Cue::HighDrum);
                } else {
                    cues.push(Cue::LowDrum);
                }
                (GameState { play_state, player, pattern, flash, draw_flashes, tick, high_score }, false)
            },
            Tick::Beat(beat) => {
                match play_state {
                    PlayState::Playing { mut commands, curr_attack, curr_transform } => {
                        if beat == 0 {
                            let start = speaker.seek_music(draw.section);
                            cues.push(Cue::StartMusic(start));
                        }
                        speaker.update_music_progress(beat);
                        let high_score = if high_score >= beat {
                            high_score
                        } else {
                            beat
                        };
                        if commands.len() == 0 {
                            if let Some(attack) = draw.attack {
                                attack.enqueue(&mut commands, draw.transform);
                            }
                        }
                        let taken = pop_to_flash(&mut commands);
                        push_cues(cues, Cue::SpinFast, taken.announced);
                        let (curr_attack, curr_transform) = match taken.attack {
                            Some((attack, transform)) => (Some(attack), transform),
                            None => (curr_attack, curr_transform),
                        };
                        let (pattern, flash, died) = match taken.shown {
                            Some((pattern, flash)) => (
                                pattern,
                                flash,
                                flash == Flash::Strike && pattern[player],
                            ),
                            None => (pattern, flash, false),
                        };
                        let next = GameState {
                            play_state: PlayState::Playing { commands, curr_attack, curr_transform },
                            player,
                            pattern,
                            flash,
                            draw_flashes,
                            tick,
                            high_score,
                        };
                        proof {
                            let after = before.playing_tick(tick, draw);
                            assert(next@.play_state == after.game.play_state);
                            assert(cues@ =~= after.cues);
                        }
                        (next, died)
                    },
                    other => (
                        GameState { play_state: other, player, pattern, flash, draw_flashes, tick, high_score },
                        false,
                    ),
                }
            },
        }
    }

    /// Plays one tick of a game that was lost with the choices in `draw`.
    pub fn linger_tick(self, tick: Tick, draw: Draw<N>, cues: &mut Vec<Cue>) -> (next: Self)
        requires
            self.play_state is Death,
            tick matches Tick::Countdown(n) ==> n < DEATH_COUNTDOWN,
        ensures
            next@ == self@.lingered(tick, draw),
            final(cues)@ == old(cues)@ + Seq::new(
                self@.linger_spins(tick, draw),
                |k: int| Cue::SpinSlow,
            ),
            next.play_state is Death,
    {
        let GameState { play_state, player, pattern, flash, draw_flashes, tick: last_tick, high_score } = self;
        match tick {
            Tick::Countdown(n) => {
                let draw_flashes = if n + 1 == DEATH_COUNTDOWN {
                    false
                } else {
                    draw_flashes
                };
                proof {
                    assert(cues@ =~= cues@ + Seq::new(0, |k: int| Cue::SpinSlow));
                }
                GameState { play_state, player, pattern, flash, draw_flashes, tick: last_tick, high_score }
            },
            Tick::Beat(_) => {
                match play_state {
                    PlayState::Death { mut commands, attack, original_transform } => {
                        if commands.len() == 0 {
                            if let Some(again) = attack {
                                let transform = Transform {
                                    origin: draw.transform.origin,
                                    transpose: original_transform.transpose,
                                    mirror: original_transform.mirror,
                                };
                                again.enqueue(&mut commands, transform);
                            }
                        }
                        let taken = pop_to_flash(&mut commands);
                        push_cues(cues, Cue::SpinSlow, taken.announced);
                        let (pattern, flash) = match taken.shown {
                            Some((pattern, flash)) => (pattern, flash),
                            None => (pattern, flash),
                        };
                        let next = GameState {
                            play_state: PlayState::Death { commands, attack, original_transform },
                            player,
                            pattern,
                            flash,
                            draw_flashes,
                            tick: last_tick,
                            high_score,
                        };
                        proof {
                            assert(next@.play_state == self@.lingered(tick, draw).play_state);
                        }
                        next
                    },
                    other => GameState {
                        play_state: other,
                        player,
                        pattern,
                        flash,
                        draw_flashes,
                        tick: last_tick,
                        high_score,
                    },
                }
            },
        }
    }

    /// Makes the random choices that `tick` calls for in a running game: the
    /// section of the music on the first beat, and the attack and its
    /// transform on a beat that finds the queue empty.
    pub fn draw_playing(&self, rng: &mut StdRng, speaker: &Speaker, attacks: &Vec<Attack<N>>, tick: Tick) -> (draw:
        Draw<N>)
        requires
            self.play_state is Playing,
        ensures
            self@.playing_draw_fits(speaker@, attacks@, tick, draw),
    {
        proof {
            use_type_invariant(self.player.0);
        }
        let none = Draw { section: 0, attack: None, transform: Transform::identity() };
        match tick {
            Tick::Countdown(_) => none,
            Tick::Beat(beat) => {
                let section = if beat == 0 {
                    random_up_to(rng, speaker.record())
                } else {
                    0
                };
                let spawning = match &self.play_state {
                    PlayState::Playing { commands, .. } => commands.len() == 0 && attacks.len() > 0,
                    _ => false,
                };
                if spawning {
                    match select_attack(rng, attacks, beat) {
                        Some(attack) => {
                            let transform = attack.transform.construct(rng, self.player);
                            Draw { section, attack: Some(attack), transform }
                        },
                        None => Draw { section, ..none },
                    }
                } else {
                    Draw { section, ..none }
                }
            },
        }
    }

    /// Makes the random choice that `tick` calls for in a game that was lost:
    /// the transform, on a beat that finds the queue empty.
    pub fn draw_lingering(&self, rng: &mut StdRng, tick: Tick) -> (draw: Draw<N>)
        requires
            self.play_state is Death,
        ensures
            self@.lingering_draw_fits(tick, draw),
    {
        proof {
            use_type_invariant(self.player.0);
        }
        let none = Draw { section: 0, attack: None, transform: Transform::identity() };
        match tick {
            Tick::Countdown(_) => none,
            Tick::Beat(_) => {
                match &self.play_state {
                    PlayState::Death { commands, attack, .. } => {
                        if commands.len() == 0 {
                            match attack {
                                Some(again) => Draw {
                                    transform: again.transform.construct(rng, self.player),
                                    ..none
                                },
                                None => none,
                            }
                        } else {
                            none
                        }
                    },
                    _ => none,
                }
            },
        }
    }
}

impl<const N: usize> GameView<N> {
    /// Whether the queue of this running game holds no more than what is left
    /// of the current attack: patterns only, and fewer of them than the attack
    /// has beats.
    pub open spec fn in_budget(self) -> bool {
        let commands = self.play_state->Playing_commands;
        &&& forall|k: int| 0 <= k < commands.len() ==> #[trigger] commands[k] is FlashPattern
        &&& commands.len() > 0 ==> self.play_state->Playing_curr_attack is Some && commands.len()
            < self.play_state->Playing_curr_attack->0.beats()
    }
}

impl<const N: usize> Stage<N> {
    /// A tick keeps the queue of a running game within the budget of its
    /// attack: an attack is put on the queue only when the queue is empty, and
    /// its announcement and first pattern leave the queue on the same beat.
    pub proof fn law_tick_keeps_budget(self, tick: Tick, draw: Draw<N>)
        requires
            self.game.play_state is Playing,
            self.game.in_budget(),
        ensures
            self.playing_tick(tick, draw).game.play_state is Playing,
            self.playing_tick(tick, draw).game.in_budget(),
    {
        reveal_with_fuel(announcements, 3);
        if tick is Beat {
            let commands = self.game.play_state->Playing_commands;
            if commands.len() == 0 && draw.attack is Some {
                let queue = commands + draw.attack->0.commands(draw.transform);
                assert(queue[0] is NewAttack);
                assert(queue.skip(1)[0] == queue[1]);
                assert(queue[1] is FlashPattern);
                assert(announcements(queue) == 1);
            } else if commands.len() > 0 {
                assert(commands[0] is FlashPattern);
                assert(announcements(commands) == 0);
            }
        }
    }
}

} // verus!
