//! One frame of the game.
//!
//! A frame is given the key presses since the last one and one reading of the
//! clock. Whatever it wants heard or shown beyond the state is returned as a
//! list of cues, to be carried out in order.

use crate::audio::{classify, Speaker, SpeakerView, Tick, DEATH_COUNTDOWN, PLAY_COUNTDOWN};
use crate::level::Attack;
use crate::playfield::Transform;
use crate::state::{
    move_player, moved, new_game, transition_state, Clock, Cue, GameState, GameView, Input, PlayState,
    PlayStateView,
};
use crate::step::{Draw, Stage};
use rand::rngs::StdRng;
use std::collections::VecDeque;
use vstd::prelude::*;

verus! {

impl<const N: usize> Stage<N> {
    /// The stage after one tick of a running game for each draw, in turn.
    pub open spec fn played(self, draws: Seq<Draw<N>>) -> Stage<N>
        decreases draws.len(),
    {
        if draws.len() == 0 {
            self
        } else {
            let before = self.played(draws.drop_last());
            before.handed().playing_tick(before.playing_next(), draws.last())
        }
    }

    /// Whether `draws` can be the draws of the ticks of a running game: each
    /// tick has come by the clock count `clock_ticks`, the player has not died
    /// before it, and its draw is one that the tick could have made.
    pub open spec fn play_fits(self, clock_ticks: u64, attacks: Seq<Attack<N>>, draws: Seq<Draw<N>>) -> bool
        decreases draws.len(),
    {
        draws.len() == 0 || {
            let before = self.played(draws.drop_last());
            &&& self.play_fits(clock_ticks, attacks, draws.drop_last())
            &&& !before.died
            &&& before.speaker.processed <= clock_ticks
            &&& before.game.playing_draw_fits(
                before.speaker,
                attacks,
                before.playing_next(),
                draws.last(),
            )
        }
    }

    /// The stage after one tick of a game that was lost for each draw, in turn.
    pub open spec fn lingered(self, draws: Seq<Draw<N>>) -> Stage<N>
        decreases draws.len(),
    {
        if draws.len() == 0 {
            self
        } else {
            let before = self.lingered(draws.drop_last());
            before.handed().death_tick(before.death_next(), draws.last())
        }
    }

    /// Whether `draws` can be the draws of the ticks of a game that was lost:
    /// each tick has come by the clock count `clock_ticks`, and its draw is one
    /// that the tick could have made.
    pub open spec fn linger_fits(self, clock_ticks: u64, draws: Seq<Draw<N>>) -> bool
        decreases draws.len(),
    {
        draws.len() == 0 || {
            let before = self.lingered(draws.drop_last());
            &&& self.linger_fits(clock_ticks, draws.drop_last())
            &&& before.speaker.processed <= clock_ticks
            &&& before.game.lingering_draw_fits(before.death_next(), draws.last())
        }
    }

    /// The stage at the end of a frame of a running game. After a death the
    /// rings slow down, the death is sounded, the music stops and the clock
    /// restarts, and the game goes over to the death phase with an empty
    /// queue, the attack and the transform that were current, and the flashes
    /// shown. Otherwise the flashes are shown in the first half of each beat.
    pub open spec fn settled(self, clock: Clock) -> Stage<N> {
        if self.died {
            Stage {
                game: GameView {
                    play_state: PlayStateView::Transition(
                        Box::new(
                            PlayStateView::Death {
                                commands: Seq::empty(),
                                attack: self.game.play_state->Playing_curr_attack,
                                original_transform: self.game.play_state->Playing_curr_transform,
                            },
                        ),
                    ),
                    draw_flashes: true,
                    ..self.game
                },
                speaker: self.speaker.restart(),
                cues: self.cues + seq![Cue::SpinSlow, Cue::DeathSound, Cue::StopMusic, Cue::RestartClock],
                died: false,
            }
        } else {
            Stage { game: GameView { draw_flashes: clock.first_half, ..self.game }, ..self }
        }
    }

    /// Whether `after` is this stage with a new round begun: a fresh game that
    /// keeps the high score, with the player somewhere on the rings, and the
    /// rings set to new angles and a fast spin.
    pub open spec fn starts_over(self, after: Stage<N>) -> bool {
        &&& after.game == GameView::fresh(after.game.player, self.game.high_score)
        &&& after.game.player.0.on_ring()
        &&& after.game.player.1.on_ring()
        &&& after.speaker == self.speaker
        &&& after.cues == self.cues + seq![Cue::NewAngles, Cue::SpinFast]
        &&& after.died == self.died
    }

    /// The stage with the player moved by the keys of a frame.
    pub open spec fn stepped(self, input: Input) -> Stage<N> {
        Stage { game: GameView { player: moved(self.game.player, input), ..self.game }, ..self }
    }

    /// The stage of a lost game with its flashes set by the clock: once the
    /// countdown is over, they show in the first half of each beat.
    pub open spec fn blinking(self, clock: Clock) -> Stage<N> {
        Stage {
            game: GameView {
                draw_flashes: if classify(clock.ticks, DEATH_COUNTDOWN) is Beat {
                    clock.first_half
                } else {
                    self.game.draw_flashes
                },
                ..self.game
            },
            ..self
        }
    }

    /// Whether `after` is what one frame can make of this stage.
    ///
    /// Before the first game, and after a death, the start key begins a new
    /// round; without it nothing happens before the first game. A transition
    /// restarts the clock and gives way to the phase that it wraps. A running
    /// game moves the player, and then either is given up, or plays every tick
    /// that the clock has reached, up to the one on which the player dies, and
    /// settles. A lost game shows its flashes in the first half of each beat
    /// and plays every tick that the clock has reached, if it has an attack to
    /// show. Where ticks are played, `after` is what they give for some draws
    /// that they could have made.
    pub open spec fn frame_gives(self, attacks: Seq<Attack<N>>, clock: Clock, input: Input, after: Stage<N>) -> bool {
        match self.game.play_state {
            PlayStateView::Initial => if input.start {
                self.starts_over(after)
            } else {
                after == self
            },
            PlayStateView::Transition(inner) => after == (Stage {
                game: GameView { play_state: *inner, ..self.game },
                speaker: self.speaker.restart(),
                cues: self.cues.push(Cue::RestartClock),
                ..self
            }),
            PlayStateView::Playing { .. } => {
                let start = self.stepped(input);
                if input.force_death {
                    after == (Stage { died: true, ..start }).settled(clock)
                } else {
                    exists|draws: Seq<Draw<N>>|
                        {
                            &&& #[trigger] start.play_fits(clock.ticks, attacks, draws)
                            &&& start.played(draws).died || start.played(draws).speaker.processed
                                > clock.ticks
                            &&& after == start.played(draws).settled(clock)
                        }
                }
            },
            PlayStateView::Death { attack, .. } => if input.start {
                self.starts_over(after)
            } else {
                let start = self.blinking(clock);
                if attack is None {
                    after == start
                } else {
                    exists|draws: Seq<Draw<N>>|
                        {
                            &&& #[trigger] start.linger_fits(clock.ticks, draws)
                            &&& start.lingered(draws).speaker.processed > clock.ticks
                            &&& after == start.lingered(draws)
                        }
                }
            },
        }
    }

    /// The ticks of a running game are handed out one for each draw: the count
    /// goes up by one with each, and never beyond the tick that the clock has
    /// reached. The player stays where he stands, and the game stays in play.
    pub proof fn law_play_counts_ticks(self, clock_ticks: u64, attacks: Seq<Attack<N>>, draws: Seq<Draw<N>>)
        requires
            self.game.play_state is Playing,
            self.play_fits(clock_ticks, attacks, draws),
        ensures
            self.played(draws).speaker.processed == self.speaker.processed + draws.len(),
            draws.len() > 0 ==> self.speaker.processed + draws.len() <= clock_ticks + 1,
            self.played(draws).game.play_state is Playing,
            self.played(draws).game.player == self.game.player,
        decreases draws.len(),
    {
        if draws.len() > 0 {
            self.law_play_counts_ticks(clock_ticks, attacks, draws.drop_last());
        }
    }

    /// The ticks of a lost game are handed out one for each draw: the count
    /// goes up by one with each, and never beyond the tick that the clock has
    /// reached. Nothing but the queue, the pattern shown and the flashes
    /// changes.
    pub proof fn law_linger_counts_ticks(self, clock_ticks: u64, draws: Seq<Draw<N>>)
        requires
            self.game.play_state is Death,
            self.linger_fits(clock_ticks, draws),
        ensures
            self.lingered(draws).speaker == (SpeakerView {
                processed: self.speaker.processed + draws.len(),
                ..self.speaker
            }),
            draws.len() > 0 ==> self.speaker.processed + draws.len() <= clock_ticks + 1,
            self.lingered(draws).game.play_state is Death,
            self.lingered(draws).game.player == self.game.player,
            self.lingered(draws).game.tick == self.game.tick,
            self.lingered(draws).game.high_score == self.game.high_score,
        decreases draws.len(),
    {
        if draws.len() > 0 {
            self.law_linger_counts_ticks(clock_ticks, draws.drop_last());
        }
    }

    /// The high score never falls while a game is played, and it is at least
    /// the number of every beat that was played.
    pub proof fn law_high_score_never_falls(self, draws: Seq<Draw<N>>)
        requires
            self.game.play_state is Playing,
        ensures
            self.played(draws).game.high_score >= self.game.high_score,
            draws.len() > 0 ==> (self.played(draws).game.tick matches Tick::Beat(beat)
                ==> self.played(draws).game.high_score >= beat),
        decreases draws.len(),
    {
        if draws.len() > 0 {
            self.law_high_score_never_falls(draws.drop_last());
        }
    }

    /// However many ticks of a running game are played, its queue stays
    /// within the budget of its attack.
    pub proof fn law_play_keeps_budget(self, draws: Seq<Draw<N>>)
        requires
            self.game.play_state is Playing,
            self.game.in_budget(),
        ensures
            self.played(draws).game.play_state is Playing,
            self.played(draws).game.in_budget(),
        decreases draws.len(),
    {
        if draws.len() > 0 {
            self.law_play_keeps_budget(draws.drop_last());
            let before = self.played(draws.drop_last());
            before.handed().law_tick_keeps_budget(before.playing_next(), draws.last());
        }
    }
}

impl<const N: usize> GameState<N> {
    /// Ends a frame of a running game, in which the player has died or not.
    fn settle(self, speaker: &mut Speaker, clock: Clock, died: bool, cues: Vec<Cue>) -> (next: (Self, Vec<Cue>))
        requires
            self.play_state is Playing,
        ensures
            (Stage { game: next.0@, speaker: final(speaker)@, cues: next.1@, died: false }) == (Stage {
                game: self@,
                speaker: old(speaker)@,
                cues: cues@,
                died,
            }).settled(clock),
    {
        proof {
            use_type_invariant(self.player.0);
        }
        let mut cues = cues;
        let GameState { play_state, player, pattern, flash, draw_flashes: _, tick, high_score } = self;
        if died {
            let ghost before = cues@;
            cues.push(Cue::SpinSlow);
            cues.push(Cue::DeathSound);
            cues.push(Cue::StopMusic);
            cues.push(Cue::RestartClock);
            speaker.restart_clock();
            let (attack, original_transform) = match play_state {
                PlayState::Playing { commands: _, curr_attack, curr_transform } => (curr_attack, curr_transform),
                _ => (None, Transform::identity()),
            };
            let play_state = transition_state(
                PlayState::Death { commands: VecDeque::new(), attack, original_transform },
            );
            proof {
                assert(cues@ =~= before + seq![
                    Cue::SpinSlow,
                    Cue::DeathSound,
                    Cue::StopMusic,
                    Cue::RestartClock,
                ]);
            }
            (GameState { play_state, player, pattern, flash, draw_flashes: true, tick, high_score }, cues)
        } else {
            (
                GameState {
                    play_state,
                    player,
                    pattern,
                    flash,
                    draw_flashes: clock.first_half,
                    tick,
                    high_score,
                },
                cues,
            )
        }
    }

    /// One frame of a running game.
    fn play_frame(
        self,
        attacks: &Vec<Attack<N>>,
        speaker: &mut Speaker,
        clock: Clock,
        input: Input,
        rng: &mut StdRng,
    ) -> (next: (Self, Vec<Cue>))
        requires
            self.play_state is Playing,
        ensures
            (Stage { game: self@, speaker: old(speaker)@, cues: Seq::empty(), died: false }).frame_gives(
                attacks@,
                clock,
                input,
                Stage { game: next.0@, speaker: final(speaker)@, cues: next.1@, died: false },
            ),
    {
        let ghost start = (Stage {
            game: self@,
            speaker: speaker@,
            cues: Seq::<Cue>::empty(),
            died: false,
        }).stepped(input);
        let GameState { play_state, player, pattern, flash, draw_flashes, tick, high_score } = self;
        let player = move_player(player, input);
        let mut game = GameState { play_state, player, pattern, flash, draw_flashes, tick, high_score };
        let mut cues: Vec<Cue> = Vec::new();
        if input.force_death {
            return game.settle(speaker, clock, true, cues);
        }
        let ghost mut draws: Seq<Draw<N>> = Seq::empty();
        let mut died = false;
        let mut running = true;
        proof {
            use_type_invariant(&*speaker);
        }
        while running
            invariant
                game.play_state is Playing,
                speaker.in_tune(),
                start.play_fits(clock.ticks, attacks@, draws),
                start.played(draws) == (Stage { game: game@, speaker: speaker@, cues: cues@, died }),
                running ==> !died,
                !running ==> died || speaker@.processed > clock.ticks,
            decreases clock.ticks + 2 - speaker@.processed, if running { 1int } else { 0int },
        {
            let ghost here = start.played(draws);
            match speaker.process_tick(clock.ticks, PLAY_COUNTDOWN) {
                None => {
                    running = false;
                },
                Some(tick) => {
                    let draw = game.draw_playing(rng, speaker, attacks, tick);
                    let (next, dead) = game.play_tick(speaker, tick, draw, &mut cues);
                    game = next;
                    died = dead;
                    running = !dead;
                    proof {
                        assert(draws.push(draw).drop_last() =~= draws);
                        assert(here.handed().speaker == here.speaker.advance(clock.ticks));
                        draws = draws.push(draw);
                        use_type_invariant(&*speaker);
                    }
                },
            }
        }
        game.settle(speaker, clock, died, cues)
    }

    /// One frame of a game that was lost and is not started over.
    fn linger_frame(self, speaker: &mut Speaker, clock: Clock, input: Input, rng: &mut StdRng) -> (next: (
        Self,
        Vec<Cue>,
    ))
        requires
            self.play_state is Death,
            !input.start,
        ensures
            (Stage { game: self@, speaker: old(speaker)@, cues: Seq::empty(), died: false }).frame_gives(
                Seq::empty(),
                clock,
                input,
                Stage { game: next.0@, speaker: final(speaker)@, cues: next.1@, died: false },
            ),
    {
        let ghost start = (Stage {
            game: self@,
            speaker: speaker@,
            cues: Seq::<Cue>::empty(),
            died: false,
        }).blinking(clock);
        let GameState { play_state, player, pattern, flash, draw_flashes, tick, high_score } = self;
        let draw_flashes = match speaker.tick(clock.ticks, DEATH_COUNTDOWN) {
            Tick::Beat(_) => clock.first_half,
            Tick::Countdown(_) => draw_flashes,
        };
        let mut running = match &play_state {
            PlayState::Death { attack, .. } => attack.is_some(),
            _ => false,
        };
        let mut game = GameState { play_state, player, pattern, flash, draw_flashes, tick, high_score };
        let mut cues: Vec<Cue> = Vec::new();
        let ghost mut draws: Seq<Draw<N>> = Seq::empty();
        let ghost showing = running;
        proof {
            use_type_invariant(&*speaker);
        }
        while running
            invariant
                game.play_state is Death,
                speaker.in_tune(),
                showing == (start.game.play_state->Death_attack is Some),
                game@.play_state->Death_attack == start.game.play_state->Death_attack,
                !showing ==> !running && draws.len() == 0,
                start.linger_fits(clock.ticks, draws),
                start.lingered(draws) == (Stage {
                    game: game@,
                    speaker: speaker@,
                    cues: cues@,
                    died: false,
                }),
                showing && !running ==> speaker@.processed > clock.ticks,
            decreases clock.ticks + 2 - speaker@.processed, if running { 1int } else { 0int },
        {
            let ghost here = start.lingered(draws);
            match speaker.process_tick(clock.ticks, DEATH_COUNTDOWN) {
                None => {
                    running = false;
                },
                Some(tick) => {
                    let draw = game.draw_lingering(rng, tick);
                    let next = game.linger_tick(tick, draw, &mut cues);
                    proof {
                        assert(draws.push(draw).drop_last() =~= draws);
                        assert(here.handed().speaker == here.speaker.advance(clock.ticks));
                        assert(here.handed().death_tick(tick, draw).cues == cues@);
                        draws = draws.push(draw);
                        use_type_invariant(&*speaker);
                    }
                    game = next;
                },
            }
        }
        (game, cues)
    }
}

/// Advances the game by one frame: the phase, the player and what is shown
/// follow the keys in `input` and the ticks that `clock` has reached. Gives
/// the new state and the cues for the caller to carry out, in order.
pub fn update<const N: usize>(
    gs: GameState<N>,
    attacks: &Vec<Attack<N>>,
    speaker: &mut Speaker,
    clock: Clock,
    input: Input,
    rng: &mut StdRng,
) -> (next: (GameState<N>, Vec<Cue>))
    ensures
        (Stage { game: gs@, speaker: old(speaker)@, cues: Seq::empty(), died: false }).frame_gives(
            attacks@,
            clock,
            input,
            Stage { game: next.0@, speaker: final(speaker)@, cues: next.1@, died: false },
        ),
{
    proof {
        use_type_invariant(gs.player.0);
    }
    let starting = match &gs.play_state {
        PlayState::Initial => input.start,
        PlayState::Death { .. } => input.start,
        _ => false,
    };
    if starting {
        let mut cues: Vec<Cue> = Vec::new();
        cues.push(Cue::NewAngles);
        cues.push(Cue::SpinFast);
        proof {
            assert(cues@ =~= Seq::<Cue>::empty() + seq![Cue::NewAngles, Cue::SpinFast]);
        }
        return (new_game(rng, gs.high_score), cues);
    }
    match &gs.play_state {
        PlayState::Initial => (gs, Vec::new()),
        PlayState::Playing { .. } => gs.play_frame(attacks, speaker, clock, input, rng),
        PlayState::Death { .. } => gs.linger_frame(speaker, clock, input, rng),
        PlayState::Transition(_) => {
            speaker.restart_clock();
            let GameState { play_state, player, pattern, flash, draw_flashes, tick, high_score } = gs;
            let play_state = match play_state {
                PlayState::Transition(inner) => *inner,
                other => other,
            };
            let mut cues: Vec<Cue> = Vec::new();
            cues.push(Cue::RestartClock);
            proof {
                assert(cues@ =~= Seq::<Cue>::empty().push(Cue::RestartClock));
            }
            (GameState { play_state, player, pattern, flash, draw_flashes, tick, high_score }, cues)
        },
    }
}

} // verus!
