//! The beat keeper: turns the tick count of a running clock into ticks that
//! are each handed out once and in order, and keeps track of how far into the
//! music the player has come.

use crate::chance::random_up_to;
use rand::rngs::StdRng;
use vstd::prelude::*;

verus! {

/// One tick of the clock: part of the countdown before the music, or a beat of it.
#[derive(Clone, Copy, Debug, PartialEq, Eq, Structural)]
pub enum Tick {
    Countdown(u64),
    Beat(u64),
}

/// The countdown before a game lasts this many ticks.
pub const PLAY_COUNTDOWN: u64 = 4;

/// The countdown after a death lasts this many ticks.
pub const DEATH_COUNTDOWN: u64 = 8;

/// What the display says about a tick.
#[derive(Clone, Copy, Debug, PartialEq, Eq, Structural)]
pub enum Banner {
    /// This many ticks of the countdown are still to come after this one.
    Wait(u64),
    /// The countdown ends with this tick.
    Go,
    /// The number of the beat.
    Beat(u64),
}

/// The tick that the clock's count `t` stands for when the countdown lasts
/// `countdown_length` ticks.
pub open spec fn classify(t: u64, countdown_length: u64) -> Tick {
    if t < countdown_length {
        Tick::Countdown(t)
    } else {
        Tick::Beat((t - countdown_length) as u64)
    }
}

impl Tick {
    /// Whether this tick comes strictly before `later`: a countdown tick comes
    /// before every beat, and otherwise the smaller number comes first.
    pub open spec fn precedes(self, later: Tick) -> bool {
        match (self, later) {
            (Tick::Countdown(a), Tick::Countdown(b)) => a < b,
            (Tick::Countdown(_), Tick::Beat(_)) => true,
            (Tick::Beat(_), Tick::Countdown(_)) => false,
            (Tick::Beat(a), Tick::Beat(b)) => a < b,
        }
    }

    /// What the display says about this tick of a running game: how many
    /// ticks of the countdown are to come, that the countdown ends, or the
    /// number of the beat.
    pub fn banner(self) -> (banner: Banner)
        requires
            self matches Tick::Countdown(n) ==> n < PLAY_COUNTDOWN,
        ensures
            banner == match self {
                Tick::Countdown(n) => if n + 1 < PLAY_COUNTDOWN {
                    Banner::Wait((PLAY_COUNTDOWN - 1 - n) as u64)
                } else {
                    Banner::Go
                },
                Tick::Beat(beat) => Banner::Beat(beat),
            },
    {
        match self {
            Tick::Countdown(n) => if n + 1 < PLAY_COUNTDOWN {
                Banner::Wait(PLAY_COUNTDOWN - 1 - n)
            } else {
                Banner::Go
            },
            Tick::Beat(beat) => Banner::Beat(beat),
        }
    }

    /// The tick that the clock's count `t` stands for is a countdown tick of
    /// that number below the countdown's length, and from there on the beat
    /// that many ticks after the countdown.
    pub proof fn law_classify(t: u64, countdown_length: u64)
        ensures
            t < countdown_length ==> classify(t, countdown_length) == Tick::Countdown(t),
            t >= countdown_length ==> classify(t, countdown_length) == Tick::Beat(
                (t - countdown_length) as u64,
            ),
    {
    }
}

/// What a `Speaker` holds, as plain numbers.
pub struct SpeakerView {
    /// How many ticks were handed out since the clock was last restarted.
    pub processed: nat,
    /// The section of sixteen beats that the music is in.
    pub section: int,
    /// The furthest section that was ever reached.
    pub record: int,
    /// The number of sections in the music.
    pub limit: int,
}

impl SpeakerView {
    /// The view after the music was started at `section`.
    pub open spec fn seek(self, section: int) -> SpeakerView {
        SpeakerView { section, ..self }
    }

    /// The view after `beat` was played: every sixteenth beat but the first, the
    /// music moves on by one section, back to the first after the last, and
    /// the record follows.
    pub open spec fn progress(self, beat: u64) -> SpeakerView {
        if beat != 0 && beat % 16 == 0 {
            let section = (self.section + 1) % self.limit;
            SpeakerView {
                section,
                record: if self.record >= section {
                    self.record
                } else {
                    section
                },
                ..self
            }
        } else {
            self
        }
    }

    /// The view after a call for the next tick at the clock count `clock_ticks`.
    pub open spec fn advance(self, clock_ticks: u64) -> SpeakerView {
        if self.processed <= clock_ticks {
            SpeakerView { processed: self.processed + 1, ..self }
        } else {
            self
        }
    }

    /// The tick that a call at the clock count `clock_ticks` hands out, if any:
    /// the first tick that was not handed out yet, unless the clock has not
    /// reached it.
    pub open spec fn next_tick(self, clock_ticks: u64, countdown_length: u64) -> Option<Tick> {
        if self.processed <= clock_ticks {
            Some(classify(self.processed as u64, countdown_length))
        } else {
            None
        }
    }

    /// The view after the clock was restarted.
    pub open spec fn restart(self) -> SpeakerView {
        SpeakerView { processed: 0, ..self }
    }

    /// The view after one call for the next tick at each clock count of
    /// `clocks`, in turn.
    pub open spec fn after_calls(self, clocks: Seq<u64>) -> SpeakerView
        decreases clocks.len(),
    {
        if clocks.len() == 0 {
            self
        } else {
            self.after_calls(clocks.drop_last()).advance(clocks.last())
        }
    }

    /// What call number `k` of such a run hands out.
    pub open spec fn call_result(self, clocks: Seq<u64>, countdown_length: u64, k: int) -> Option<
        Tick,
    > {
        self.after_calls(clocks.take(k)).next_tick(clocks[k], countdown_length)
    }

    /// The count of ticks handed out never goes down over a run of calls.
    pub proof fn lemma_calls_count_up(self, clocks: Seq<u64>, i: int, j: int)
        requires
            0 <= i <= j <= clocks.len(),
        ensures
            self.after_calls(clocks.take(i)).processed <= self.after_calls(
                clocks.take(j),
            ).processed,
        decreases j - i,
    {
        if i < j {
            self.lemma_calls_count_up(clocks, i, j - 1);
            assert(clocks.take(j).drop_last() =~= clocks.take(j - 1));
        }
    }

    /// Without a restart in between, a later call never hands out the tick of
    /// an earlier call again, nor one that comes before it.
    pub proof fn law_ticks_in_order(
        self,
        clocks: Seq<u64>,
        countdown_length: u64,
        i: int,
        j: int,
    )
        requires
            0 <= i < j < clocks.len(),
            self.call_result(clocks, countdown_length, i) is Some,
            self.call_result(clocks, countdown_length, j) is Some,
        ensures
            self.call_result(clocks, countdown_length, i)->0.precedes(
                self.call_result(clocks, countdown_length, j)->0,
            ),
            self.call_result(clocks, countdown_length, i) != self.call_result(
                clocks,
                countdown_length,
                j,
            ),
    {
        assert(clocks.take(i + 1).drop_last() =~= clocks.take(i));
        self.lemma_calls_count_up(clocks, i + 1, j);
    }
}

/// The counters of the audio side of the game. The clock itself runs outside:
/// its current count is handed in with each call.
#[derive(Debug)]
pub struct Speaker {
    last_tick: Option<u64>,
    curr: i32,
    record: i32,
    limit: i32,
}

impl View for Speaker {
    type V = SpeakerView;

    closed spec fn view(&self) -> SpeakerView {
        SpeakerView {
            processed: match self.last_tick {
                Some(last) => (last + 1) as nat,
                None => 0,
            },
            section: self.curr as int,
            record: self.record as int,
            limit: self.limit as int,
        }
    }
}

impl Speaker {
    /// The music is always in a section that was reached before, and the
    /// record lies inside the music.
    #[verifier::type_invariant]
    pub open spec fn in_tune(&self) -> bool {
        &&& 0 <= self@.section <= self@.record < self@.limit <= i32::MAX
        &&& self@.processed <= u64::MAX + 1
    }

    /// A speaker for music of `limit` sections, before the first tick.
    pub fn new(limit: i32) -> (speaker: Self)
        requires
            limit > 0,
        ensures
            speaker@ == (SpeakerView { processed: 0, section: 0, record: 0, limit: limit as int }),
            speaker.in_tune(),
    {
        Speaker { last_tick: None, curr: 0, record: 0, limit }
    }

    /// The furthest section that was ever reached.
    pub fn record(&self) -> (record: i32)
        ensures
            record == self@.record,
            0 <= record,
    {
        proof {
            use_type_invariant(self);
        }
        self.record
    }

    /// The tick that the clock count `clock_ticks` stands for.
    pub fn tick(&self, clock_ticks: u64, countdown_length: u64) -> (tick: Tick)
        ensures
            tick == classify(clock_ticks, countdown_length),
    {
        if clock_ticks < countdown_length {
            Tick::Countdown(clock_ticks)
        } else {
            Tick::Beat(clock_ticks - countdown_length)
        }
    }

    /// Hands out the next tick that was not handed out yet, one per call, or
    /// `None` while the clock has not reached it.
    pub fn process_tick(&mut self, clock_ticks: u64, countdown_length: u64) -> (tick: Option<Tick>)
        ensures
            tick == old(self)@.next_tick(clock_ticks, countdown_length),
            final(self)@ == old(self)@.advance(clock_ticks),
    {
        proof {
            use_type_invariant(&*self);
        }
        let next = match self.last_tick {
            None => 0,
            Some(last) => {
                if last >= clock_ticks {
                    return None;
                }
                last + 1
            },
        };
        self.last_tick = Some(next);
        Some(self.tick(next, countdown_length))
    }

    /// Forgets the ticks that were handed out: the next one is tick 0 again.
    pub fn restart_clock(&mut self)
        ensures
            final(self)@ == old(self)@.restart(),
    {
        proof {
            use_type_invariant(&*self);
        }
        self.last_tick = None;
    }

    /// Follows the music after `beat` was played.
    pub fn update_music_progress(&mut self, beat: u64)
        ensures
            final(self)@ == old(self)@.progress(beat),
    {
        proof {
            use_type_invariant(&*self);
        }
        if beat != 0 && beat % 16 == 0 {
            let next = if self.curr + 1 == self.limit {
                0
            } else {
                self.curr + 1
            };
            proof {
                crate::playfield::lemma_wrap_up(self.curr + 1, self.limit as int);
            }
            if next > self.record {
                self.record = next;
            }
            self.curr = next;
        }
    }

    /// Starts the music over at `section`; gives the beat that the section
    /// starts with.
    pub fn seek_music(&mut self, section: i32) -> (beats: u64)
        requires
            0 <= section <= old(self)@.record,
        ensures
            final(self)@ == old(self)@.seek(section as int),
            beats == section * 16,
    {
        proof {
            use_type_invariant(&*self);
        }
        self.curr = section;
        (section as u64) * 16
    }

    /// Starts the music over at a section drawn from those reached so far;
    /// gives the beat that the section starts with.
    pub fn play_music(&mut self, rng: &mut StdRng) -> (beats: u64)
        ensures
            0 <= final(self)@.section <= old(self)@.record,
            final(self)@ == old(self)@.seek(final(self)@.section),
            beats == final(self)@.section * 16,
    {
        proof {
            use_type_invariant(&*self);
        }
        let section = random_up_to(rng, self.record);
        self.seek_music(section)
    }
}

} // verus!
