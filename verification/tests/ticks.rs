use rand::rngs::StdRng;
use rand::SeedableRng;
use ring_rhythm::audio::{Banner, Speaker, Tick, DEATH_COUNTDOWN, PLAY_COUNTDOWN};

#[test]
fn tick_splits_countdown_from_beats() {
    let speaker = Speaker::new(1);
    assert_eq!(speaker.tick(0, 4), Tick::Countdown(0));
    assert_eq!(speaker.tick(3, 4), Tick::Countdown(3));
    assert_eq!(speaker.tick(4, 4), Tick::Beat(0));
    assert_eq!(speaker.tick(9, 4), Tick::Beat(5));
    assert_eq!(speaker.tick(7, 8), Tick::Countdown(7));
    assert_eq!(speaker.tick(8, 8), Tick::Beat(0));
    assert_eq!(speaker.tick(13, 8), Tick::Beat(5));
    assert_eq!(speaker.tick(0, 0), Tick::Beat(0));
    assert_eq!(speaker.tick(u64::MAX, 4), Tick::Beat(u64::MAX - 4));
    assert_eq!(speaker.tick(u64::MAX - 1, u64::MAX), Tick::Countdown(u64::MAX - 1));
}

#[test]
fn each_tick_is_handed_out_once() {
    let mut speaker = Speaker::new(1);
    assert_eq!(speaker.process_tick(0, 4), Some(Tick::Countdown(0)));
    assert_eq!(speaker.process_tick(0, 4), None);
    assert_eq!(speaker.process_tick(0, 4), None);
    assert_eq!(speaker.process_tick(1, 4), Some(Tick::Countdown(1)));
    assert_eq!(speaker.process_tick(1, 4), None);
}

#[test]
fn a_clock_that_jumped_ahead_is_caught_up_tick_by_tick() {
    let mut speaker = Speaker::new(1);
    let mut handed = Vec::new();
    while let Some(tick) = speaker.process_tick(6, 4) {
        handed.push(tick);
    }
    assert_eq!(
        handed,
        vec![
            Tick::Countdown(0),
            Tick::Countdown(1),
            Tick::Countdown(2),
            Tick::Countdown(3),
            Tick::Beat(0),
            Tick::Beat(1),
            Tick::Beat(2),
        ]
    );
    assert_eq!(speaker.process_tick(6, 4), None);
    assert_eq!(speaker.process_tick(7, 4), Some(Tick::Beat(3)));
}

#[test]
fn ticks_never_repeat_and_never_go_back() {
    let mut speaker = Speaker::new(1);
    let clock = [0, 0, 3, 3, 3, 2, 1, 9, 9, 9, 9, 9, 9, 9, 9, 12, 4, 12, 12, 12, 12];
    let mut last: Option<u64> = None;
    let mut handed = 0;
    for ticks in clock {
        if let Some(tick) = speaker.process_tick(ticks, 4) {
            let raw = match tick {
                Tick::Countdown(n) => n,
                Tick::Beat(n) => n + 4,
            };
            assert!(raw <= ticks);
            assert_eq!(raw, handed);
            if let Some(before) = last {
                assert!(raw > before);
            }
            last = Some(raw);
            handed += 1;
        }
    }
    assert_eq!(handed, 13);
}

#[test]
fn a_clock_behind_the_count_hands_out_nothing() {
    let mut speaker = Speaker::new(1);
    while speaker.process_tick(5, 4).is_some() {}
    assert_eq!(speaker.process_tick(2, 4), None);
    assert_eq!(speaker.process_tick(5, 4), None);
    assert_eq!(speaker.process_tick(6, 4), Some(Tick::Beat(2)));
}

#[test]
fn restart_begins_at_tick_zero_again() {
    let mut speaker = Speaker::new(1);
    while speaker.process_tick(5, 4).is_some() {}
    speaker.restart_clock();
    assert_eq!(speaker.process_tick(0, 8), Some(Tick::Countdown(0)));
    assert_eq!(speaker.process_tick(0, 8), None);
}

#[test]
fn the_last_tick_of_the_clock_is_handed_out_once() {
    let mut speaker = Speaker::new(1);
    assert_eq!(speaker.process_tick(0, 0), Some(Tick::Beat(0)));
    assert_eq!(speaker.process_tick(0, 0), None);
}

#[test]
fn music_moves_on_every_sixteenth_beat() {
    let mut speaker = Speaker::new(3);
    assert_eq!(speaker.record(), 0);
    speaker.update_music_progress(0);
    assert_eq!(speaker.record(), 0);
    for beat in 1..16 {
        speaker.update_music_progress(beat);
        assert_eq!(speaker.record(), 0);
    }
    speaker.update_music_progress(16);
    assert_eq!(speaker.record(), 1);
    speaker.update_music_progress(17);
    assert_eq!(speaker.record(), 1);
    speaker.update_music_progress(32);
    assert_eq!(speaker.record(), 2);
    // After the last section the music is back at the first; the record stays.
    speaker.update_music_progress(48);
    assert_eq!(speaker.record(), 2);
    assert_eq!(speaker.seek_music(0), 0);
    speaker.update_music_progress(64);
    assert_eq!(speaker.record(), 2);
}

#[test]
fn music_of_one_section_never_moves() {
    let mut speaker = Speaker::new(1);
    for beat in [16, 32, 48] {
        speaker.update_music_progress(beat);
        assert_eq!(speaker.record(), 0);
    }
}

#[test]
fn seek_gives_the_first_beat_of_the_section() {
    let mut speaker = Speaker::new(5);
    speaker.update_music_progress(16);
    speaker.update_music_progress(32);
    assert_eq!(speaker.seek_music(2), 32);
    assert_eq!(speaker.seek_music(1), 16);
    assert_eq!(speaker.seek_music(0), 0);
    // The music goes on from the section that was sought.
    assert_eq!(speaker.seek_music(2), 32);
    speaker.update_music_progress(16);
    assert_eq!(speaker.record(), 3);
}

#[test]
fn music_starts_at_a_section_that_was_reached() {
    let mut rng = StdRng::seed_from_u64(21);
    let mut speaker = Speaker::new(8);
    assert_eq!(speaker.play_music(&mut rng), 0);
    for _ in 0..5 {
        assert_eq!(speaker.seek_music(speaker.record()), speaker.record() as u64 * 16);
        speaker.update_music_progress(16);
    }
    assert_eq!(speaker.record(), 5);
    let mut seen = [false; 6];
    for _ in 0..300 {
        let beats = speaker.play_music(&mut rng);
        assert_eq!(beats % 16, 0);
        assert!(beats <= 5 * 16);
        seen[(beats / 16) as usize] = true;
        assert_eq!(speaker.record(), 5);
    }
    assert_eq!(seen, [true; 6]);
}

#[test]
fn starting_the_music_keeps_the_tick_count() {
    let mut rng = StdRng::seed_from_u64(22);
    let mut speaker = Speaker::new(2);
    assert_eq!(speaker.process_tick(3, 4), Some(Tick::Countdown(0)));
    speaker.play_music(&mut rng);
    speaker.update_music_progress(16);
    assert_eq!(speaker.process_tick(3, 4), Some(Tick::Countdown(1)));
}

#[test]
fn countdowns_last_four_and_eight_ticks() {
    assert_eq!(PLAY_COUNTDOWN, 4);
    assert_eq!(DEATH_COUNTDOWN, 8);
}

#[test]
fn the_banner_counts_down_to_go() {
    assert_eq!(Tick::Countdown(0).banner(), Banner::Wait(3));
    assert_eq!(Tick::Countdown(1).banner(), Banner::Wait(2));
    assert_eq!(Tick::Countdown(2).banner(), Banner::Wait(1));
    assert_eq!(Tick::Countdown(3).banner(), Banner::Go);
    assert_eq!(Tick::Beat(0).banner(), Banner::Beat(0));
    assert_eq!(Tick::Beat(41).banner(), Banner::Beat(41));
}
