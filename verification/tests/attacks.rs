use rand::rngs::StdRng;
use rand::SeedableRng;
use ring_rhythm::chance::{random_position, select_attack};
use ring_rhythm::command::{Command, Flash};
use ring_rhythm::level::{Attack, AttackPatterns, Origin, TransformBlueprint};
use ring_rhythm::playfield::{Coord, Pattern, PatternBlueprint, Transform};
use std::collections::VecDeque;

fn at(i: usize, o: usize) -> (Coord<6>, Coord<6>) {
    (Coord::new(i), Coord::new(o))
}

fn single(i: usize, o: usize) -> PatternBlueprint<6> {
    let mut cells = [[false; 6]; 6];
    cells[o][i] = true;
    PatternBlueprint::new(cells)
}

fn targeted() -> TransformBlueprint {
    TransformBlueprint { origin: Origin::Targeted, transpose: false, mirror: false }
}

fn four() -> Attack<6> {
    Attack { patterns: AttackPatterns::Four([single(0, 0)]), transform: targeted() }
}

fn four_plus_four() -> Attack<6> {
    Attack {
        patterns: AttackPatterns::FourPlusFour([single(0, 0), single(1, 0), single(2, 0)]),
        transform: targeted(),
    }
}

fn eight() -> Attack<6> {
    Attack { patterns: AttackPatterns::Eight([single(3, 3)]), transform: targeted() }
}

fn eight_plus_eight() -> Attack<6> {
    Attack {
        patterns: AttackPatterns::EightPlusEight([
            single(0, 1),
            single(1, 1),
            single(2, 1),
            single(3, 1),
            single(4, 1),
            single(5, 1),
        ]),
        transform: targeted(),
    }
}

fn set_cells(pattern: &Pattern<6>) -> Vec<(usize, usize)> {
    let mut found = Vec::new();
    for o in 0..6 {
        for i in 0..6 {
            if pattern[at(i, o)] {
                found.push((i, o));
            }
        }
    }
    found
}

/// The queue that the attack gives under `transform`, as the flash and the set
/// cells of each pattern after the announcement.
fn shown(attack: Attack<6>, transform: Transform<6>) -> Vec<(Flash, Vec<(usize, usize)>)> {
    let mut queue = VecDeque::new();
    attack.enqueue(&mut queue, transform);
    match queue.pop_front() {
        Some(Command::NewAttack(_, announced)) => {
            assert_eq!(announced.origin, transform.origin);
            assert_eq!(announced.transpose, transform.transpose);
            assert_eq!(announced.mirror, transform.mirror);
        }
        _ => panic!("the first command must announce the attack"),
    }
    queue
        .into_iter()
        .map(|command| match command {
            Command::FlashPattern(pattern, flash) => (flash, set_cells(&pattern)),
            Command::NewAttack(..) => panic!("only the first command announces"),
        })
        .collect()
}

#[test]
fn beat_length_table() {
    assert_eq!(four().beat_length(), 4);
    assert_eq!(four_plus_four().beat_length(), 8);
    assert_eq!(eight().beat_length(), 8);
    assert_eq!(eight_plus_eight().beat_length(), 16);
}

#[test]
fn weight_table_is_exact() {
    assert_eq!(four().weight_quarters(), 1);
    assert_eq!(four_plus_four().weight_quarters(), 2);
    assert_eq!(eight().weight_quarters(), 2);
    assert_eq!(eight_plus_eight().weight_quarters(), 4);
    assert_eq!(four().weight_quarters() as f32 / 4.0, 0.25);
    assert_eq!(four_plus_four().weight_quarters() as f32 / 4.0, 0.5);
    assert_eq!(eight().weight_quarters() as f32 / 4.0, 0.5);
    assert_eq!(eight_plus_eight().weight_quarters() as f32 / 4.0, 1.0);
}

#[test]
fn spawn_weight_is_zero_off_the_attack_length() {
    assert_eq!(four().spawn_weight(0), 1);
    assert_eq!(four().spawn_weight(4), 1);
    assert_eq!(four().spawn_weight(6), 0);
    assert_eq!(eight().spawn_weight(8), 2);
    assert_eq!(eight().spawn_weight(4), 0);
    assert_eq!(eight_plus_eight().spawn_weight(32), 4);
    assert_eq!(eight_plus_eight().spawn_weight(8), 0);
    assert_eq!(eight_plus_eight().spawn_weight(u64::MAX), 0);
}

#[test]
fn queue_is_one_longer_than_the_beat_length() {
    for attack in [four(), four_plus_four(), eight(), eight_plus_eight()] {
        let mut queue = VecDeque::new();
        attack.enqueue(&mut queue, Transform::identity());
        assert_eq!(queue.len() as u64, attack.beat_length() + 1);
        assert!(matches!(queue[0], Command::NewAttack(..)));
        for k in 1..queue.len() {
            assert!(matches!(queue[k], Command::FlashPattern(..)));
        }
    }
}

#[test]
fn enqueue_appends_behind_what_is_queued() {
    let mut queue = VecDeque::new();
    queue.push_back(Command::FlashPattern(Pattern::new([[true; 6]; 6]), Flash::Strike));
    four().enqueue(&mut queue, Transform::identity());
    assert_eq!(queue.len(), 6);
    match &queue[0] {
        Command::FlashPattern(pattern, Flash::Strike) => assert_eq!(set_cells(pattern).len(), 36),
        _ => panic!("the queued command must stay first"),
    }
    assert!(matches!(queue[1], Command::NewAttack(..)));
    assert!(matches!(queue[5], Command::FlashPattern(_, Flash::Strike)));
}

#[test]
fn four_warns_three_times_then_strikes() {
    let t = Transform { origin: at(2, 3), transpose: false, mirror: false };
    let queue = shown(four(), t);
    assert_eq!(
        queue,
        vec![
            (Flash::Warn, vec![(2, 3)]),
            (Flash::Warn, vec![(2, 3)]),
            (Flash::Warn, vec![(2, 3)]),
            (Flash::Strike, vec![(2, 3)]),
        ]
    );
}

#[test]
fn eight_warns_seven_times_then_strikes() {
    let queue = shown(eight(), Transform::identity());
    assert_eq!(queue.len(), 8);
    for k in 0..7 {
        assert_eq!(queue[k], (Flash::Warn, vec![(3, 3)]));
    }
    assert_eq!(queue[7], (Flash::Strike, vec![(3, 3)]));
}

#[test]
fn four_plus_four_warns_each_pattern_then_strikes_each() {
    let queue = shown(four_plus_four(), Transform::identity());
    assert_eq!(
        queue,
        vec![
            (Flash::Warn, vec![(0, 0)]),
            (Flash::Warn, vec![(1, 0)]),
            (Flash::Warn, vec![(2, 0)]),
            (Flash::Warn, vec![]),
            (Flash::Strike, vec![(0, 0)]),
            (Flash::Strike, vec![(1, 0)]),
            (Flash::Strike, vec![(2, 0)]),
            (Flash::Strike, vec![]),
        ]
    );
}

#[test]
fn eight_plus_eight_pads_each_half_with_two_empty_patterns() {
    let queue = shown(eight_plus_eight(), Transform::identity());
    assert_eq!(queue.len(), 16);
    for half in 0..2 {
        let flash = if half == 0 { Flash::Warn } else { Flash::Strike };
        for j in 0..6 {
            assert_eq!(queue[half * 8 + j], (flash, vec![(j, 1)]));
        }
        assert_eq!(queue[half * 8 + 6], (flash, vec![]));
        assert_eq!(queue[half * 8 + 7], (flash, vec![]));
    }
}

#[test]
fn several_patterns_split_into_equal_halves() {
    for attack in [four_plus_four(), eight_plus_eight()] {
        let queue = shown(attack, Transform::identity());
        let half = queue.len() / 2;
        for (k, (flash, _)) in queue.iter().enumerate() {
            assert_eq!(*flash, if k < half { Flash::Warn } else { Flash::Strike });
        }
    }
}

#[test]
fn every_pattern_of_an_attack_is_placed_by_the_transform() {
    let t = Transform { origin: at(1, 2), transpose: true, mirror: false };
    let queue = shown(four_plus_four(), t);
    // Transposed, the local cell (j, 0) is read at the offset (0, j).
    assert_eq!(queue[0], (Flash::Warn, vec![(1, 2)]));
    assert_eq!(queue[1], (Flash::Warn, vec![(1, 3)]));
    assert_eq!(queue[2], (Flash::Warn, vec![(1, 4)]));
    assert_eq!(queue[3], (Flash::Warn, vec![]));
    assert_eq!(queue[6], (Flash::Strike, vec![(1, 4)]));
}

#[test]
fn place_takes_the_player_where_targeted_and_the_draw_elsewhere() {
    let aimed = TransformBlueprint { origin: Origin::Targeted, transpose: false, mirror: false };
    let t: Transform<6> = aimed.place(at(1, 2), at(4, 5), false, false);
    assert_eq!(t.origin, at(1, 2));
    let anywhere = TransformBlueprint { origin: Origin::Random, transpose: false, mirror: false };
    let t: Transform<6> = anywhere.place(at(1, 2), at(4, 5), false, false);
    assert_eq!(t.origin, at(4, 5));
    let t: Transform<6> = anywhere.place(at(4, 5), at(4, 5), true, true);
    assert_eq!(t.origin, at(4, 5));
}

#[test]
fn place_applies_a_symmetry_where_allowed_and_flipped() {
    for allow_transpose in [false, true] {
        for allow_mirror in [false, true] {
            for flip_transpose in [false, true] {
                for flip_mirror in [false, true] {
                    let blueprint = TransformBlueprint {
                        origin: Origin::Random,
                        transpose: allow_transpose,
                        mirror: allow_mirror,
                    };
                    let t: Transform<6> = blueprint.place(at(0, 0), at(3, 3), flip_transpose, flip_mirror);
                    assert_eq!(t.transpose, allow_transpose && flip_transpose);
                    assert_eq!(t.mirror, allow_mirror && flip_mirror);
                    assert_eq!(t.origin, at(3, 3));
                }
            }
        }
    }
}

#[test]
fn a_random_origin_does_not_follow_the_player() {
    let anywhere = TransformBlueprint { origin: Origin::Random, transpose: true, mirror: true };
    // The same seed gives the same draws, wherever the player stands.
    for seed in 0..20 {
        let mut first = StdRng::seed_from_u64(seed);
        let mut second = StdRng::seed_from_u64(seed);
        let a: Transform<6> = anywhere.construct(&mut first, at(0, 0));
        let b: Transform<6> = anywhere.construct(&mut second, at(3, 4));
        assert_eq!(a.origin, b.origin);
        assert_eq!(a.transpose, b.transpose);
        assert_eq!(a.mirror, b.mirror);
    }
    let mut rng = StdRng::seed_from_u64(18);
    let mut elsewhere = 0;
    for _ in 0..200 {
        let t: Transform<6> = anywhere.construct(&mut rng, at(2, 2));
        elsewhere += (t.origin != at(2, 2)) as usize;
    }
    assert!(elsewhere > 100);
}

#[test]
fn targeted_transform_starts_at_the_player() {
    let mut rng = StdRng::seed_from_u64(11);
    for o in 0..6 {
        for i in 0..6 {
            let t: Transform<6> = targeted().construct(&mut rng, at(i, o));
            assert_eq!(t.origin, at(i, o));
            assert!(!t.transpose);
            assert!(!t.mirror);
        }
    }
}

#[test]
fn symmetries_are_applied_only_where_allowed() {
    let mut rng = StdRng::seed_from_u64(12);
    let only_transpose = TransformBlueprint { origin: Origin::Random, transpose: true, mirror: false };
    let only_mirror = TransformBlueprint { origin: Origin::Random, transpose: false, mirror: true };
    let mut transposed = 0;
    let mut mirrored = 0;
    for _ in 0..200 {
        let t: Transform<6> = only_transpose.construct(&mut rng, at(0, 0));
        assert!(!t.mirror);
        assert!(t.origin.0.inner() < 6 && t.origin.1.inner() < 6);
        transposed += t.transpose as usize;
        let t: Transform<6> = only_mirror.construct(&mut rng, at(0, 0));
        assert!(!t.transpose);
        mirrored += t.mirror as usize;
    }
    // A fair coin comes up on both sides in 200 flips.
    assert!(0 < transposed && transposed < 200);
    assert!(0 < mirrored && mirrored < 200);
}

#[test]
fn random_origin_covers_the_rings() {
    let mut rng = StdRng::seed_from_u64(13);
    let anywhere = TransformBlueprint { origin: Origin::Random, transpose: false, mirror: false };
    let mut seen = [[false; 6]; 6];
    for _ in 0..2000 {
        let t: Transform<6> = anywhere.construct(&mut rng, at(4, 4));
        seen[t.origin.1.inner()][t.origin.0.inner()] = true;
    }
    assert!(seen.iter().flatten().all(|hit| *hit));
}

#[test]
fn random_position_stays_on_the_rings() {
    let mut rng = StdRng::seed_from_u64(14);
    let mut inner = [false; 3];
    let mut outer = [false; 3];
    for _ in 0..200 {
        let (i, o): (Coord<3>, Coord<3>) = random_position(&mut rng);
        inner[i.inner()] = true;
        outer[o.inner()] = true;
    }
    assert_eq!(inner, [true; 3]);
    assert_eq!(outer, [true; 3]);
}

#[test]
fn default_blueprint_is_random_without_symmetries() {
    let blueprint = TransformBlueprint::default();
    assert_eq!(blueprint.origin, Origin::Random);
    assert_eq!(Origin::default(), Origin::Random);
    assert!(!blueprint.transpose);
    assert!(!blueprint.mirror);
}

#[test]
fn selection_takes_only_attacks_whose_length_divides_the_beat() {
    let mut rng = StdRng::seed_from_u64(15);
    let attacks = vec![four(), eight(), eight_plus_eight()];
    for _ in 0..200 {
        let chosen = select_attack(&mut rng, &attacks, 4).unwrap();
        assert_eq!(chosen.beat_length(), 4);
        let chosen = select_attack(&mut rng, &attacks, 8).unwrap();
        assert!(chosen.beat_length() == 4 || chosen.beat_length() == 8);
    }
}

#[test]
fn selection_reaches_every_eligible_attack() {
    let mut rng = StdRng::seed_from_u64(16);
    let attacks = vec![four(), four_plus_four(), eight_plus_eight()];
    let mut lengths = [0usize; 17];
    for _ in 0..400 {
        let chosen = select_attack(&mut rng, &attacks, 16).unwrap();
        lengths[chosen.beat_length() as usize] += 1;
    }
    assert!(lengths[4] > 0 && lengths[8] > 0 && lengths[16] > 0);
    assert_eq!(lengths[4] + lengths[8] + lengths[16], 400);
    // Weights 0.25, 0.5 and 1.0: the heaviest is drawn most often.
    assert!(lengths[16] > lengths[8] && lengths[8] > lengths[4]);
}

#[test]
fn selection_fails_where_nothing_is_eligible() {
    let mut rng = StdRng::seed_from_u64(17);
    assert!(select_attack::<6>(&mut rng, &Vec::new(), 0).is_none());
    assert!(select_attack(&mut rng, &vec![eight(), eight_plus_eight()], 4).is_none());
    assert!(select_attack(&mut rng, &vec![four()], 3).is_none());
    assert!(select_attack(&mut rng, &vec![four()], 8).is_some());
}
