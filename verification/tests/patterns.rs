use ring_rhythm::level::blueprints_from_rows;
use ring_rhythm::playfield::{Coord, Pattern, PatternBlueprint, Transform};

fn at<const N: usize>(i: usize, o: usize) -> (Coord<N>, Coord<N>) {
    (Coord::new(i), Coord::new(o))
}

fn single<const N: usize>(i: usize, o: usize) -> PatternBlueprint<N> {
    let mut cells = [[false; N]; N];
    cells[o][i] = true;
    PatternBlueprint::new(cells)
}

fn set_cells<const N: usize>(pattern: &Pattern<N>) -> Vec<(usize, usize)> {
    let mut found = Vec::new();
    for o in 0..N {
        for i in 0..N {
            if pattern[at(i, o)] {
                found.push((i, o));
            }
        }
    }
    found
}

fn checkered() -> [[bool; 6]; 6] {
    let mut cells = [[false; 6]; 6];
    for o in 0..6 {
        for i in 0..6 {
            cells[o][i] = (i * 7 + o * 3 + i * o) % 4 == 1;
        }
    }
    cells
}

#[test]
fn blueprint_is_indexed_by_inner_then_outer() {
    let mut cells = [[false; 6]; 6];
    cells[4][1] = true;
    let blueprint = PatternBlueprint::new(cells);
    assert!(blueprint[at(1, 4)]);
    assert!(!blueprint[at(4, 1)]);
    let pattern = Pattern::new(cells);
    assert!(pattern[at(1, 4)]);
    assert!(!pattern[at(4, 1)]);
}

#[test]
fn empty_pattern_has_no_cell_set() {
    let pattern = Pattern::<6>::empty();
    assert_eq!(set_cells(&pattern), Vec::new());
}

#[test]
fn identity_transform_keeps_the_raw_grid() {
    let cells = checkered();
    let blueprint = PatternBlueprint::new(cells);
    let pattern = blueprint.construct(Transform::identity());
    for o in 0..6 {
        for i in 0..6 {
            assert_eq!(pattern[at(i, o)], cells[o][i]);
            assert_eq!(pattern[at(i, o)], blueprint[at(i, o)]);
        }
    }
}

#[test]
fn identity_has_origin_zero_and_no_symmetry() {
    let t = Transform::<6>::identity();
    assert_eq!(t.origin, at(0, 0));
    assert!(!t.transpose);
    assert!(!t.mirror);
}

#[test]
fn local_zero_lands_on_the_origin() {
    for set in [false, true] {
        let mut cells = checkered();
        cells[0][0] = set;
        let blueprint = PatternBlueprint::new(cells);
        for o in 0..6 {
            for i in 0..6 {
                let t = Transform { origin: at(i, o), transpose: false, mirror: false };
                assert_eq!(blueprint.construct(t)[at(i, o)], set);
            }
        }
    }
}

#[test]
fn translation_moves_every_cell_by_the_origin() {
    let cells = checkered();
    let blueprint = PatternBlueprint::new(cells);
    let t = Transform { origin: at(2, 5), transpose: false, mirror: false };
    let pattern = blueprint.construct(t);
    for o in 0..6 {
        for i in 0..6 {
            assert_eq!(pattern[at(2 + i, 5 + o)], cells[o][i]);
        }
    }
}

#[test]
fn each_symmetry_places_a_single_cell() {
    let blueprint = single::<4>(1, 2);
    let plain = Transform { origin: at(1, 3), transpose: false, mirror: false };
    assert_eq!(set_cells(&blueprint.construct(plain)), vec![(2, 1)]);
    let transposed = Transform { origin: at(1, 3), transpose: true, mirror: false };
    assert_eq!(set_cells(&blueprint.construct(transposed)), vec![(3, 0)]);
    let mirrored = Transform { origin: at(1, 3), transpose: false, mirror: true };
    assert_eq!(set_cells(&blueprint.construct(mirrored)), vec![(0, 1)]);
    let both = Transform { origin: at(1, 3), transpose: true, mirror: true };
    assert_eq!(set_cells(&blueprint.construct(both)), vec![(3, 2)]);
}

#[test]
fn transpose_swaps_the_rings() {
    let cells = checkered();
    let blueprint = PatternBlueprint::new(cells);
    let t = Transform { origin: at(0, 0), transpose: true, mirror: false };
    let pattern = blueprint.construct(t);
    for o in 0..6 {
        for i in 0..6 {
            assert_eq!(pattern[at(i, o)], cells[i][o]);
        }
    }
}

#[test]
fn mirror_reflects_through_the_origin() {
    let cells = checkered();
    let blueprint = PatternBlueprint::new(cells);
    let t = Transform { origin: at(0, 0), transpose: false, mirror: true };
    let pattern = blueprint.construct(t);
    for o in 0..6 {
        for i in 0..6 {
            assert_eq!(pattern[at(i, o)], cells[(6 - o) % 6][(6 - i) % 6]);
        }
    }
}

#[test]
fn transpose_and_mirror_together() {
    let cells = checkered();
    let blueprint = PatternBlueprint::new(cells);
    let t = Transform { origin: at(3, 4), transpose: true, mirror: true };
    let pattern = blueprint.construct(t);
    for o in 0..6 {
        for i in 0..6 {
            assert_eq!(pattern[at(3 + i, 4 + o)], cells[(6 - i) % 6][(6 - o) % 6]);
        }
    }
}

#[test]
fn every_symmetry_keeps_the_number_of_set_cells() {
    let cells = checkered();
    let count = cells.iter().flatten().filter(|c| **c).count();
    let blueprint = PatternBlueprint::new(cells);
    for transpose in [false, true] {
        for mirror in [false, true] {
            for o in 0..6 {
                for i in 0..6 {
                    let t = Transform { origin: at(i, o), transpose, mirror };
                    assert_eq!(set_cells(&blueprint.construct(t)).len(), count);
                }
            }
        }
    }
}

#[test]
fn construct_on_a_ring_of_one_sector() {
    let blueprint = PatternBlueprint::<1>::new([[true]]);
    let t = Transform { origin: at(0, 0), transpose: true, mirror: true };
    assert!(blueprint.construct(t)[at(0, 0)]);
}

#[test]
fn rows_are_split_into_blueprints() {
    // Laid out as outer index, then pattern, then inner index.
    let mut table = [[[false; 3]; 2]; 3];
    table[0][0][1] = true;
    table[2][0][0] = true;
    table[1][1][2] = true;
    let [first, second] = blueprints_from_rows(table);
    for o in 0..3 {
        for i in 0..3 {
            assert_eq!(first[at(i, o)], (i, o) == (1, 0) || (i, o) == (0, 2));
            assert_eq!(second[at(i, o)], (i, o) == (2, 1));
        }
    }
}
