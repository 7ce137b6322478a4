use cube_solver::cube::{Cube, Rotation};

const ALL_ROTATIONS: [Rotation; 12] = [
    Rotation::U,
    Rotation::D,
    Rotation::R,
    Rotation::L,
    Rotation::F,
    Rotation::B,
    Rotation::Ur,
    Rotation::Dr,
    Rotation::Rr,
    Rotation::Lr,
    Rotation::Fr,
    Rotation::Br,
];

fn cubes_match_facelet_for_facelet(a: &Cube, b: &Cube) -> bool {
    for side in 0..6 {
        for face in 0..9 {
            if face == 4 {
                continue;
            }
            if a.get_at(side, face) != b.get_at(side, face) {
                return false;
            }
        }
    }
    true
}

#[test]
fn rotation_applied_four_times_is_identity() {
    // All 48 facelets of the debug cube are distinct, so any misplaced
    // facelet would show.
    let cube = Cube::new_debug();
    for rotation in ALL_ROTATIONS.iter() {
        let mut turned = cube;
        for _ in 0..4 {
            turned = turned.rotate(rotation);
        }
        assert!(cubes_match_facelet_for_facelet(&turned, &cube));
    }
}

#[test]
fn rotation_equals_three_reverse_rotations() {
    let cube = Cube::new_debug();
    for rotation in ALL_ROTATIONS.iter() {
        let once = cube.rotate(rotation);
        let reverse = rotation.reverse();
        let thrice = cube.rotate(&reverse).rotate(&reverse).rotate(&reverse);
        assert!(cubes_match_facelet_for_facelet(&once, &thrice));
    }
}

#[test]
fn rotation_then_reverse_restores_state() {
    let cube = Cube::new_debug();
    for rotation in ALL_ROTATIONS.iter() {
        let there_and_back = cube.rotate(rotation).rotate(&rotation.reverse());
        assert!(cubes_match_facelet_for_facelet(&there_and_back, &cube));
    }
}

#[test]
fn reverse_is_an_involution() {
    for rotation in ALL_ROTATIONS.iter() {
        assert_eq!(rotation.reverse().reverse(), *rotation);
    }
}

#[test]
fn reverse_swaps_clockwise_and_counter_clockwise() {
    assert_eq!(Rotation::U.reverse(), Rotation::Ur);
    assert_eq!(Rotation::D.reverse(), Rotation::Dr);
    assert_eq!(Rotation::R.reverse(), Rotation::Rr);
    assert_eq!(Rotation::L.reverse(), Rotation::Lr);
    assert_eq!(Rotation::F.reverse(), Rotation::Fr);
    assert_eq!(Rotation::B.reverse(), Rotation::Br);
}

#[test]
fn rotation_moves_exactly_twenty_facelets() {
    // A face turn moves its own eight facelets and three neighboring
    // strips of three.
    let cube = Cube::new_debug();
    for rotation in ALL_ROTATIONS.iter() {
        let turned = cube.rotate(rotation);
        let mut moved = 0;
        for side in 0..6 {
            for face in 0..9 {
                if face == 4 {
                    continue;
                }
                if turned.get_at(side, face) != cube.get_at(side, face) {
                    moved += 1;
                }
            }
        }
        assert_eq!(moved, 20);
    }
}

#[test]
fn get_rotations_lists_all_twelve_turned_cubes() {
    let cube = Cube::new_debug();
    let turned = cube.get_rotations();
    assert_eq!(turned.len(), 12);
    let numbered_order = [
        Rotation::Lr,
        Rotation::R,
        Rotation::Dr,
        Rotation::Ur,
        Rotation::Br,
        Rotation::F,
        Rotation::L,
        Rotation::Rr,
        Rotation::D,
        Rotation::U,
        Rotation::B,
        Rotation::Fr,
    ];
    for (entry, rotation) in turned.iter().zip(numbered_order.iter()) {
        let expected = cube.rotate(rotation);
        assert!(cubes_match_facelet_for_facelet(entry, &expected));
    }
}
