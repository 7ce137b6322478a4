use cube_solver::cube::Cube;

#[test]
fn new_cube_is_uniformly_colored() {
    let cube = Cube::new();
    for side in 0..6 {
        for face in 0..9 {
            if face == 4 {
                continue;
            }
            assert_eq!(cube.get_at(side, face), Some(side as u8));
        }
    }
}

#[test]
fn debug_cube_numbers_every_facelet() {
    let cube = Cube::new_debug();
    for side in 0..6 {
        for face in 0..9 {
            if face == 4 {
                continue;
            }
            let stored = if face < 4 { face } else { face - 1 };
            assert_eq!(cube.get_at(side, face), Some((side * 8 + stored) as u8));
        }
    }
}

#[test]
fn center_read_is_rejected_on_every_face() {
    let cube = Cube::new();
    for side in 0..6 {
        assert!(cube.get_at(side, 4).is_none());
    }
}

#[test]
fn center_write_is_rejected_on_every_face() {
    let mut cube = Cube::new();
    for side in 0..6 {
        assert!(!cube.set_at(side, 4, 3));
    }
    // The rejected writes left the cube untouched.
    for side in 0..6 {
        for face in 0..9 {
            if face == 4 {
                continue;
            }
            assert_eq!(cube.get_at(side, face), Some(side as u8));
        }
    }
}

#[test]
fn set_at_writes_exactly_one_facelet() {
    let mut cube = Cube::new();
    assert!(cube.set_at(2, 3, 5));
    for side in 0..6 {
        for face in 0..9 {
            if face == 4 {
                continue;
            }
            let expected = if side == 2 && face == 3 { 5 } else { side as u8 };
            assert_eq!(cube.get_at(side, face), Some(expected));
        }
    }
}

#[test]
fn set_at_covers_positions_on_both_sides_of_the_center() {
    let mut cube = Cube::new();
    assert!(cube.set_at(1, 3, 4));
    assert!(cube.set_at(1, 5, 2));
    assert_eq!(cube.get_at(1, 3), Some(4));
    assert_eq!(cube.get_at(1, 5), Some(2));
    assert_eq!(cube.get_at(1, 0), Some(1));
}
