use cube_solver::cube::{Cube, Rotation};

#[test]
fn fingerprint_is_deterministic() {
    let cube = Cube::new();
    assert_eq!(cube.get_hash(), cube.get_hash());
    let scrambled = cube.rotate(&Rotation::F).rotate(&Rotation::Ur);
    assert_eq!(scrambled.get_hash(), scrambled.get_hash());
}

#[test]
fn equal_states_share_a_fingerprint() {
    let mut edited = Cube::new();
    assert!(edited.set_at(3, 7, 1));
    let mut same_edit = Cube::new();
    assert!(same_edit.set_at(3, 7, 1));
    assert_eq!(edited.get_hash(), same_edit.get_hash());
}

#[test]
fn fingerprint_separates_valid_states() {
    // On six-color states the digest is lossless: each facelet has its own
    // three-bit field, so any change shows in the fingerprint.
    let solved = Cube::new();
    for rotation in [Rotation::U, Rotation::D, Rotation::R, Rotation::L, Rotation::F, Rotation::B]
        .iter()
    {
        assert_ne!(solved.rotate(rotation).get_hash(), solved.get_hash());
    }
}

#[test]
fn fingerprint_survives_a_full_turn_cycle() {
    let cube = Cube::new_debug();
    let h = cube.get_hash();
    let full_cycle = cube
        .rotate(&Rotation::R)
        .rotate(&Rotation::R)
        .rotate(&Rotation::R)
        .rotate(&Rotation::R);
    assert_eq!(full_cycle.get_hash(), h);
}

#[test]
fn solved_fingerprint_has_expected_words() {
    // The solved cube packs color s into every three-bit field of side s:
    // word for word, the digest of the flat sequence 0,0,..,5,5.
    let mut words: [u64; 3] = [0, 0, 0];
    for index in 0..48u32 {
        let value = (index / 8) as u64;
        if index <= 20 {
            words[0] = words[0].wrapping_add(value.rotate_left(3 * index));
        } else if index <= 39 {
            words[1] = words[1].wrapping_add(value.rotate_left(3 * (index - 20)));
        } else {
            words[2] = words[2].wrapping_add(value.rotate_left(3 * (index - 39)));
        }
    }
    assert_eq!(Cube::new().get_hash(), words);
}
