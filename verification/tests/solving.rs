use cube_solver::cube::{Cube, Rotation};
use cube_solver::solver::{rotations_reversed, solve_cube_two_way_breath_first};

fn replay(start: &Cube, rotations: &Vec<Rotation>) -> Cube {
    let mut cube = *start;
    for rotation in rotations.iter() {
        cube = cube.rotate(rotation);
    }
    cube
}

fn same_facelets(a: &Cube, b: &Cube) -> bool {
    for side in 0..6 {
        for face in 0..9 {
            if face == 4 {
                continue;
            }
            if a.get_at(side, face) != b.get_at(side, face) {
                return false;
            }
        }
    }
    true
}

#[test]
fn solved_against_itself_yields_the_empty_solution() {
    let solved = Cube::new();
    let solution = solve_cube_two_way_breath_first(&solved, &solved).unwrap();
    assert!(solution.is_empty());
}

#[test]
fn single_turn_scramble_is_solved_by_the_reverse_turn() {
    let goal = Cube::new();
    let start = goal.rotate(&Rotation::R);
    let solution = solve_cube_two_way_breath_first(&start, &goal).unwrap();
    assert_eq!(solution, vec![Rotation::Rr]);
}

#[test]
fn two_turn_scramble_is_undone_in_order() {
    let goal = Cube::new();
    let start = goal.rotate(&Rotation::U).rotate(&Rotation::R);
    let solution = solve_cube_two_way_breath_first(&start, &goal).unwrap();
    assert_eq!(solution, vec![Rotation::Rr, Rotation::Ur]);
    assert!(same_facelets(&replay(&start, &solution), &goal));
}

#[test]
fn three_turn_scramble_replays_back_to_the_goal() {
    let goal = Cube::new();
    let start = goal
        .rotate(&Rotation::U)
        .rotate(&Rotation::R)
        .rotate(&Rotation::Fr);
    let solution = solve_cube_two_way_breath_first(&start, &goal).unwrap();
    assert_eq!(solution, vec![Rotation::F, Rotation::Rr, Rotation::Ur]);
    assert!(same_facelets(&replay(&start, &solution), &goal));
}

#[test]
fn replayed_solution_matches_the_goal_fingerprint() {
    let goal = Cube::new();
    let start = goal.rotate(&Rotation::B).rotate(&Rotation::Dr);
    let solution = solve_cube_two_way_breath_first(&start, &goal).unwrap();
    assert!(!solution.is_empty());
    assert_eq!(replay(&start, &solution).get_hash(), goal.get_hash());
}

#[test]
fn solving_towards_an_edited_goal_reaches_it_exactly() {
    // The goal differs from solved in a pattern that one turn produces, so
    // the search meets after a single layer.
    let solved = Cube::new();
    let goal = solved.rotate(&Rotation::L);
    let solution = solve_cube_two_way_breath_first(&solved, &goal).unwrap();
    assert_eq!(solution, vec![Rotation::L]);
    assert!(same_facelets(&replay(&solved, &solution), &goal));
}

#[test]
fn four_turn_scramble_is_undone_in_exact_reverse_order() {
    // Deep enough for both frontiers to expand two full layers before the
    // meeting.
    let goal = Cube::new();
    let start = goal
        .rotate(&Rotation::U)
        .rotate(&Rotation::R)
        .rotate(&Rotation::F)
        .rotate(&Rotation::D);
    let solution = solve_cube_two_way_breath_first(&start, &goal).unwrap();
    assert_eq!(
        solution,
        vec![Rotation::Dr, Rotation::Fr, Rotation::Rr, Rotation::Ur]
    );
    assert!(same_facelets(&replay(&start, &solution), &goal));
}

#[test]
fn rotations_reversed_undoes_a_sequence() {
    let moves = vec![Rotation::U, Rotation::R, Rotation::Fr, Rotation::D];
    let undoing = rotations_reversed(&moves);
    assert_eq!(
        undoing,
        vec![Rotation::Dr, Rotation::F, Rotation::Rr, Rotation::Ur]
    );
    let solved = Cube::new();
    let scrambled = replay(&solved, &moves);
    assert!(same_facelets(&replay(&scrambled, &undoing), &solved));
}
