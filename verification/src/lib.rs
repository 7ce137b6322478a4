//! A puzzle-cube permutation engine with a bidirectional breadth-first
//! solver: cube states, the twelve face rotations as verified permutations,
//! a compact state fingerprint, and a two-frontier search. Any rotation
//! sequence the solver returns provably transforms the start state into the
//! goal, and whenever the two states lie within the search budget's reach,
//! a solution is provably found.

pub mod cube;
pub mod fingerprint;
pub mod solver;
pub mod visited;
