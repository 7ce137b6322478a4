//! The bidirectional breadth-first solver: two frontiers, one rooted at the
//! goal state and one at the start state, expanded in alternation one layer
//! at a time. A meeting of the two visited-sets yields a move sequence,
//! rebuilt by walking both predecessor chains back to their roots. The
//! solver's contract is exact: any returned rotation list, replayed from the
//! start state, reproduces the goal state facelet-for-facelet.

use vstd::prelude::*;

use crate::cube::{
    lemma_rotate_preserves_valid_colors, lemma_rotate_then_reverse, spec_rotate, valid_colors,
    Cube, Rotation,
};
use crate::fingerprint::{fingerprint_words, lemma_fingerprint_injective};
use crate::visited::{state_key, word_key, VisitedSet};

verus! {

/// The state that a rotation sequence produces when applied to `v`, first
/// rotation first.
pub open spec fn spec_replay(v: Seq<u8>, rots: Seq<Rotation>) -> Seq<u8>
    decreases rots.len(),
{
    if rots.len() == 0 {
        v
    } else {
        spec_replay(spec_rotate(v, rots[0]), rots.subrange(1, rots.len() as int))
    }
}

/// The same rotations in opposite order.
pub open spec fn seq_reversed(s: Seq<Rotation>) -> Seq<Rotation> {
    Seq::new(s.len(), |i: int| s[s.len() - 1 - i])
}

/// The undoing sequence: opposite order, each rotation replaced by its
/// reverse.
pub open spec fn spec_rotations_reversed(s: Seq<Rotation>) -> Seq<Rotation> {
    Seq::new(s.len(), |i: int| s[s.len() - 1 - i].spec_reverse())
}

/// Each rotation replaced by its reverse, order kept.
pub open spec fn reversed_each(s: Seq<Rotation>) -> Seq<Rotation> {
    Seq::new(s.len(), |i: int| s[i].spec_reverse())
}

/// Replaying one more rotation on the end of a sequence rotates the replayed
/// state once more.
pub proof fn lemma_replay_push(v: Seq<u8>, s: Seq<Rotation>, r: Rotation)
    ensures
        spec_replay(v, s.push(r)) == spec_rotate(spec_replay(v, s), r),
    decreases s.len(),
{
    if s.len() == 0 {
        reveal_with_fuel(spec_replay, 2);
        assert(s.push(r)[0] == r);
        assert(s.push(r).subrange(1, 1) =~= Seq::<Rotation>::empty());
        assert(spec_replay(v, s.push(r)) == spec_rotate(v, r));
    } else {
        assert(s.push(r)[0] == s[0]);
        assert(s.push(r).subrange(1, s.len() as int + 1) =~= s.subrange(1, s.len() as int).push(r));
        lemma_replay_push(spec_rotate(v, s[0]), s.subrange(1, s.len() as int), r);
    }
}

/// Replaying a concatenation replays the two parts in turn.
pub proof fn lemma_replay_concat(v: Seq<u8>, a: Seq<Rotation>, b: Seq<Rotation>)
    ensures
        spec_replay(v, a + b) == spec_replay(spec_replay(v, a), b),
    decreases a.len(),
{
    if a.len() == 0 {
        assert(a + b =~= b);
    } else {
        assert((a + b).len() == a.len() + b.len());
        assert((a + b)[0] == a[0]);
        assert((a + b).subrange(1, a.len() as int + b.len() as int) =~= a.subrange(1, a.len() as int) + b);
        lemma_replay_concat(spec_rotate(v, a[0]), a.subrange(1, a.len() as int), b);
    }
}

/// The undoing sequence really undoes: replaying a sequence and then its
/// reversal returns to the starting state.
pub proof fn lemma_replay_undo(v: Seq<u8>, s: Seq<Rotation>)
    requires
        v.len() == 48,
    ensures
        spec_replay(spec_replay(v, s), spec_rotations_reversed(s)) == v,
    decreases s.len(),
{
    if s.len() == 0 {
    } else {
        let w = spec_rotate(v, s[0]);
        let rest = s.subrange(1, s.len() as int);
        lemma_replay_undo(w, rest);
        assert(spec_rotations_reversed(s) =~= spec_rotations_reversed(rest).push(
            s[0].spec_reverse(),
        ));
        lemma_replay_push(spec_replay(w, rest), spec_rotations_reversed(rest), s[0].spec_reverse());
        lemma_rotate_then_reverse(v, s[0]);
    }
}

/// The fixed order in which the solver tries the twelve rotations while
/// expanding a frontier state; ties between equally short solutions resolve
/// to whichever this order discovers first.
pub open spec fn canonical_rotations() -> Seq<Rotation> {
    seq![
        Rotation::U,
        Rotation::D,
        Rotation::R,
        Rotation::L,
        Rotation::F,
        Rotation::B,
        Rotation::Ur,
        Rotation::Dr,
        Rotation::Rr,
        Rotation::Lr,
        Rotation::Fr,
        Rotation::Br,
    ]
}

fn all_rotations() -> (v: Vec<Rotation>)
    ensures
        v@ == canonical_rotations(),
{
    let mut v: Vec<Rotation> = Vec::new();
    v.push(Rotation::U);
    v.push(Rotation::D);
    v.push(Rotation::R);
    v.push(Rotation::L);
    v.push(Rotation::F);
    v.push(Rotation::B);
    v.push(Rotation::Ur);
    v.push(Rotation::Dr);
    v.push(Rotation::Rr);
    v.push(Rotation::Lr);
    v.push(Rotation::Fr);
    v.push(Rotation::Br);
    proof {
        assert(v@ =~= canonical_rotations());
    }
    v
}

/// Whether some cube in the list carries exactly this state.
pub open spec fn state_in_list(cubes: Seq<Cube>, v: Seq<u8>) -> bool {
    exists|i: int| 0 <= i < cubes.len() && cubes[i]@ == v
}

/// Every rotation stands somewhere in the fixed enumeration order.
pub proof fn lemma_canonical_complete(rot: Rotation)
    ensures
        exists|j: int| 0 <= j < 12 && canonical_rotations()[j] == rot,
{
    match rot {
        Rotation::U => assert(canonical_rotations()[0] == rot),
        Rotation::D => assert(canonical_rotations()[1] == rot),
        Rotation::R => assert(canonical_rotations()[2] == rot),
        Rotation::L => assert(canonical_rotations()[3] == rot),
        Rotation::F => assert(canonical_rotations()[4] == rot),
        Rotation::B => assert(canonical_rotations()[5] == rot),
        Rotation::Ur => assert(canonical_rotations()[6] == rot),
        Rotation::Dr => assert(canonical_rotations()[7] == rot),
        Rotation::Rr => assert(canonical_rotations()[8] == rot),
        Rotation::Lr => assert(canonical_rotations()[9] == rot),
        Rotation::Fr => assert(canonical_rotations()[10] == rot),
        Rotation::Br => assert(canonical_rotations()[11] == rot),
    }
}

/// Walks one visited-set's predecessor chain from the meeting state back to
/// that side's root, collecting the recorded rotations in walk order: the
/// result is exactly the recorded chain, its length the meeting entry's
/// rank. With `reverse` false the result, read backwards, leads from the
/// root to the meeting state; with `reverse` true each rotation is
/// reversed, and the result leads from the meeting state to the root.
#[verifier::rlimit(50)]
pub fn get_solution_from_hashmap(
    middle_hash: [u64; 3],
    middle_cube: &Cube,
    hash_map: &VisitedSet,
    reverse: bool,
) -> (r: Option<Vec<Rotation>>)
    requires
        hash_map.wf(),
        hash_map.registered(middle_cube@),
        middle_hash@ == fingerprint_words(middle_cube@),
    ensures
        r matches Some(sol) && (if reverse {
            spec_replay(middle_cube@, sol@) == hash_map.root_state()
        } else {
            spec_replay(hash_map.root_state(), seq_reversed(sol@)) == middle_cube@
        }),
        r matches Some(sol) && sol@.len() == hash_map.rank()[state_key(middle_cube@)],
        r matches Some(sol) && ({
            let chain = hash_map.chain_from(
                middle_cube@,
                hash_map.rank()[state_key(middle_cube@)],
            );
            sol@ == if reverse {
                reversed_each(chain)
            } else {
                chain
            }
        }),
{
    let mut solution_rotations: Vec<Rotation> = Vec::new();

    let ghost middle_rank = hash_map.rank()[state_key(middle_cube@)];
    let ghost mut raw: Seq<Rotation> = Seq::empty();
    let mut lookup_cube = *middle_cube;
    let mut lookup_hash = middle_hash;
    loop
        invariant
            hash_map.wf(),
            hash_map.registered(lookup_cube@),
            lookup_hash@ == fingerprint_words(lookup_cube@),
            middle_rank == hash_map.rank()[state_key(middle_cube@)],
            raw.len() + hash_map.rank()[state_key(lookup_cube@)] == middle_rank,
            hash_map.chain_from(middle_cube@, middle_rank) == raw + hash_map.chain_from(
                lookup_cube@,
                hash_map.rank()[state_key(lookup_cube@)],
            ),
            solution_rotations@ == if reverse {
                reversed_each(raw)
            } else {
                raw
            },
            if reverse {
                spec_replay(middle_cube@, solution_rotations@) == lookup_cube@
            } else {
                spec_replay(lookup_cube@, seq_reversed(solution_rotations@)) == middle_cube@
            },
        ensures
            lookup_cube@ == hash_map.root_state(),
            raw.len() == middle_rank,
            hash_map.chain_from(middle_cube@, middle_rank) == raw,
            solution_rotations@ == if reverse {
                reversed_each(raw)
            } else {
                raw
            },
            if reverse {
                spec_replay(middle_cube@, solution_rotations@) == lookup_cube@
            } else {
                spec_replay(lookup_cube@, seq_reversed(solution_rotations@)) == middle_cube@
            },
        decreases hash_map.rank()[state_key(lookup_cube@)],
    {
        proof {
            assert(word_key(lookup_hash@) == state_key(lookup_cube@));
        }
        match hash_map.get_pred(&lookup_hash) {
            Some(rotation) => {
                let ghost prev = lookup_cube@;
                let ghost prev_sol = solution_rotations@;
                let reversed = rotation.reverse();
                let next_cube = lookup_cube.rotate(&reversed);
                lookup_hash = next_cube.get_hash();
                solution_rotations.push(
                    if reverse {
                        reversed
                    } else {
                        rotation
                    },
                );
                lookup_cube = next_cube;
                proof {
                    // The visited-set invariant: undoing the recorded
                    // rotation lands on another registered state of exactly
                    // one rank less.
                    assert(hash_map@.dom().contains(state_key(prev)));
                    let ghost prev_rank = hash_map.rank()[state_key(prev)];
                    let ghost rest = hash_map.chain_from(
                        lookup_cube@,
                        hash_map.rank()[state_key(lookup_cube@)],
                    );
                    assert(hash_map.chain_from(prev, prev_rank) == seq![rotation] + rest);
                    assert((raw + (seq![rotation] + rest)) =~= (raw.push(rotation) + rest));
                    assert(reversed_each(raw.push(rotation)) =~= reversed_each(raw).push(
                        rotation.spec_reverse(),
                    ));
                    raw = raw.push(rotation);
                    assert(valid_colors(prev));
                    assert(lookup_cube@ == spec_rotate(prev, rotation.spec_reverse()));
                    assert(hash_map.registered(lookup_cube@));
                    assert(solution_rotations@ == prev_sol.push(
                        if reverse {
                            reversed
                        } else {
                            rotation
                        },
                    ));
                    if reverse {
                        lemma_replay_push(middle_cube@, prev_sol, reversed);
                        assert(spec_replay(middle_cube@, solution_rotations@) == spec_rotate(
                            spec_replay(middle_cube@, prev_sol),
                            reversed,
                        ));
                    } else {
                        assert(seq_reversed(prev_sol.push(rotation)) =~= seq![rotation]
                            + seq_reversed(prev_sol));
                        assert(seq![rotation].subrange(1, 1) =~= Seq::<Rotation>::empty());
                        lemma_replay_concat(lookup_cube@, seq![rotation], seq_reversed(prev_sol));
                        lemma_rotate_then_reverse(prev, rotation.spec_reverse());
                        assert(rotation.spec_reverse().spec_reverse() == rotation);
                        assert(spec_rotate(lookup_cube@, rotation) == prev);
                        reveal_with_fuel(spec_replay, 2);
                        assert(seq![rotation][0] == rotation);
                        assert(spec_replay(lookup_cube@, seq![rotation]) == prev);
                        assert(spec_replay(lookup_cube@, seq_reversed(solution_rotations@))
                            == spec_replay(prev, seq_reversed(prev_sol)));
                    }
                }
            },
            None => {
                proof {
                    // A missing predecessor marks the root, and the root's
                    // fingerprint was registered by the root state itself.
                    assert(hash_map@.dom().contains(state_key(lookup_cube@)));
                    assert(state_key(lookup_cube@) == state_key(hash_map.root_state()));
                    assert(lookup_cube@ == hash_map.root_state());
                    assert(hash_map.chain_from(
                        lookup_cube@,
                        hash_map.rank()[state_key(lookup_cube@)],
                    ) =~= Seq::<Rotation>::empty());
                    assert(raw + Seq::<Rotation>::empty() =~= raw);
                }
                break ;
            },
        }
    }
    Some(solution_rotations)
}

/// Joins the two predecessor walks at a meeting state into one rotation
/// list that leads from the root of `end_hashes` through the meeting state
/// to the root of `begin_hashes`: the end-side chain in reverse order, then
/// the begin-side chain with each rotation reversed. Its length is the sum
/// of the meeting entry's ranks in the two sets.
pub fn get_solution_from_two_way_hashmaps(
    middle_hash: [u64; 3],
    middle_cube: &Cube,
    begin_hashes: &VisitedSet,
    end_hashes: &VisitedSet,
) -> (r: Option<Vec<Rotation>>)
    requires
        begin_hashes.wf(),
        end_hashes.wf(),
        begin_hashes.registered(middle_cube@),
        end_hashes.registered(middle_cube@),
        middle_hash@ == fingerprint_words(middle_cube@),
    ensures
        r matches Some(sol) && spec_replay(end_hashes.root_state(), sol@)
            == begin_hashes.root_state(),
        r matches Some(sol) && sol@.len() == begin_hashes.rank()[state_key(middle_cube@)]
            + end_hashes.rank()[state_key(middle_cube@)],
        r matches Some(sol) && sol@ == seq_reversed(
            end_hashes.chain_from(middle_cube@, end_hashes.rank()[state_key(middle_cube@)]),
        ) + reversed_each(
            begin_hashes.chain_from(middle_cube@, begin_hashes.rank()[state_key(middle_cube@)]),
        ),
{
    let mut solution_rotations: Vec<Rotation> = Vec::new();

    // The walk towards the end root, turned around so that it leads from
    // that root forward to the meeting state.
    let forward_solution = get_solution_from_hashmap(
        middle_hash,
        middle_cube,
        end_hashes,
        false,
    ).unwrap();
    let n = forward_solution.len();
    let mut idx: usize = 0;
    while idx < n
        invariant
            idx <= n,
            n == forward_solution@.len(),
            solution_rotations@.len() == idx,
            forall|j: int|
                0 <= j < idx ==> solution_rotations@[j] == forward_solution@[n - 1 - j],
        decreases n - idx,
    {
        solution_rotations.push(forward_solution[n - 1 - idx]);
        idx = idx + 1;
    }
    let ghost first_leg = solution_rotations@;
    proof {
        assert(first_leg =~= seq_reversed(forward_solution@));
    }

    // The walk towards the begin root, already reversed rotation by
    // rotation: it leads from the meeting state to that root.
    let backward_solution = get_solution_from_hashmap(
        middle_hash,
        middle_cube,
        begin_hashes,
        true,
    ).unwrap();
    let m = backward_solution.len();
    let mut j: usize = 0;
    while j < m
        invariant
            j <= m,
            m == backward_solution@.len(),
            solution_rotations@ == first_leg + backward_solution@.subrange(0, j as int),
        decreases m - j,
    {
        solution_rotations.push(backward_solution[j]);
        proof {
            assert(solution_rotations@ =~= first_leg + backward_solution@.subrange(0, j + 1));
        }
        j = j + 1;
    }
    proof {
        assert(backward_solution@.subrange(0, m as int) =~= backward_solution@);
        lemma_replay_concat(end_hashes.root_state(), first_leg, backward_solution@);
    }
    Some(solution_rotations)
}

/// Expands one side of the search by one layer: every frontier state is
/// turned by all twelve rotations; fresh fingerprints are recorded and their
/// states kept for the next layer, already-seen fingerprints are discarded
/// as transpositions. If a fresh fingerprint is also present in the other
/// side's visited-set, the two searches have met and the joined rotation
/// list comes back at once. Without a meeting, the layer is complete: every
/// rotation of every frontier state is recorded, nothing recorded before is
/// lost or changed, the freshly recorded states are exactly the next
/// frontier, and none of them is known to the other side.
pub fn extend_breath_first_search(
    old_cubes: &Vec<Cube>,
    new_cubes: &mut Vec<Cube>,
    hashes: &mut VisitedSet,
    other_hashes: &VisitedSet,
) -> (r: Option<Vec<Rotation>>)
    requires
        old(hashes).wf(),
        other_hashes.wf(),
        old(new_cubes)@.len() == 0,
        forall|i: int|
            0 <= i < old_cubes@.len() ==> old(hashes).registered(#[trigger] old_cubes@[i]@),
    ensures
        final(hashes).wf(),
        final(hashes).root_state() == old(hashes).root_state(),
        forall|i: int|
            0 <= i < final(new_cubes)@.len() ==> final(hashes).registered(
                #[trigger] final(new_cubes)@[i]@,
            ),
        forall|i: int|
            0 <= i < final(new_cubes)@.len() ==> !old(hashes)@.contains_key(
                state_key(#[trigger] final(new_cubes)@[i]@),
            ),
        forall|k: (u64, u64, u64)| #[trigger]
            old(hashes)@.contains_key(k) ==> final(hashes)@.contains_key(k) && final(hashes)@[k]
                == old(hashes)@[k] && final(hashes).witness()[k] == old(hashes).witness()[k]
                && final(hashes).rank()[k] == old(hashes).rank()[k],
        forall|v: Seq<u8>| #[trigger] old(hashes).registered(v) ==> final(hashes).registered(v),
        forall|k: (u64, u64, u64)| #[trigger]
            final(hashes)@.contains_key(k) && !old(hashes)@.contains_key(k) ==> exists|
                i: int,
                j: int,
            |
                0 <= i < old_cubes@.len() && 0 <= j < 12 && final(hashes).witness()[k]
                    == spec_rotate(old_cubes@[i]@, canonical_rotations()[j])
                    && final(hashes).rank()[k] == final(hashes).rank()[state_key(old_cubes@[i]@)]
                    + 1,
        r is None ==> forall|i: int, j: int|
            0 <= i < old_cubes@.len() && 0 <= j < 12 ==> final(hashes).registered(
                #[trigger] spec_rotate(old_cubes@[i]@, canonical_rotations()[j]),
            ),
        r is None ==> forall|k: (u64, u64, u64)| #[trigger]
            final(hashes)@.contains_key(k) && !old(hashes)@.contains_key(k)
                ==> !other_hashes@.contains_key(k),
        r is None ==> forall|k: (u64, u64, u64)| #[trigger]
            final(hashes)@.contains_key(k) && !old(hashes)@.contains_key(k) ==> state_in_list(
                final(new_cubes)@,
                final(hashes).witness()[k],
            ),
        r matches Some(sol) ==> spec_replay(other_hashes.root_state(), sol@) == old(
            hashes,
        ).root_state(),
        r matches Some(sol) ==> exists|k: (u64, u64, u64)|
            final(hashes)@.contains_key(k) && other_hashes@.contains_key(k) && !old(
                hashes,
            )@.contains_key(k) && sol@.len() == final(hashes).rank()[k] + other_hashes.rank()[k]
                && sol@.len() >= 1,
{
    let all_rotations = all_rotations();

    let mut ci: usize = 0;
    while ci < old_cubes.len()
        invariant
            hashes.wf(),
            other_hashes.wf(),
            hashes.root_state() == old(hashes).root_state(),
            all_rotations@ == canonical_rotations(),
            ci <= old_cubes@.len(),
            forall|i: int|
                0 <= i < old_cubes@.len() ==> hashes.registered(#[trigger] old_cubes@[i]@),
            forall|i: int|
                0 <= i < new_cubes@.len() ==> hashes.registered(#[trigger] new_cubes@[i]@),
            forall|i: int|
                0 <= i < new_cubes@.len() ==> !old(hashes)@.contains_key(
                    state_key(#[trigger] new_cubes@[i]@),
                ),
            forall|k: (u64, u64, u64)| #[trigger]
                old(hashes)@.contains_key(k) ==> hashes@.contains_key(k) && hashes@[k] == old(
                    hashes,
                )@[k] && hashes.witness()[k] == old(hashes).witness()[k] && hashes.rank()[k]
                    == old(hashes).rank()[k],
            forall|v: Seq<u8>| #[trigger] old(hashes).registered(v) ==> hashes.registered(v),
            forall|k: (u64, u64, u64)| #[trigger]
                hashes@.contains_key(k) && !old(hashes)@.contains_key(k) ==> exists|
                    i: int,
                    j: int,
                |
                    0 <= i < old_cubes@.len() && 0 <= j < 12 && hashes.witness()[k] == spec_rotate(
                        old_cubes@[i]@,
                        canonical_rotations()[j],
                    ) && hashes.rank()[k] == hashes.rank()[state_key(old_cubes@[i]@)] + 1,
            forall|k: (u64, u64, u64)| #[trigger]
                hashes@.contains_key(k) && !old(hashes)@.contains_key(k)
                    ==> !other_hashes@.contains_key(k),
            forall|k: (u64, u64, u64)| #[trigger]
                hashes@.contains_key(k) && !old(hashes)@.contains_key(k) ==> state_in_list(
                    new_cubes@,
                    hashes.witness()[k],
                ),
            forall|i: int, j: int|
                0 <= i < ci && 0 <= j < 12 ==> hashes.registered(
                    #[trigger] spec_rotate(old_cubes@[i]@, canonical_rotations()[j]),
                ),
        decreases old_cubes@.len() - ci,
    {
        let cube = old_cubes[ci];
        let mut ri: usize = 0;
        while ri < 12
            invariant
                hashes.wf(),
                other_hashes.wf(),
                hashes.root_state() == old(hashes).root_state(),
                all_rotations@ == canonical_rotations(),
                ri <= 12,
                ci < old_cubes@.len(),
                cube@ == old_cubes@[ci as int]@,
                hashes.registered(cube@),
                forall|i: int|
                    0 <= i < old_cubes@.len() ==> hashes.registered(#[trigger] old_cubes@[i]@),
                forall|i: int|
                    0 <= i < new_cubes@.len() ==> hashes.registered(#[trigger] new_cubes@[i]@),
                forall|i: int|
                    0 <= i < new_cubes@.len() ==> !old(hashes)@.contains_key(
                        state_key(#[trigger] new_cubes@[i]@),
                    ),
                forall|k: (u64, u64, u64)| #[trigger]
                    old(hashes)@.contains_key(k) ==> hashes@.contains_key(k) && hashes@[k] == old(
                        hashes,
                    )@[k] && hashes.witness()[k] == old(hashes).witness()[k] && hashes.rank()[k]
                        == old(hashes).rank()[k],
                forall|v: Seq<u8>| #[trigger] old(hashes).registered(v) ==> hashes.registered(v),
                forall|k: (u64, u64, u64)| #[trigger]
                    hashes@.contains_key(k) && !old(hashes)@.contains_key(k) ==> exists|
                        i: int,
                        j: int,
                    |
                        0 <= i < old_cubes@.len() && 0 <= j < 12 && hashes.witness()[k]
                            == spec_rotate(old_cubes@[i]@, canonical_rotations()[j])
                            && hashes.rank()[k] == hashes.rank()[state_key(old_cubes@[i]@)] + 1,
                forall|k: (u64, u64, u64)| #[trigger]
                    hashes@.contains_key(k) && !old(hashes)@.contains_key(k)
                        ==> !other_hashes@.contains_key(k),
                forall|k: (u64, u64, u64)| #[trigger]
                    hashes@.contains_key(k) && !old(hashes)@.contains_key(k) ==> state_in_list(
                        new_cubes@,
                        hashes.witness()[k],
                    ),
                forall|i: int, j: int|
                    0 <= i < old_cubes@.len() && 0 <= j < 12 && (i < ci || (i == ci && j < ri))
                        ==> hashes.registered(
                        #[trigger] spec_rotate(old_cubes@[i]@, canonical_rotations()[j]),
                    ),
            decreases 12 - ri,
        {
            let rotation = all_rotations[ri];
            proof {
                // The frontier state is a registered witness, so its colors
                // are valid, and turning it keeps them valid.
                assert(hashes@.dom().contains(state_key(cube@)));
                lemma_rotate_preserves_valid_colors(cube@, rotation);
            }
            let rotated_cube = cube.rotate(&rotation);
            let hash = rotated_cube.get_hash();
            proof {
                assert(word_key(hash@) == state_key(rotated_cube@));
            }
            if !hashes.contains(&hash) {
                let ghost before = *hashes;
                let ghost frontier_before = new_cubes@;
                hashes.record_reached(&hash, &rotation, &rotated_cube, Ghost(cube@));
                proof {
                    let rk = state_key(rotated_cube@);
                    // Recording a fresh fingerprint does not disturb any
                    // state registered before.
                    assert forall|v: Seq<u8>| before.registered(v) implies hashes.registered(
                        v,
                    ) by {
                        assert(before@.dom().contains(state_key(v)));
                    }
                    assert(!old(hashes)@.contains_key(rk));
                    // Every fresh entry, the new one included, descends from
                    // a frontier state by one of the twelve rotations, one
                    // rank below it.
                    assert forall|k: (u64, u64, u64)| #[trigger]
                        hashes@.contains_key(k) && !old(hashes)@.contains_key(k) implies exists|
                        i: int,
                        j: int,
                    |
                        0 <= i < old_cubes@.len() && 0 <= j < 12 && hashes.witness()[k]
                            == spec_rotate(old_cubes@[i]@, canonical_rotations()[j])
                            && hashes.rank()[k] == hashes.rank()[state_key(old_cubes@[i]@)]
                            + 1 by {
                        if k == rk {
                            assert(before@.dom().contains(state_key(cube@)));
                            assert(hashes.witness()[k] == spec_rotate(
                                old_cubes@[ci as int]@,
                                canonical_rotations()[ri as int],
                            ));
                            assert(hashes.rank()[k] == hashes.rank()[state_key(
                                old_cubes@[ci as int]@,
                            )] + 1);
                        } else {
                            assert(before@.contains_key(k));
                            let (i, j) = choose|i: int, j: int|
                                0 <= i < old_cubes@.len() && 0 <= j < 12 && before.witness()[k]
                                    == spec_rotate(old_cubes@[i]@, canonical_rotations()[j])
                                    && before.rank()[k] == before.rank()[state_key(
                                    old_cubes@[i]@,
                                )] + 1;
                            assert(before@.dom().contains(state_key(old_cubes@[i]@)));
                            assert(hashes.witness()[k] == spec_rotate(
                                old_cubes@[i]@,
                                canonical_rotations()[j],
                            ) && hashes.rank()[k] == hashes.rank()[state_key(old_cubes@[i]@)]
                                + 1);
                        }
                    }
                }
                if other_hashes.contains(&hash) {
                    proof {
                        // The other side recorded this fingerprint from a
                        // valid witness state; fingerprints of valid states
                        // are injective, so that witness is this very state.
                        let k = state_key(rotated_cube@);
                        assert(other_hashes@.dom().contains(k));
                        lemma_fingerprint_injective(other_hashes.witness()[k], rotated_cube@);
                    }
                    let solution_rotations = get_solution_from_two_way_hashmaps(
                        hash,
                        &rotated_cube,
                        &*hashes,
                        other_hashes,
                    );
                    proof {
                        let k = state_key(rotated_cube@);
                        assert(hashes@.contains_key(k) && other_hashes@.contains_key(k) && !old(
                            hashes,
                        )@.contains_key(k));
                        assert(hashes.rank()[k] >= 1);
                    }
                    return Some(solution_rotations.unwrap());
                }
                new_cubes.push(rotated_cube);
                proof {
                    let rk = state_key(rotated_cube@);
                    assert(new_cubes@[new_cubes@.len() - 1]@ == rotated_cube@);
                    // Every fresh entry's state stands in the next frontier.
                    assert forall|k: (u64, u64, u64)| #[trigger]
                        hashes@.contains_key(k) && !old(hashes)@.contains_key(
                            k,
                        ) implies state_in_list(new_cubes@, hashes.witness()[k]) by {
                        if k == rk {
                            assert(new_cubes@[new_cubes@.len() - 1]@ == hashes.witness()[k]);
                        } else {
                            let i0 = choose|i0: int|
                                0 <= i0 < frontier_before.len() && frontier_before[i0]@
                                    == hashes.witness()[k];
                            assert(new_cubes@[i0]@ == hashes.witness()[k]);
                        }
                    }
                }
            } else {
                proof {
                    // A transposition: this fingerprint was already recorded
                    // on this side, and by injectivity its witness is this
                    // very state, so the pair still counts as covered.
                    let k = state_key(rotated_cube@);
                    assert(hashes@.dom().contains(k));
                    lemma_fingerprint_injective(hashes.witness()[k], rotated_cube@);
                    assert(hashes.registered(rotated_cube@));
                }
            }
            proof {
                assert(hashes.registered(
                    spec_rotate(old_cubes@[ci as int]@, canonical_rotations()[ri as int]),
                ));
            }
            ri = ri + 1;
        }
        ci = ci + 1;
    }
    None
}

/// Whether some sequence of at most `n` rotations carries `root` to `v`.
pub open spec fn in_ball(root: Seq<u8>, v: Seq<u8>, n: nat) -> bool {
    exists|rots: Seq<Rotation>| rots.len() <= n && spec_replay(root, rots) == v
}

/// Whether one single turn carries `u` to `v`.
pub open spec fn one_turn_apart(u: Seq<u8>, v: Seq<u8>) -> bool {
    exists|rot: Rotation| spec_rotate(u, rot) == v
}

/// The side rooted at `root` has recorded every state within `n` turns of it.
pub open spec fn covers_ball(s: VisitedSet, root: Seq<u8>, n: nat) -> bool {
    forall|v: Seq<u8>| #[trigger] in_ball(root, v, n) ==> s.registered(v)
}

/// Every recorded state outside the pending frontier already has all twelve
/// of its neighbors recorded.
pub open spec fn expanded_except(s: VisitedSet, frontier: Seq<Cube>) -> bool {
    forall|v: Seq<u8>, j: int|
        s.registered(v) && 0 <= j < 12 && !state_in_list(frontier, v) ==> s.registered(
            #[trigger] spec_rotate(v, canonical_rotations()[j]),
        )
}

/// The two sides of the search never record the same fingerprint for as
/// long as no meeting has been reported.
pub open spec fn keys_disjoint(a: VisitedSet, b: VisitedSet) -> bool {
    forall|k: (u64, u64, u64)| #[trigger] a@.contains_key(k) ==> !b@.contains_key(k)
}

/// Replaying rotations preserves validity of the colors.
pub proof fn lemma_replay_preserves_valid_colors(v: Seq<u8>, rots: Seq<Rotation>)
    requires
        valid_colors(v),
    ensures
        valid_colors(spec_replay(v, rots)),
    decreases rots.len(),
{
    if rots.len() == 0 {
    } else {
        lemma_rotate_preserves_valid_colors(v, rots[0]);
        lemma_replay_preserves_valid_colors(
            spec_rotate(v, rots[0]),
            rots.subrange(1, rots.len() as int),
        );
    }
}

/// One fully expanded layer advances a side's coverage: a set that held
/// every state within `n` turns of its root, with everything outside the
/// frontier already expanded, holds after the expansion every state within
/// `n + 1` turns, and only the fresh frontier may still have unexpanded
/// neighbors.
proof fn lemma_layer_advances(
    pre: VisitedSet,
    post: VisitedSet,
    frontier: Seq<Cube>,
    next: Seq<Cube>,
    root: Seq<u8>,
    n: nat,
)
    requires
        covers_ball(pre, root, n),
        expanded_except(pre, frontier),
        forall|v: Seq<u8>| #[trigger] pre.registered(v) ==> post.registered(v),
        forall|k: (u64, u64, u64)| #[trigger]
            pre@.contains_key(k) ==> post@.contains_key(k) && post.witness()[k]
                == pre.witness()[k],
        forall|i: int, j: int|
            0 <= i < frontier.len() && 0 <= j < 12 ==> post.registered(
                #[trigger] spec_rotate(frontier[i]@, canonical_rotations()[j]),
            ),
        forall|k: (u64, u64, u64)| #[trigger]
            post@.contains_key(k) && !pre@.contains_key(k) ==> state_in_list(
                next,
                post.witness()[k],
            ),
    ensures
        covers_ball(post, root, (n + 1) as nat),
        expanded_except(post, next),
{
    assert forall|v: Seq<u8>| #[trigger] in_ball(root, v, (n + 1) as nat) implies post.registered(
        v,
    ) by {
        let rots = choose|rots: Seq<Rotation>|
            rots.len() <= n + 1 && spec_replay(root, rots) == v;
        if rots.len() <= n {
            assert(in_ball(root, v, n));
        } else {
            let prefix = rots.subrange(0, rots.len() - 1);
            let last = rots[rots.len() - 1];
            assert(rots =~= prefix.push(last));
            lemma_replay_push(root, prefix, last);
            let w = spec_replay(root, prefix);
            assert(spec_rotate(w, last) == v);
            assert(in_ball(root, w, n));
            lemma_canonical_complete(last);
            let j = choose|j: int| 0 <= j < 12 && canonical_rotations()[j] == last;
            if state_in_list(frontier, w) {
                let i = choose|i: int| 0 <= i < frontier.len() && frontier[i]@ == w;
                assert(post.registered(spec_rotate(frontier[i]@, canonical_rotations()[j])));
            } else {
                assert(pre.registered(spec_rotate(w, canonical_rotations()[j])));
            }
        }
    }
    assert forall|v: Seq<u8>, j: int|
        post.registered(v) && 0 <= j < 12 && !state_in_list(next, v) implies post.registered(
        #[trigger] spec_rotate(v, canonical_rotations()[j]),
    ) by {
        if pre.registered(v) {
            if state_in_list(frontier, v) {
                let i = choose|i: int| 0 <= i < frontier.len() && frontier[i]@ == v;
                assert(post.registered(spec_rotate(frontier[i]@, canonical_rotations()[j])));
            } else {
                assert(pre.registered(spec_rotate(v, canonical_rotations()[j])));
            }
        } else {
            // A state first registered by this expansion stands in the next
            // frontier, against the assumption.
            let k = state_key(v);
            assert(post@.contains_key(k));
            if pre@.contains_key(k) {
                assert(pre.witness()[k] == post.witness()[k]);
                assert(pre.registered(v));
            }
            assert(state_in_list(next, post.witness()[k]));
        }
    }
}

/// The undoing sequence of a rotation list: opposite order, each rotation
/// reversed. Replaying it undoes replaying the list it came from.
pub fn rotations_reversed(rotations: &Vec<Rotation>) -> (r: Vec<Rotation>)
    ensures
        r@ == spec_rotations_reversed(rotations@),
{
    let mut reversed_rotations: Vec<Rotation> = Vec::new();
    let n = rotations.len();
    let mut i: usize = 0;
    while i < n
        invariant
            i <= n,
            n == rotations@.len(),
            reversed_rotations@.len() == i,
            forall|j: int|
                0 <= j < i ==> reversed_rotations@[j] == rotations@[n - 1 - j].spec_reverse(),
        decreases n - i,
    {
        reversed_rotations.push(rotations[n - 1 - i].reverse());
        i = i + 1;
    }
    proof {
        assert(reversed_rotations@ =~= spec_rotations_reversed(rotations@));
    }
    reversed_rotations
}

/// Searches for a rotation sequence leading from `start_cube` to
/// `end_cube` by bidirectional breadth-first search, expanding each side at
/// most ten layers. Any returned list is exact: replaying it from the start
/// state reproduces the goal state on all 48 facelets, and it never exceeds
/// twenty rotations. Equal start and goal yield the empty list; a goal one
/// turn away yields a list of exactly one rotation. A solution comes back
/// precisely when one exists within the budget's reach: `Some` if and only
/// if some sequence of at most twenty rotations connects the two states.
#[verifier::rlimit(100)]
pub fn solve_cube_two_way_breath_first(start_cube: &Cube, end_cube: &Cube) -> (r: Option<
    Vec<Rotation>,
>)
    requires
        valid_colors(start_cube@),
        valid_colors(end_cube@),
    ensures
        r matches Some(sol) ==> spec_replay(start_cube@, sol@) == end_cube@ && sol@.len() <= 20,
        r is Some <==> in_ball(start_cube@, end_cube@, 20),
        start_cube@ == end_cube@ ==> (r matches Some(sol) && sol@.len() == 0),
        start_cube@ != end_cube@ && one_turn_apart(start_cube@, end_cube@) ==> (r matches Some(
            sol,
        ) && sol@.len() == 1),
{
    let start_hash = start_cube.get_hash();
    let end_hash = end_cube.get_hash();
    if start_hash[0] == end_hash[0] && start_hash[1] == end_hash[1] && start_hash[2]
        == end_hash[2] {
        proof {
            assert(fingerprint_words(start_cube@) =~= fingerprint_words(end_cube@));
            lemma_fingerprint_injective(start_cube@, end_cube@);
            let empty_rots = Seq::<Rotation>::empty();
            assert(empty_rots.len() <= 20 && spec_replay(start_cube@, empty_rots) == end_cube@);
            assert(in_ball(start_cube@, end_cube@, 20));
        }
        let empty_solution: Vec<Rotation> = Vec::new();
        return Some(empty_solution);
    }
    proof {
        assert(start_cube@ != end_cube@);
        assert(state_key(start_cube@) != state_key(end_cube@));
    }

    let mut a_hashes = VisitedSet::new(end_cube);
    let mut a_old_cubes: Vec<Cube> = Vec::new();
    a_old_cubes.push(*end_cube);
    let mut a_new_cubes: Vec<Cube> = Vec::new();

    let mut b_hashes = VisitedSet::new(start_cube);
    let mut b_old_cubes: Vec<Cube> = Vec::new();
    b_old_cubes.push(*start_cube);
    let mut b_new_cubes: Vec<Cube> = Vec::new();

    proof {
        // At the outset each side covers radius zero, has expanded nothing,
        // and holds its root as the whole frontier, at rank zero.
        assert forall|v: Seq<u8>| #[trigger]
            in_ball(end_cube@, v, 0nat) implies a_hashes.registered(v) by {
            let rots = choose|rots: Seq<Rotation>|
                rots.len() <= 0 && spec_replay(end_cube@, rots) == v;
            assert(rots.len() == 0);
        }
        assert forall|v: Seq<u8>| #[trigger]
            in_ball(start_cube@, v, 0nat) implies b_hashes.registered(v) by {
            let rots = choose|rots: Seq<Rotation>|
                rots.len() <= 0 && spec_replay(start_cube@, rots) == v;
            assert(rots.len() == 0);
        }
        assert forall|v: Seq<u8>, j: int|
            a_hashes.registered(v) && 0 <= j < 12 && !state_in_list(
                a_old_cubes@,
                v,
            ) implies a_hashes.registered(
            #[trigger] spec_rotate(v, canonical_rotations()[j]),
        ) by {
            assert(a_hashes@.contains_key(state_key(v)));
            assert(state_key(v) == state_key(end_cube@));
            assert(v == end_cube@);
            assert(a_old_cubes@[0]@ == v);
        }
        assert forall|v: Seq<u8>, j: int|
            b_hashes.registered(v) && 0 <= j < 12 && !state_in_list(
                b_old_cubes@,
                v,
            ) implies b_hashes.registered(
            #[trigger] spec_rotate(v, canonical_rotations()[j]),
        ) by {
            assert(b_hashes@.contains_key(state_key(v)));
            assert(state_key(v) == state_key(start_cube@));
            assert(v == start_cube@);
            assert(b_old_cubes@[0]@ == v);
        }
        assert forall|k: (u64, u64, u64)| #[trigger]
            a_hashes@.contains_key(k) implies !b_hashes@.contains_key(k) by {
            assert(k == state_key(end_cube@));
        }
    }

    let mut round: usize = 0;
    while round < 10
        invariant
            a_hashes.wf(),
            b_hashes.wf(),
            a_hashes.root_state() == end_cube@,
            b_hashes.root_state() == start_cube@,
            valid_colors(start_cube@),
            valid_colors(end_cube@),
            start_cube@ != end_cube@,
            round <= 10,
            a_new_cubes@.len() == 0,
            b_new_cubes@.len() == 0,
            forall|i: int|
                0 <= i < a_old_cubes@.len() ==> a_hashes.registered(#[trigger] a_old_cubes@[i]@),
            forall|i: int|
                0 <= i < b_old_cubes@.len() ==> b_hashes.registered(#[trigger] b_old_cubes@[i]@),
            forall|i: int|
                0 <= i < a_old_cubes@.len() ==> a_hashes.rank()[state_key(
                    #[trigger] a_old_cubes@[i]@,
                )] == round,
            forall|i: int|
                0 <= i < b_old_cubes@.len() ==> b_hashes.rank()[state_key(
                    #[trigger] b_old_cubes@[i]@,
                )] == round,
            forall|k: (u64, u64, u64)| #[trigger]
                a_hashes@.contains_key(k) ==> a_hashes.rank()[k] <= round,
            forall|k: (u64, u64, u64)| #[trigger]
                b_hashes@.contains_key(k) ==> b_hashes.rank()[k] <= round,
            covers_ball(a_hashes, end_cube@, round as nat),
            covers_ball(b_hashes, start_cube@, round as nat),
            expanded_except(a_hashes, a_old_cubes@),
            expanded_except(b_hashes, b_old_cubes@),
            keys_disjoint(a_hashes, b_hashes),
            one_turn_apart(start_cube@, end_cube@) ==> round == 0,
        decreases 10 - round,
    {
        // One layer of the side rooted at the goal.
        let ghost a_pre = a_hashes;
        let ghost a_frontier = a_old_cubes@;
        let found_solution = extend_breath_first_search(
            &a_old_cubes,
            &mut a_new_cubes,
            &mut a_hashes,
            &b_hashes,
        );
        match found_solution {
            Some(solution) => {
                proof {
                    // The meeting state was freshly recorded one layer below
                    // the goal-side frontier and was already known, at most
                    // `round` layers deep, to the start side.
                    let k = choose|k: (u64, u64, u64)|
                        a_hashes@.contains_key(k) && b_hashes@.contains_key(k)
                            && !a_pre@.contains_key(k) && solution@.len() == a_hashes.rank()[k]
                            + b_hashes.rank()[k] && solution@.len() >= 1;
                    let (i, j) = choose|i: int, j: int|
                        0 <= i < a_frontier.len() && 0 <= j < 12 && a_hashes.witness()[k]
                            == spec_rotate(a_frontier[i]@, canonical_rotations()[j])
                            && a_hashes.rank()[k] == a_hashes.rank()[state_key(a_frontier[i]@)]
                            + 1;
                    assert(a_pre@.contains_key(state_key(a_frontier[i]@)));
                    assert(a_hashes.rank()[state_key(a_frontier[i]@)] == round);
                    assert(a_hashes.rank()[k] == round + 1);
                    assert(b_hashes.rank()[k] <= round);
                    assert(solution@.len() <= 2 * round + 1);
                    assert(spec_replay(start_cube@, solution@) == end_cube@);
                    assert(in_ball(start_cube@, end_cube@, 20));
                    if one_turn_apart(start_cube@, end_cube@) {
                        assert(round == 0);
                        assert(b_hashes.rank()[k] == 0);
                        assert(solution@.len() == 1);
                    }
                }
                return Some(solution);
            },
            None => {},
        }
        proof {
            lemma_layer_advances(
                a_pre,
                a_hashes,
                a_frontier,
                a_new_cubes@,
                end_cube@,
                round as nat,
            );
            assert forall|k: (u64, u64, u64)| #[trigger]
                a_hashes@.contains_key(k) implies !b_hashes@.contains_key(k) by {
                if a_pre@.contains_key(k) {
                }
            }
            // Every entry of the grown set sits at most one layer below the
            // old frontier, and the fresh frontier sits exactly there.
            assert forall|k: (u64, u64, u64)| #[trigger]
                a_hashes@.contains_key(k) implies a_hashes.rank()[k] <= round + 1 by {
                if a_pre@.contains_key(k) {
                } else {
                    let (i, j) = choose|i: int, j: int|
                        0 <= i < a_frontier.len() && 0 <= j < 12 && a_hashes.witness()[k]
                            == spec_rotate(a_frontier[i]@, canonical_rotations()[j])
                            && a_hashes.rank()[k] == a_hashes.rank()[state_key(a_frontier[i]@)]
                            + 1;
                    assert(a_pre@.contains_key(state_key(a_frontier[i]@)));
                    assert(a_hashes.rank()[state_key(a_frontier[i]@)] == round);
                }
            }
            assert forall|i: int| 0 <= i < a_new_cubes@.len() implies a_hashes.rank()[state_key(
                #[trigger] a_new_cubes@[i]@,
            )] == round + 1 by {
                let v = a_new_cubes@[i]@;
                assert(a_hashes.registered(v));
                assert(!a_pre@.contains_key(state_key(v)));
                let (i2, j2) = choose|i2: int, j2: int|
                    0 <= i2 < a_frontier.len() && 0 <= j2 < 12 && a_hashes.witness()[state_key(v)]
                        == spec_rotate(a_frontier[i2]@, canonical_rotations()[j2])
                        && a_hashes.rank()[state_key(v)] == a_hashes.rank()[state_key(
                        a_frontier[i2]@,
                    )] + 1;
                assert(a_pre@.contains_key(state_key(a_frontier[i2]@)));
                assert(a_hashes.rank()[state_key(a_frontier[i2]@)] == round);
            }
            if round == 0 && one_turn_apart(start_cube@, end_cube@) {
                // A goal one turn away meets the start side's root in the
                // very first layer, so this expansion cannot have finished
                // without a meeting.
                let rot = choose|rot: Rotation| spec_rotate(start_cube@, rot) == end_cube@;
                lemma_rotate_then_reverse(start_cube@, rot);
                lemma_canonical_complete(rot.spec_reverse());
                let j = choose|j: int|
                    0 <= j < 12 && canonical_rotations()[j] == rot.spec_reverse();
                assert(a_hashes.registered(
                    #[trigger] spec_rotate(a_frontier[0]@, canonical_rotations()[j]),
                ));
                assert(spec_rotate(a_frontier[0]@, canonical_rotations()[j]) == start_cube@);
                let sk = state_key(start_cube@);
                assert(a_hashes@.contains_key(sk));
                assert(b_hashes.registered(start_cube@));
                assert(b_hashes@.contains_key(sk));
                if a_pre@.contains_key(sk) {
                    // A pre-existing entry at round zero has rank zero, so
                    // it is the root entry: the goal state itself.
                    assert(a_pre.rank()[sk] == 0);
                    assert(a_pre@.dom().contains(sk));
                    assert(a_pre@[sk] is None);
                    assert(sk == state_key(end_cube@));
                    lemma_fingerprint_injective(start_cube@, end_cube@);
                }
                assert(false);
            }
        }
        a_old_cubes = a_new_cubes;
        a_new_cubes = Vec::new();

        // One layer of the side rooted at the start.
        let ghost b_pre = b_hashes;
        let ghost b_frontier = b_old_cubes@;
        let found_solution = extend_breath_first_search(
            &b_old_cubes,
            &mut b_new_cubes,
            &mut b_hashes,
            &a_hashes,
        );
        match found_solution {
            Some(solution) => {
                // This list leads from the goal to the start; undoing it
                // leads from the start to the goal.
                proof {
                    lemma_replay_undo(end_cube@, solution@);
                    let k = choose|k: (u64, u64, u64)|
                        b_hashes@.contains_key(k) && a_hashes@.contains_key(k)
                            && !b_pre@.contains_key(k) && solution@.len() == b_hashes.rank()[k]
                            + a_hashes.rank()[k] && solution@.len() >= 1;
                    let (i, j) = choose|i: int, j: int|
                        0 <= i < b_frontier.len() && 0 <= j < 12 && b_hashes.witness()[k]
                            == spec_rotate(b_frontier[i]@, canonical_rotations()[j])
                            && b_hashes.rank()[k] == b_hashes.rank()[state_key(b_frontier[i]@)]
                            + 1;
                    assert(b_pre@.contains_key(state_key(b_frontier[i]@)));
                    assert(b_hashes.rank()[state_key(b_frontier[i]@)] == round);
                    assert(b_hashes.rank()[k] == round + 1);
                    assert(a_hashes.rank()[k] <= round + 1);
                    assert(solution@.len() <= 2 * round + 2);
                    assert(spec_rotations_reversed(solution@).len() == solution@.len());
                    assert(spec_replay(start_cube@, spec_rotations_reversed(solution@))
                        == end_cube@);
                    assert(in_ball(start_cube@, end_cube@, 20));
                }
                return Some(rotations_reversed(&solution));
            },
            None => {},
        }
        proof {
            lemma_layer_advances(
                b_pre,
                b_hashes,
                b_frontier,
                b_new_cubes@,
                start_cube@,
                round as nat,
            );
            assert forall|k: (u64, u64, u64)| #[trigger]
                a_hashes@.contains_key(k) implies !b_hashes@.contains_key(k) by {
                if b_hashes@.contains_key(k) {
                    if b_pre@.contains_key(k) {
                    }
                    assert(false);
                }
            }
            assert forall|k: (u64, u64, u64)| #[trigger]
                b_hashes@.contains_key(k) implies b_hashes.rank()[k] <= round + 1 by {
                if b_pre@.contains_key(k) {
                } else {
                    let (i, j) = choose|i: int, j: int|
                        0 <= i < b_frontier.len() && 0 <= j < 12 && b_hashes.witness()[k]
                            == spec_rotate(b_frontier[i]@, canonical_rotations()[j])
                            && b_hashes.rank()[k] == b_hashes.rank()[state_key(b_frontier[i]@)]
                            + 1;
                    assert(b_pre@.contains_key(state_key(b_frontier[i]@)));
                    assert(b_hashes.rank()[state_key(b_frontier[i]@)] == round);
                }
            }
            assert forall|i: int| 0 <= i < b_new_cubes@.len() implies b_hashes.rank()[state_key(
                #[trigger] b_new_cubes@[i]@,
            )] == round + 1 by {
                let v = b_new_cubes@[i]@;
                assert(b_hashes.registered(v));
                assert(!b_pre@.contains_key(state_key(v)));
                let (i2, j2) = choose|i2: int, j2: int|
                    0 <= i2 < b_frontier.len() && 0 <= j2 < 12 && b_hashes.witness()[state_key(v)]
                        == spec_rotate(b_frontier[i2]@, canonical_rotations()[j2])
                        && b_hashes.rank()[state_key(v)] == b_hashes.rank()[state_key(
                        b_frontier[i2]@,
                    )] + 1;
                assert(b_pre@.contains_key(state_key(b_frontier[i2]@)));
                assert(b_hashes.rank()[state_key(b_frontier[i2]@)] == round);
            }
        }
        b_old_cubes = b_new_cubes;
        b_new_cubes = Vec::new();

        round = round + 1;
    }

    proof {
        // The budget is spent and the two visited-sets never met. Were the
        // two states within twenty turns of one another, a midpoint state
        // would lie within ten turns of both roots, hence in both sets.
        if in_ball(start_cube@, end_cube@, 20) {
            let rots = choose|rots: Seq<Rotation>|
                rots.len() <= 20 && spec_replay(start_cube@, rots) == end_cube@;
            let cut: int = if rots.len() <= 10 {
                rots.len() as int
            } else {
                10
            };
            let prefix = rots.subrange(0, cut);
            let suffix = rots.subrange(cut, rots.len() as int);
            assert(rots =~= prefix + suffix);
            lemma_replay_concat(start_cube@, prefix, suffix);
            let m = spec_replay(start_cube@, prefix);
            assert(spec_replay(m, suffix) == end_cube@);
            lemma_replay_preserves_valid_colors(start_cube@, prefix);
            lemma_replay_undo(m, suffix);
            assert(spec_replay(end_cube@, spec_rotations_reversed(suffix)) == m);
            assert(prefix.len() <= 10 && spec_replay(start_cube@, prefix) == m);
            assert(in_ball(start_cube@, m, 10));
            assert(spec_rotations_reversed(suffix).len() <= 10);
            assert(in_ball(end_cube@, m, 10));
            assert(b_hashes.registered(m));
            assert(a_hashes.registered(m));
            assert(a_hashes@.contains_key(state_key(m)));
            assert(false);
        }
    }
    None
}

} // verus!
