//! One search frontier's visited-set: a map from state fingerprint to the
//! rotation that first reached that fingerprint (`None` marks the root).
//! No cube states are stored; the predecessor rotations alone suffice to
//! rebuild the path by replaying reverse rotations from a meeting state.
//!
//! Alongside the executable map the set carries ghost bookkeeping: for every
//! recorded fingerprint, the cube state that produced it and a rank that
//! drops along predecessor chains. These make the reconstruction walk
//! provably total: every chain ends at the root.

use vstd::prelude::*;

use crate::cube::{spec_rotate, valid_colors, Cube, Rotation};
use crate::fingerprint::{fingerprint_words, spec_fingerprint};
use std::collections::HashMap;
use vstd::arithmetic::div_mod::lemma_fundamental_div_mod_converse;

verus! {

/// The three fingerprint words as a key triple.
pub open spec fn word_key(h: Seq<u64>) -> (u64, u64, u64) {
    (h[0], h[1], h[2])
}

/// The key triple under which a cube state is recorded.
pub open spec fn state_key(v: Seq<u8>) -> (u64, u64, u64) {
    spec_fingerprint(v)
}

/// The first two fingerprint words packed into the key of the outer table.
spec fn pack_key(h0: u64, h1: u64) -> u128 {
    (h0 * 0x1_0000_0000_0000_0000 + h1) as u128
}

/// Packing is injective: the two words can be read back off the packed key.
proof fn lemma_pack_key_injective(a0: u64, a1: u64, b0: u64, b1: u64)
    requires
        pack_key(a0, a1) == pack_key(b0, b1),
    ensures
        a0 == b0,
        a1 == b1,
{
    lemma_fundamental_div_mod_converse(
        pack_key(a0, a1) as int,
        0x1_0000_0000_0000_0000,
        a0 as int,
        a1 as int,
    );
    lemma_fundamental_div_mod_converse(
        pack_key(b0, b1) as int,
        0x1_0000_0000_0000_0000,
        b0 as int,
        b1 as int,
    );
}

fn pack_words(h0: u64, h1: u64) -> (p: u128)
    ensures
        p == pack_key(h0, h1),
{
    assert(((h0 as u128) << 64u128) | (h1 as u128) == (h0 as u128) * 0x1_0000_0000_0000_0000
        + h1 as u128) by (bit_vector);
    ((h0 as u128) << 64u128) | (h1 as u128)
}

/// A visited-set rooted at one of the two search origins. The view is the
/// map from fingerprint triple to the optional predecessor rotation.
pub struct VisitedSet {
    table: HashMap<u128, HashMap<u64, Option<Rotation>>>,
    witnesses: Ghost<Map<(u64, u64, u64), Seq<u8>>>,
    ranks: Ghost<Map<(u64, u64, u64), nat>>,
    origin: Ghost<Seq<u8>>,
}

impl View for VisitedSet {
    type V = Map<(u64, u64, u64), Option<Rotation>>;

    closed spec fn view(&self) -> Map<(u64, u64, u64), Option<Rotation>> {
        Map::new(
            |k: (u64, u64, u64)|
                self.table@.contains_key(pack_key(k.0, k.1)) && self.table@[pack_key(
                    k.0,
                    k.1,
                )]@.contains_key(k.2),
            |k: (u64, u64, u64)| self.table@[pack_key(k.0, k.1)]@[k.2],
        )
    }
}

impl VisitedSet {
    /// The state that produced each recorded fingerprint. Ghost bookkeeping:
    /// the states themselves are not stored at run time.
    pub closed spec fn witness(self) -> Map<(u64, u64, u64), Seq<u8>> {
        self.witnesses@
    }

    /// Distance bound of each recorded fingerprint from the root; strictly
    /// decreasing along predecessor chains.
    pub closed spec fn rank(self) -> Map<(u64, u64, u64), nat> {
        self.ranks@
    }

    /// The root state this side of the search grew from.
    pub closed spec fn root_state(self) -> Seq<u8> {
        self.origin@
    }

    /// A state is registered when its fingerprint is recorded and the
    /// recording was made by this very state.
    pub open spec fn registered(self, v: Seq<u8>) -> bool {
        &&& self@.contains_key(state_key(v))
        &&& self.witness()[state_key(v)] == v
    }

    /// The visited-set invariant: every recorded fingerprint was produced by
    /// a valid witness state; every non-root entry names a rotation whose
    /// undoing leads to another recorded state exactly one rank lower; and
    /// the root, at rank zero, is the one entry without a predecessor. The
    /// rank of an entry is thus the exact length of its predecessor chain.
    pub open spec fn wf(self) -> bool {
        &&& valid_colors(self.root_state())
        &&& self.witness().dom() == self@.dom()
        &&& self.rank().dom() == self@.dom()
        &&& self.registered(self.root_state())
        &&& self@[state_key(self.root_state())] is None
        &&& self.rank()[state_key(self.root_state())] == 0
        &&& forall|k: (u64, u64, u64)| #[trigger]
            self@.dom().contains(k) ==> valid_colors(self.witness()[k]) && state_key(
                self.witness()[k],
            ) == k
        &&& forall|k: (u64, u64, u64)| #[trigger]
            self@.dom().contains(k) ==> match self@[k] {
                Some(r) => {
                    let p = spec_rotate(self.witness()[k], r.spec_reverse());
                    &&& self@.dom().contains(state_key(p))
                    &&& self.witness()[state_key(p)] == p
                    &&& self.rank()[state_key(p)] + 1 == self.rank()[k]
                },
                None => k == state_key(self.root_state()),
            }
    }

    /// The predecessor chain recorded for the state `v`, middle-to-root: the
    /// rotation recorded under `v`'s fingerprint, then the one recorded for
    /// the state that undoing it reaches, and so on. Under `wf`, fuel equal
    /// to the entry's rank unrolls the chain all the way to the root.
    pub open spec fn chain_from(self, v: Seq<u8>, fuel: nat) -> Seq<Rotation>
        decreases fuel,
    {
        if self@.contains_key(state_key(v)) {
            match self@[state_key(v)] {
                Some(r) => if fuel > 0 {
                    seq![r] + self.chain_from(
                        spec_rotate(self.witness()[state_key(v)], r.spec_reverse()),
                        (fuel - 1) as nat,
                    )
                } else {
                    Seq::empty()
                },
                None => Seq::empty(),
            }
        } else {
            Seq::empty()
        }
    }

    /// A fresh visited-set: the root state recorded as its own origin, with
    /// no predecessor.
    pub fn new(root: &Cube) -> (s: VisitedSet)
        requires
            valid_colors(root@),
        ensures
            s.wf(),
            s.root_state() == root@,
            s@ == Map::<(u64, u64, u64), Option<Rotation>>::empty().insert(
                state_key(root@),
                None::<Rotation>,
            ),
            s.witness() == Map::<(u64, u64, u64), Seq<u8>>::empty().insert(
                state_key(root@),
                root@,
            ),
            s.rank() == Map::<(u64, u64, u64), nat>::empty().insert(state_key(root@), 0nat),
            s.registered(root@),
    {
        let h = root.get_hash();
        let p = pack_words(h[0], h[1]);
        let mut inner: HashMap<u64, Option<Rotation>> = HashMap::new();
        inner.insert(h[2], None);
        let mut table: HashMap<u128, HashMap<u64, Option<Rotation>>> = HashMap::new();
        table.insert(p, inner);
        let s = VisitedSet {
            table,
            witnesses: Ghost(Map::empty().insert(state_key(root@), root@)),
            ranks: Ghost(Map::empty().insert(state_key(root@), 0nat)),
            origin: Ghost(root@),
        };
        proof {
            let rk = state_key(root@);
            assert forall|k: (u64, u64, u64)| #[trigger] s@.dom().contains(k) implies k == rk by {
                lemma_pack_key_injective(k.0, k.1, rk.0, rk.1);
            }
            assert(s@ =~= Map::<(u64, u64, u64), Option<Rotation>>::empty().insert(
                rk,
                None::<Rotation>,
            ));
        }
        s
    }

    /// Whether the fingerprint `h` is already recorded.
    pub fn contains(&self, h: &[u64; 3]) -> (b: bool)
        ensures
            b == self@.contains_key(word_key(h@)),
    {
        let p = pack_words(h[0], h[1]);
        match self.table.get(&p) {
            None => false,
            Some(inner) => inner.contains_key(&h[2]),
        }
    }

    /// The recorded predecessor rotation of fingerprint `h`: `None` marks
    /// the root of this side.
    pub fn get_pred(&self, h: &[u64; 3]) -> (r: Option<Rotation>)
        requires
            self@.contains_key(word_key(h@)),
        ensures
            r == self@[word_key(h@)],
    {
        let p = pack_words(h[0], h[1]);
        match self.table.get(&p) {
            None => vstd::pervasive::unreached(),
            Some(inner) => match inner.get(&h[2]) {
                None => vstd::pervasive::unreached(),
                Some(rot) => *rot,
            },
        }
    }

    /// Records the state `child`, reached by applying `rotation` to the
    /// already-registered state `parent`, under `child`'s fingerprint `h`.
    pub fn record_reached(
        &mut self,
        h: &[u64; 3],
        rotation: &Rotation,
        child: &Cube,
        parent: Ghost<Seq<u8>>,
    )
        requires
            old(self).wf(),
            old(self).registered(parent@),
            child@ == spec_rotate(parent@, *rotation),
            valid_colors(child@),
            h@ == fingerprint_words(child@),
            !old(self)@.contains_key(state_key(child@)),
        ensures
            final(self).wf(),
            final(self).root_state() == old(self).root_state(),
            final(self)@ == old(self)@.insert(state_key(child@), Some(*rotation)),
            final(self).witness() == old(self).witness().insert(state_key(child@), child@),
            final(self).rank() == old(self).rank().insert(
                state_key(child@),
                old(self).rank()[state_key(parent@)] + 1,
            ),
            final(self).registered(child@),
    {
        let ghost ck = state_key(child@);
        let ghost old_view = self@;
        let p = pack_words(h[0], h[1]);
        let mut inner: HashMap<u64, Option<Rotation>> = match self.table.remove(&p) {
            Some(m) => m,
            None => HashMap::new(),
        };
        inner.insert(h[2], Some(*rotation));
        self.table.insert(p, inner);
        proof {
            self.witnesses@ = self.witnesses@.insert(ck, child@);
            self.ranks@ = self.ranks@.insert(ck, self.ranks@[state_key(parent@)] + 1);
            assert forall|k: (u64, u64, u64)|
                pack_key(k.0, k.1) == pack_key(ck.0, ck.1) implies k.0 == ck.0 && k.1 == ck.1 by {
                lemma_pack_key_injective(k.0, k.1, ck.0, ck.1);
            }
            assert(self@ =~= old_view.insert(ck, Some(*rotation)));
            // Undoing the recorded rotation leads from the child back to the
            // registered parent.
            crate::cube::lemma_rotate_then_reverse(parent@, *rotation);
            assert(spec_rotate(child@, rotation.spec_reverse()) == parent@);
            assert forall|k: (u64, u64, u64)| #[trigger]
                self@.dom().contains(k) implies valid_colors(self.witness()[k]) && state_key(
                self.witness()[k],
            ) == k by {
                if k != ck {
                    assert(old_view.dom().contains(k));
                }
            }
            assert forall|k: (u64, u64, u64)| #[trigger] self@.dom().contains(k) implies match self@[k] {
                Some(r) => {
                    let q = spec_rotate(self.witness()[k], r.spec_reverse());
                    &&& self@.dom().contains(state_key(q))
                    &&& self.witness()[state_key(q)] == q
                    &&& self.rank()[state_key(q)] < self.rank()[k]
                },
                None => k == state_key(self.root_state()),
            } by {
                if k != ck {
                    assert(old_view.dom().contains(k));
                    match old_view[k] {
                        Some(r) => {
                            let q = spec_rotate(old(self).witness()[k], r.spec_reverse());
                            assert(old_view.dom().contains(state_key(q)));
                        },
                        None => {},
                    }
                }
            }
        }
    }
}

} // verus!
