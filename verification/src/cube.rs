use vstd::prelude::*;

verus! {

/// One face of the cube: its eight movable facelets, kept in a fixed ring
/// order around the face's center. The center facelet of a face never moves
/// under any rotation, so it is not stored.
#[derive(Clone, Copy)]
pub struct Side {
    pub colors: [u8; 8],
}

impl View for Side {
    type V = Seq<u8>;

    open spec fn view(&self) -> Seq<u8> {
        self.colors@
    }
}

impl Side {
    /// A side uniformly filled with a single color.
    pub fn new_full(color: u8) -> (s: Side)
        ensures
            s@ == Seq::new(8, |i: int| color),
    {
        let s = Side { colors: [color; 8] };
        proof {
            assert(s@ =~= Seq::new(8, |i: int| color));
        }
        s
    }
}

/// The cube state: six sides of eight movable facelets each. The view of a
/// cube is the flat sequence of its 48 facelet colors, side-major (side `s`
/// occupies indices `8 * s .. 8 * s + 8`).
#[derive(Clone, Copy)]
pub struct Cube {
    pub sides: [Side; 6],
}

impl View for Cube {
    type V = Seq<u8>;

    open spec fn view(&self) -> Seq<u8> {
        self.sides[0]@ + self.sides[1]@ + self.sides[2]@ + self.sides[3]@ + self.sides[4]@
            + self.sides[5]@
    }
}

/// The twelve face rotations: one clockwise and one counter-clockwise turn
/// for each of the six faces.
#[derive(Debug, Clone, Copy, PartialEq, Eq, Structural)]
pub enum Rotation {
    U,
    D,
    R,
    L,
    F,
    B,
    Ur,
    Dr,
    Rr,
    Lr,
    Fr,
    Br,
}

impl Rotation {
    /// The rotation that undoes this one: the opposite turn of the same face.
    pub open spec fn spec_reverse(&self) -> Rotation {
        match self {
            Rotation::U => Rotation::Ur,
            Rotation::D => Rotation::Dr,
            Rotation::R => Rotation::Rr,
            Rotation::L => Rotation::Lr,
            Rotation::F => Rotation::Fr,
            Rotation::B => Rotation::Br,
            Rotation::Ur => Rotation::U,
            Rotation::Dr => Rotation::D,
            Rotation::Rr => Rotation::R,
            Rotation::Lr => Rotation::L,
            Rotation::Fr => Rotation::F,
            Rotation::Br => Rotation::B,
        }
    }

    /// The rotation that undoes this one: the opposite turn of the same face.
    #[verifier::when_used_as_spec(spec_reverse)]
    pub fn reverse(&self) -> (r: Rotation)
        ensures
            r == self.spec_reverse(),
    {
        match self {
            Rotation::U => Rotation::Ur,
            Rotation::D => Rotation::Dr,
            Rotation::R => Rotation::Rr,
            Rotation::L => Rotation::Lr,
            Rotation::F => Rotation::Fr,
            Rotation::B => Rotation::Br,
            Rotation::Ur => Rotation::U,
            Rotation::Dr => Rotation::D,
            Rotation::Rr => Rotation::R,
            Rotation::Lr => Rotation::L,
            Rotation::Fr => Rotation::F,
            Rotation::Br => Rotation::B,
        }
    }
}

/// A cube state is valid when every facelet carries one of the six face
/// colors. The solved cube is valid, and rotations only move facelets
/// around, so every state reachable from the solved cube is valid too.
pub open spec fn valid_colors(v: Seq<u8>) -> bool {
    &&& v.len() == 48
    &&& forall|i: int| 0 <= i < 48 ==> v[i] < 6
}

/// The solved configuration: each side uniformly filled with its own index.
pub open spec fn solved_state() -> Seq<u8> {
    Seq::new(48, |i: int| (i / 8) as u8)
}

/// The debugging configuration: every facelet carries its own flat index,
/// so all 48 facelets are distinct.
pub open spec fn debug_state() -> Seq<u8> {
    Seq::new(48, |i: int| i as u8)
}

#[verifier::opaque]
pub open spec fn rot_src_u(i: int) -> int {
    if i == 13 {
        37
    } else if i == 14 {
        38
    } else if i == 15 {
        39
    } else if i == 21 {
        13
    } else if i == 22 {
        14
    } else if i == 23 {
        15
    } else if i == 29 {
        21
    } else if i == 30 {
        22
    } else if i == 31 {
        23
    } else if i == 37 {
        29
    } else if i == 38 {
        30
    } else if i == 39 {
        31
    } else if i == 40 {
        45
    } else if i == 41 {
        43
    } else if i == 42 {
        40
    } else if i == 43 {
        46
    } else if i == 44 {
        41
    } else if i == 45 {
        47
    } else if i == 46 {
        44
    } else if i == 47 {
        42
    } else {
        i
    }
}

#[verifier::opaque]
pub open spec fn rot_src_d(i: int) -> int {
    if i == 0 {
        2
    } else if i == 1 {
        4
    } else if i == 2 {
        7
    } else if i == 3 {
        1
    } else if i == 4 {
        6
    } else if i == 5 {
        0
    } else if i == 6 {
        3
    } else if i == 7 {
        5
    } else if i == 8 {
        32
    } else if i == 9 {
        33
    } else if i == 10 {
        34
    } else if i == 16 {
        8
    } else if i == 17 {
        9
    } else if i == 18 {
        10
    } else if i == 24 {
        16
    } else if i == 25 {
        17
    } else if i == 26 {
        18
    } else if i == 32 {
        24
    } else if i == 33 {
        25
    } else if i == 34 {
        26
    } else {
        i
    }
}

#[verifier::opaque]
pub open spec fn rot_src_r(i: int) -> int {
    if i == 2 {
        18
    } else if i == 4 {
        20
    } else if i == 7 {
        23
    } else if i == 18 {
        42
    } else if i == 20 {
        44
    } else if i == 23 {
        47
    } else if i == 24 {
        29
    } else if i == 25 {
        27
    } else if i == 26 {
        24
    } else if i == 27 {
        30
    } else if i == 28 {
        25
    } else if i == 29 {
        31
    } else if i == 30 {
        28
    } else if i == 31 {
        26
    } else if i == 32 {
        7
    } else if i == 35 {
        4
    } else if i == 37 {
        2
    } else if i == 42 {
        37
    } else if i == 44 {
        35
    } else if i == 47 {
        32
    } else {
        i
    }
}

#[verifier::opaque]
pub open spec fn rot_src_l(i: int) -> int {
    if i == 0 {
        39
    } else if i == 3 {
        36
    } else if i == 5 {
        34
    } else if i == 8 {
        13
    } else if i == 9 {
        11
    } else if i == 10 {
        8
    } else if i == 11 {
        14
    } else if i == 12 {
        9
    } else if i == 13 {
        15
    } else if i == 14 {
        12
    } else if i == 15 {
        10
    } else if i == 16 {
        0
    } else if i == 19 {
        3
    } else if i == 21 {
        5
    } else if i == 34 {
        45
    } else if i == 36 {
        43
    } else if i == 39 {
        40
    } else if i == 40 {
        16
    } else if i == 43 {
        19
    } else if i == 45 {
        21
    } else {
        i
    }
}

#[verifier::opaque]
pub open spec fn rot_src_f(i: int) -> int {
    if i == 0 {
        26
    } else if i == 1 {
        28
    } else if i == 2 {
        31
    } else if i == 8 {
        2
    } else if i == 11 {
        1
    } else if i == 13 {
        0
    } else if i == 26 {
        47
    } else if i == 28 {
        46
    } else if i == 31 {
        45
    } else if i == 32 {
        37
    } else if i == 33 {
        35
    } else if i == 34 {
        32
    } else if i == 35 {
        38
    } else if i == 36 {
        33
    } else if i == 37 {
        39
    } else if i == 38 {
        36
    } else if i == 39 {
        34
    } else if i == 45 {
        8
    } else if i == 46 {
        11
    } else if i == 47 {
        13
    } else {
        i
    }
}

#[verifier::opaque]
pub open spec fn rot_src_b(i: int) -> int {
    if i == 5 {
        15
    } else if i == 6 {
        12
    } else if i == 7 {
        10
    } else if i == 10 {
        40
    } else if i == 12 {
        41
    } else if i == 15 {
        42
    } else if i == 16 {
        21
    } else if i == 17 {
        19
    } else if i == 18 {
        16
    } else if i == 19 {
        22
    } else if i == 20 {
        17
    } else if i == 21 {
        23
    } else if i == 22 {
        20
    } else if i == 23 {
        18
    } else if i == 24 {
        5
    } else if i == 27 {
        6
    } else if i == 29 {
        7
    } else if i == 40 {
        29
    } else if i == 41 {
        27
    } else if i == 42 {
        24
    } else {
        i
    }
}

#[verifier::opaque]
pub open spec fn rot_src_ur(i: int) -> int {
    if i == 13 {
        21
    } else if i == 14 {
        22
    } else if i == 15 {
        23
    } else if i == 21 {
        29
    } else if i == 22 {
        30
    } else if i == 23 {
        31
    } else if i == 29 {
        37
    } else if i == 30 {
        38
    } else if i == 31 {
        39
    } else if i == 37 {
        13
    } else if i == 38 {
        14
    } else if i == 39 {
        15
    } else if i == 40 {
        42
    } else if i == 41 {
        44
    } else if i == 42 {
        47
    } else if i == 43 {
        41
    } else if i == 44 {
        46
    } else if i == 45 {
        40
    } else if i == 46 {
        43
    } else if i == 47 {
        45
    } else {
        i
    }
}

#[verifier::opaque]
pub open spec fn rot_src_dr(i: int) -> int {
    if i == 0 {
        5
    } else if i == 1 {
        3
    } else if i == 2 {
        0
    } else if i == 3 {
        6
    } else if i == 4 {
        1
    } else if i == 5 {
        7
    } else if i == 6 {
        4
    } else if i == 7 {
        2
    } else if i == 8 {
        16
    } else if i == 9 {
        17
    } else if i == 10 {
        18
    } else if i == 16 {
        24
    } else if i == 17 {
        25
    } else if i == 18 {
        26
    } else if i == 24 {
        32
    } else if i == 25 {
        33
    } else if i == 26 {
        34
    } else if i == 32 {
        8
    } else if i == 33 {
        9
    } else if i == 34 {
        10
    } else {
        i
    }
}

#[verifier::opaque]
pub open spec fn rot_src_rr(i: int) -> int {
    if i == 2 {
        37
    } else if i == 4 {
        35
    } else if i == 7 {
        32
    } else if i == 18 {
        2
    } else if i == 20 {
        4
    } else if i == 23 {
        7
    } else if i == 24 {
        26
    } else if i == 25 {
        28
    } else if i == 26 {
        31
    } else if i == 27 {
        25
    } else if i == 28 {
        30
    } else if i == 29 {
        24
    } else if i == 30 {
        27
    } else if i == 31 {
        29
    } else if i == 32 {
        47
    } else if i == 35 {
        44
    } else if i == 37 {
        42
    } else if i == 42 {
        18
    } else if i == 44 {
        20
    } else if i == 47 {
        23
    } else {
        i
    }
}

#[verifier::opaque]
pub open spec fn rot_src_lr(i: int) -> int {
    if i == 0 {
        16
    } else if i == 3 {
        19
    } else if i == 5 {
        21
    } else if i == 8 {
        10
    } else if i == 9 {
        12
    } else if i == 10 {
        15
    } else if i == 11 {
        9
    } else if i == 12 {
        14
    } else if i == 13 {
        8
    } else if i == 14 {
        11
    } else if i == 15 {
        13
    } else if i == 16 {
        40
    } else if i == 19 {
        43
    } else if i == 21 {
        45
    } else if i == 34 {
        5
    } else if i == 36 {
        3
    } else if i == 39 {
        0
    } else if i == 40 {
        39
    } else if i == 43 {
        36
    } else if i == 45 {
        34
    } else {
        i
    }
}

#[verifier::opaque]
pub open spec fn rot_src_fr(i: int) -> int {
    if i == 0 {
        13
    } else if i == 1 {
        11
    } else if i == 2 {
        8
    } else if i == 8 {
        45
    } else if i == 11 {
        46
    } else if i == 13 {
        47
    } else if i == 26 {
        0
    } else if i == 28 {
        1
    } else if i == 31 {
        2
    } else if i == 32 {
        34
    } else if i == 33 {
        36
    } else if i == 34 {
        39
    } else if i == 35 {
        33
    } else if i == 36 {
        38
    } else if i == 37 {
        32
    } else if i == 38 {
        35
    } else if i == 39 {
        37
    } else if i == 45 {
        31
    } else if i == 46 {
        28
    } else if i == 47 {
        26
    } else {
        i
    }
}

#[verifier::opaque]
pub open spec fn rot_src_br(i: int) -> int {
    if i == 5 {
        24
    } else if i == 6 {
        27
    } else if i == 7 {
        29
    } else if i == 10 {
        7
    } else if i == 12 {
        6
    } else if i == 15 {
        5
    } else if i == 16 {
        18
    } else if i == 17 {
        20
    } else if i == 18 {
        23
    } else if i == 19 {
        17
    } else if i == 20 {
        22
    } else if i == 21 {
        16
    } else if i == 22 {
        19
    } else if i == 23 {
        21
    } else if i == 24 {
        42
    } else if i == 27 {
        41
    } else if i == 29 {
        40
    } else if i == 40 {
        10
    } else if i == 41 {
        12
    } else if i == 42 {
        15
    } else {
        i
    }
}

/// Source index of the facelet that rotation `r` moves onto flat position
/// `i`: after the turn, position `i` holds the color that position
/// `rot_src(r, i)` held before.
pub open spec fn rot_src(r: Rotation, i: int) -> int {
    match r {
        Rotation::U => rot_src_u(i),
        Rotation::D => rot_src_d(i),
        Rotation::R => rot_src_r(i),
        Rotation::L => rot_src_l(i),
        Rotation::F => rot_src_f(i),
        Rotation::B => rot_src_b(i),
        Rotation::Ur => rot_src_ur(i),
        Rotation::Dr => rot_src_dr(i),
        Rotation::Rr => rot_src_rr(i),
        Rotation::Lr => rot_src_lr(i),
        Rotation::Fr => rot_src_fr(i),
        Rotation::Br => rot_src_br(i),
    }
}

/// The state that one turn produces from `v`: a pure permutation of the 48
/// facelets, position `i` taking the color from position `rot_src(r, i)`.
pub open spec fn spec_rotate(v: Seq<u8>, r: Rotation) -> Seq<u8> {
    Seq::new(48, |i: int| v[rot_src(r, i)])
}

/// Every rotation maps the flat index range onto itself.
pub proof fn lemma_rot_src_in_range(r: Rotation, i: int)
    requires
        0 <= i < 48,
    ensures
        0 <= rot_src(r, i) < 48,
{
    reveal(rot_src_u);
    reveal(rot_src_d);
    reveal(rot_src_r);
    reveal(rot_src_l);
    reveal(rot_src_f);
    reveal(rot_src_b);
    reveal(rot_src_ur);
    reveal(rot_src_dr);
    reveal(rot_src_rr);
    reveal(rot_src_lr);
    reveal(rot_src_fr);
    reveal(rot_src_br);
}

/// Rotations permute facelets, so they preserve validity of the colors.
pub proof fn lemma_rotate_preserves_valid_colors(v: Seq<u8>, r: Rotation)
    requires
        valid_colors(v),
    ensures
        valid_colors(spec_rotate(v, r)),
{
    assert forall|i: int| 0 <= i < 48 implies spec_rotate(v, r)[i] < 6 by {
        lemma_rot_src_in_range(r, i);
    }
}

/// Reversing is an involution: the reverse of a rotation's reverse is the
/// rotation itself, so the clockwise and counter-clockwise turns of a face
/// pair up exactly.
pub proof fn lemma_reverse_involution(r: Rotation)
    ensures
        r.spec_reverse().spec_reverse() == r,
{
}

/// Each transform is a permutation of exactly the 48 movable facelet slots:
/// the reverse turn's table inverts its table slot for slot, so no slot is
/// duplicated or dropped.
pub proof fn lemma_rot_src_bijective(r: Rotation, i: int)
    requires
        0 <= i < 48,
    ensures
        0 <= rot_src(r, i) < 48,
        rot_src(r.spec_reverse(), rot_src(r, i)) == i,
{
    reveal(rot_src_u);
    reveal(rot_src_d);
    reveal(rot_src_r);
    reveal(rot_src_l);
    reveal(rot_src_f);
    reveal(rot_src_b);
    reveal(rot_src_ur);
    reveal(rot_src_dr);
    reveal(rot_src_rr);
    reveal(rot_src_lr);
    reveal(rot_src_fr);
    reveal(rot_src_br);
}

/// Undoing a rotation restores the state: a turn followed by the opposite
/// turn of the same face is the identity.
pub proof fn lemma_rotate_then_reverse(v: Seq<u8>, r: Rotation)
    requires
        v.len() == 48,
    ensures
        spec_rotate(spec_rotate(v, r), r.spec_reverse()) == v,
{
    reveal(rot_src_u);
    reveal(rot_src_d);
    reveal(rot_src_r);
    reveal(rot_src_l);
    reveal(rot_src_f);
    reveal(rot_src_b);
    reveal(rot_src_ur);
    reveal(rot_src_dr);
    reveal(rot_src_rr);
    reveal(rot_src_lr);
    reveal(rot_src_fr);
    reveal(rot_src_br);
    assert(spec_rotate(spec_rotate(v, r), r.spec_reverse()) =~= v);
}

/// Each face turn has order four: applying the same rotation four times in a
/// row reproduces the starting state exactly, on all 48 facelets.
pub proof fn lemma_rotation_order_four(v: Seq<u8>, r: Rotation)
    requires
        v.len() == 48,
    ensures
        spec_rotate(spec_rotate(spec_rotate(spec_rotate(v, r), r), r), r) == v,
{
    reveal(rot_src_u);
    reveal(rot_src_d);
    reveal(rot_src_r);
    reveal(rot_src_l);
    reveal(rot_src_f);
    reveal(rot_src_b);
    reveal(rot_src_ur);
    reveal(rot_src_dr);
    reveal(rot_src_rr);
    reveal(rot_src_lr);
    reveal(rot_src_fr);
    reveal(rot_src_br);
    assert(spec_rotate(spec_rotate(spec_rotate(spec_rotate(v, r), r), r), r) =~= v);
}

/// One turn equals three opposite turns: a rotation and its reverse generate
/// the same cyclic group of order four.
pub proof fn lemma_rotation_inverse_three(v: Seq<u8>, r: Rotation)
    requires
        v.len() == 48,
    ensures
        spec_rotate(v, r) == spec_rotate(
            spec_rotate(spec_rotate(v, r.spec_reverse()), r.spec_reverse()),
            r.spec_reverse(),
        ),
{
    reveal(rot_src_u);
    reveal(rot_src_d);
    reveal(rot_src_r);
    reveal(rot_src_l);
    reveal(rot_src_f);
    reveal(rot_src_b);
    reveal(rot_src_ur);
    reveal(rot_src_dr);
    reveal(rot_src_rr);
    reveal(rot_src_lr);
    reveal(rot_src_fr);
    reveal(rot_src_br);
    assert(spec_rotate(v, r) =~= spec_rotate(
        spec_rotate(spec_rotate(v, r.spec_reverse()), r.spec_reverse()),
        r.spec_reverse(),
    ));
}

impl Cube {
    /// The solved cube: each side uniformly filled with its own face index.
    pub fn new() -> (c: Cube)
        ensures
            c@ == solved_state(),
            valid_colors(c@),
    {
        let c = Cube {
            sides: [
                Side::new_full(0),
                Side::new_full(1),
                Side::new_full(2),
                Side::new_full(3),
                Side::new_full(4),
                Side::new_full(5),
            ],
        };
        proof {
            assert(c@ =~= solved_state());
        }
        c
    }

    /// A cube whose 48 facelets all differ: facelet `i` carries color `i`.
    /// Useful for checking that a transform moves every facelet to the right
    /// place, but not a valid six-color state.
    pub fn new_debug() -> (c: Cube)
        ensures
            c@ == debug_state(),
    {
        let mut c = Cube::new();
        let mut i: usize = 0;
        while i < 6
            invariant
                i <= 6,
                c@.len() == 48,
                forall|k: int| 0 <= k < 8 * i ==> c@[k] == k as u8,
            decreases 6 - i,
        {
            let mut j: usize = 0;
            while j < 8
                invariant
                    i < 6,
                    j <= 8,
                    c@.len() == 48,
                    forall|k: int| 0 <= k < 8 * i + j ==> c@[k] == k as u8,
                decreases 8 - j,
            {
                let ghost prev = c@;
                c.sides[i].colors[j] = (i * 8 + j) as u8;
                proof {
                    assert(c@ =~= prev.update(8 * i + j, (i * 8 + j) as u8));
                }
                j = j + 1;
            }
            i = i + 1;
        }
        proof {
            assert(c@ =~= debug_state());
        }
        c
    }

    /// Applies the named rotation, producing the turned cube and leaving
    /// this one unchanged.
    pub fn rotate(&self, rotation: &Rotation) -> (c: Cube)
        ensures
            c@ == spec_rotate(self@, *rotation),
    {
        match rotation {
            Rotation::U => self.rotate_4_r(),
            Rotation::D => self.rotate_3_r(),
            Rotation::R => self.rotate_2(),
            Rotation::L => self.rotate_1_r(),
            Rotation::F => self.rotate_6(),
            Rotation::B => self.rotate_5_r(),
            Rotation::Ur => self.rotate_4(),
            Rotation::Dr => self.rotate_3(),
            Rotation::Rr => self.rotate_2_r(),
            Rotation::Lr => self.rotate_1(),
            Rotation::Fr => self.rotate_6_r(),
            Rotation::Br => self.rotate_5(),
        }
    }

    /// Reads the facelet at `face` position 0-8 of side `side`, in the 3x3
    /// grid numbering. Position 4 is the fixed center, which is not a stored
    /// facelet: reading it is rejected with `None`.
    pub fn get_at(&self, side: usize, face: usize) -> (r: Option<u8>)
        requires
            side < 6,
            face < 9,
        ensures
            face == 4 ==> r is None,
            face != 4 ==> r == Some(self@[side as int * 8 + (if face < 4 {
                face as int
            } else {
                face as int - 1
            })]),
    {
        if face == 4 {
            return None;
        }
        let face_pos = if face < 4 {
            face
        } else {
            face - 1
        };
        Some(self.sides[side].colors[face_pos])
    }

    /// Writes the facelet at `face` position 0-8 of side `side`. Position 4
    /// is the fixed center: writing it is rejected, the cube is left
    /// unchanged and `false` comes back.
    pub fn set_at(&mut self, side: usize, face: usize, color: u8) -> (r: bool)
        requires
            side < 6,
            face < 9,
        ensures
            face == 4 ==> !r && *final(self) == *old(self),
            face != 4 ==> r && final(self)@ == old(self)@.update(
                side as int * 8 + (if face < 4 {
                    face as int
                } else {
                    face as int - 1
                }),
                color,
            ),
    {
        if face == 4 {
            return false;
        }
        let face_pos = if face < 4 {
            face
        } else {
            face - 1
        };
        self.sides[side].colors[face_pos] = color;
        proof {
            assert(self@ =~= old(self)@.update(
                side as int * 8 + (if face < 4 {
                    face as int
                } else {
                    face as int - 1
                }),
                color,
            ));
        }
        true
    }

    /// The reverse of `rotate_4`; the clockwise turn of the top face.
    pub fn rotate_4_r(&self) -> (c: Cube)
        ensures
            c@ == spec_rotate(self@, Rotation::U),
    {
        let mut c = *self;
        c.sides[2].colors[5] = self.sides[1].colors[5];
        c.sides[2].colors[6] = self.sides[1].colors[6];
        c.sides[2].colors[7] = self.sides[1].colors[7];
        c.sides[3].colors[5] = self.sides[2].colors[5];
        c.sides[3].colors[6] = self.sides[2].colors[6];
        c.sides[3].colors[7] = self.sides[2].colors[7];
        c.sides[4].colors[5] = self.sides[3].colors[5];
        c.sides[4].colors[6] = self.sides[3].colors[6];
        c.sides[4].colors[7] = self.sides[3].colors[7];
        c.sides[1].colors[5] = self.sides[4].colors[5];
        c.sides[1].colors[6] = self.sides[4].colors[6];
        c.sides[1].colors[7] = self.sides[4].colors[7];
        c.sides[5].colors[2] = self.sides[5].colors[0];
        c.sides[5].colors[4] = self.sides[5].colors[1];
        c.sides[5].colors[7] = self.sides[5].colors[2];
        c.sides[5].colors[6] = self.sides[5].colors[4];
        c.sides[5].colors[5] = self.sides[5].colors[7];
        c.sides[5].colors[3] = self.sides[5].colors[6];
        c.sides[5].colors[0] = self.sides[5].colors[5];
        c.sides[5].colors[1] = self.sides[5].colors[3];
        proof {
            reveal(rot_src_u);
            assert(c@ =~= spec_rotate(self@, Rotation::U));
        }
        c
    }

    /// The reverse of `rotate_3`; the clockwise turn of the bottom face.
    pub fn rotate_3_r(&self) -> (c: Cube)
        ensures
            c@ == spec_rotate(self@, Rotation::D),
    {
        let mut c = *self;
        c.sides[2].colors[0] = self.sides[1].colors[0];
        c.sides[2].colors[1] = self.sides[1].colors[1];
        c.sides[2].colors[2] = self.sides[1].colors[2];
        c.sides[3].colors[0] = self.sides[2].colors[0];
        c.sides[3].colors[1] = self.sides[2].colors[1];
        c.sides[3].colors[2] = self.sides[2].colors[2];
        c.sides[4].colors[0] = self.sides[3].colors[0];
        c.sides[4].colors[1] = self.sides[3].colors[1];
        c.sides[4].colors[2] = self.sides[3].colors[2];
        c.sides[1].colors[0] = self.sides[4].colors[0];
        c.sides[1].colors[1] = self.sides[4].colors[1];
        c.sides[1].colors[2] = self.sides[4].colors[2];
        c.sides[0].colors[0] = self.sides[0].colors[2];
        c.sides[0].colors[1] = self.sides[0].colors[4];
        c.sides[0].colors[2] = self.sides[0].colors[7];
        c.sides[0].colors[4] = self.sides[0].colors[6];
        c.sides[0].colors[7] = self.sides[0].colors[5];
        c.sides[0].colors[6] = self.sides[0].colors[3];
        c.sides[0].colors[5] = self.sides[0].colors[0];
        c.sides[0].colors[3] = self.sides[0].colors[1];
        proof {
            reveal(rot_src_d);
            assert(c@ =~= spec_rotate(self@, Rotation::D));
        }
        c
    }

    /// The clockwise turn of the right face.
    pub fn rotate_2(&self) -> (c: Cube)
        ensures
            c@ == spec_rotate(self@, Rotation::R),
    {
        let mut c = *self;
        c.sides[0].colors[2] = self.sides[2].colors[2];
        c.sides[0].colors[4] = self.sides[2].colors[4];
        c.sides[0].colors[7] = self.sides[2].colors[7];
        c.sides[2].colors[2] = self.sides[5].colors[2];
        c.sides[2].colors[4] = self.sides[5].colors[4];
        c.sides[2].colors[7] = self.sides[5].colors[7];
        c.sides[5].colors[2] = self.sides[4].colors[5];
        c.sides[5].colors[4] = self.sides[4].colors[3];
        c.sides[5].colors[7] = self.sides[4].colors[0];
        c.sides[4].colors[5] = self.sides[0].colors[2];
        c.sides[4].colors[3] = self.sides[0].colors[4];
        c.sides[4].colors[0] = self.sides[0].colors[7];
        c.sides[3].colors[2] = self.sides[3].colors[0];
        c.sides[3].colors[4] = self.sides[3].colors[1];
        c.sides[3].colors[7] = self.sides[3].colors[2];
        c.sides[3].colors[6] = self.sides[3].colors[4];
        c.sides[3].colors[5] = self.sides[3].colors[7];
        c.sides[3].colors[3] = self.sides[3].colors[6];
        c.sides[3].colors[0] = self.sides[3].colors[5];
        c.sides[3].colors[1] = self.sides[3].colors[3];
        proof {
            reveal(rot_src_r);
            assert(c@ =~= spec_rotate(self@, Rotation::R));
        }
        c
    }

    /// The reverse of `rotate_1`; the clockwise turn of the left face.
    pub fn rotate_1_r(&self) -> (c: Cube)
        ensures
            c@ == spec_rotate(self@, Rotation::L),
    {
        let mut c = *self;
        c.sides[2].colors[0] = self.sides[0].colors[0];
        c.sides[2].colors[3] = self.sides[0].colors[3];
        c.sides[2].colors[5] = self.sides[0].colors[5];
        c.sides[5].colors[0] = self.sides[2].colors[0];
        c.sides[5].colors[3] = self.sides[2].colors[3];
        c.sides[5].colors[5] = self.sides[2].colors[5];
        c.sides[4].colors[7] = self.sides[5].colors[0];
        c.sides[4].colors[4] = self.sides[5].colors[3];
        c.sides[4].colors[2] = self.sides[5].colors[5];
        c.sides[0].colors[0] = self.sides[4].colors[7];
        c.sides[0].colors[3] = self.sides[4].colors[4];
        c.sides[0].colors[5] = self.sides[4].colors[2];
        c.sides[1].colors[2] = self.sides[1].colors[0];
        c.sides[1].colors[4] = self.sides[1].colors[1];
        c.sides[1].colors[7] = self.sides[1].colors[2];
        c.sides[1].colors[6] = self.sides[1].colors[4];
        c.sides[1].colors[5] = self.sides[1].colors[7];
        c.sides[1].colors[3] = self.sides[1].colors[6];
        c.sides[1].colors[0] = self.sides[1].colors[5];
        c.sides[1].colors[1] = self.sides[1].colors[3];
        proof {
            reveal(rot_src_l);
            assert(c@ =~= spec_rotate(self@, Rotation::L));
        }
        c
    }

    /// The clockwise turn of the front face.
    pub fn rotate_6(&self) -> (c: Cube)
        ensures
            c@ == spec_rotate(self@, Rotation::F),
    {
        let mut c = *self;
        c.sides[0].colors[1] = self.sides[3].colors[4];
        c.sides[0].colors[0] = self.sides[3].colors[2];
        c.sides[0].colors[2] = self.sides[3].colors[7];
        c.sides[3].colors[2] = self.sides[5].colors[7];
        c.sides[3].colors[4] = self.sides[5].colors[6];
        c.sides[3].colors[7] = self.sides[5].colors[5];
        c.sides[5].colors[5] = self.sides[1].colors[0];
        c.sides[5].colors[6] = self.sides[1].colors[3];
        c.sides[5].colors[7] = self.sides[1].colors[5];
        c.sides[1].colors[0] = self.sides[0].colors[2];
        c.sides[1].colors[5] = self.sides[0].colors[0];
        c.sides[1].colors[3] = self.sides[0].colors[1];
        c.sides[4].colors[2] = self.sides[4].colors[0];
        c.sides[4].colors[4] = self.sides[4].colors[1];
        c.sides[4].colors[7] = self.sides[4].colors[2];
        c.sides[4].colors[6] = self.sides[4].colors[4];
        c.sides[4].colors[5] = self.sides[4].colors[7];
        c.sides[4].colors[3] = self.sides[4].colors[6];
        c.sides[4].colors[0] = self.sides[4].colors[5];
        c.sides[4].colors[1] = self.sides[4].colors[3];
        proof {
            reveal(rot_src_f);
            assert(c@ =~= spec_rotate(self@, Rotation::F));
        }
        c
    }

    /// The reverse of `rotate_5`; the clockwise turn of the back face.
    pub fn rotate_5_r(&self) -> (c: Cube)
        ensures
            c@ == spec_rotate(self@, Rotation::B),
    {
        let mut c = *self;
        c.sides[3].colors[0] = self.sides[0].colors[5];
        c.sides[3].colors[3] = self.sides[0].colors[6];
        c.sides[3].colors[5] = self.sides[0].colors[7];
        c.sides[5].colors[2] = self.sides[3].colors[0];
        c.sides[5].colors[1] = self.sides[3].colors[3];
        c.sides[5].colors[0] = self.sides[3].colors[5];
        c.sides[1].colors[2] = self.sides[5].colors[0];
        c.sides[1].colors[4] = self.sides[5].colors[1];
        c.sides[1].colors[7] = self.sides[5].colors[2];
        c.sides[0].colors[7] = self.sides[1].colors[2];
        c.sides[0].colors[6] = self.sides[1].colors[4];
        c.sides[0].colors[5] = self.sides[1].colors[7];
        c.sides[2].colors[2] = self.sides[2].colors[0];
        c.sides[2].colors[4] = self.sides[2].colors[1];
        c.sides[2].colors[7] = self.sides[2].colors[2];
        c.sides[2].colors[6] = self.sides[2].colors[4];
        c.sides[2].colors[5] = self.sides[2].colors[7];
        c.sides[2].colors[3] = self.sides[2].colors[6];
        c.sides[2].colors[0] = self.sides[2].colors[5];
        c.sides[2].colors[1] = self.sides[2].colors[3];
        proof {
            reveal(rot_src_b);
            assert(c@ =~= spec_rotate(self@, Rotation::B));
        }
        c
    }

    /// The counter-clockwise turn of the top face.
    pub fn rotate_4(&self) -> (c: Cube)
        ensures
            c@ == spec_rotate(self@, Rotation::Ur),
    {
        let mut c = *self;
        c.sides[1].colors[5] = self.sides[2].colors[5];
        c.sides[1].colors[6] = self.sides[2].colors[6];
        c.sides[1].colors[7] = self.sides[2].colors[7];
        c.sides[2].colors[5] = self.sides[3].colors[5];
        c.sides[2].colors[6] = self.sides[3].colors[6];
        c.sides[2].colors[7] = self.sides[3].colors[7];
        c.sides[3].colors[5] = self.sides[4].colors[5];
        c.sides[3].colors[6] = self.sides[4].colors[6];
        c.sides[3].colors[7] = self.sides[4].colors[7];
        c.sides[4].colors[5] = self.sides[1].colors[5];
        c.sides[4].colors[6] = self.sides[1].colors[6];
        c.sides[4].colors[7] = self.sides[1].colors[7];
        c.sides[5].colors[0] = self.sides[5].colors[2];
        c.sides[5].colors[1] = self.sides[5].colors[4];
        c.sides[5].colors[2] = self.sides[5].colors[7];
        c.sides[5].colors[4] = self.sides[5].colors[6];
        c.sides[5].colors[7] = self.sides[5].colors[5];
        c.sides[5].colors[6] = self.sides[5].colors[3];
        c.sides[5].colors[5] = self.sides[5].colors[0];
        c.sides[5].colors[3] = self.sides[5].colors[1];
        proof {
            reveal(rot_src_ur);
            assert(c@ =~= spec_rotate(self@, Rotation::Ur));
        }
        c
    }

    /// The counter-clockwise turn of the bottom face.
    pub fn rotate_3(&self) -> (c: Cube)
        ensures
            c@ == spec_rotate(self@, Rotation::Dr),
    {
        let mut c = *self;
        c.sides[1].colors[0] = self.sides[2].colors[0];
        c.sides[1].colors[1] = self.sides[2].colors[1];
        c.sides[1].colors[2] = self.sides[2].colors[2];
        c.sides[2].colors[0] = self.sides[3].colors[0];
        c.sides[2].colors[1] = self.sides[3].colors[1];
        c.sides[2].colors[2] = self.sides[3].colors[2];
        c.sides[3].colors[0] = self.sides[4].colors[0];
        c.sides[3].colors[1] = self.sides[4].colors[1];
        c.sides[3].colors[2] = self.sides[4].colors[2];
        c.sides[4].colors[0] = self.sides[1].colors[0];
        c.sides[4].colors[1] = self.sides[1].colors[1];
        c.sides[4].colors[2] = self.sides[1].colors[2];
        c.sides[0].colors[2] = self.sides[0].colors[0];
        c.sides[0].colors[4] = self.sides[0].colors[1];
        c.sides[0].colors[7] = self.sides[0].colors[2];
        c.sides[0].colors[6] = self.sides[0].colors[4];
        c.sides[0].colors[5] = self.sides[0].colors[7];
        c.sides[0].colors[3] = self.sides[0].colors[6];
        c.sides[0].colors[0] = self.sides[0].colors[5];
        c.sides[0].colors[1] = self.sides[0].colors[3];
        proof {
            reveal(rot_src_dr);
            assert(c@ =~= spec_rotate(self@, Rotation::Dr));
        }
        c
    }

    /// The reverse of `rotate_2`; the counter-clockwise turn of the right face.
    pub fn rotate_2_r(&self) -> (c: Cube)
        ensures
            c@ == spec_rotate(self@, Rotation::Rr),
    {
        let mut c = *self;
        c.sides[2].colors[2] = self.sides[0].colors[2];
        c.sides[2].colors[4] = self.sides[0].colors[4];
        c.sides[2].colors[7] = self.sides[0].colors[7];
        c.sides[5].colors[2] = self.sides[2].colors[2];
        c.sides[5].colors[4] = self.sides[2].colors[4];
        c.sides[5].colors[7] = self.sides[2].colors[7];
        c.sides[4].colors[5] = self.sides[5].colors[2];
        c.sides[4].colors[3] = self.sides[5].colors[4];
        c.sides[4].colors[0] = self.sides[5].colors[7];
        c.sides[0].colors[2] = self.sides[4].colors[5];
        c.sides[0].colors[4] = self.sides[4].colors[3];
        c.sides[0].colors[7] = self.sides[4].colors[0];
        c.sides[3].colors[0] = self.sides[3].colors[2];
        c.sides[3].colors[1] = self.sides[3].colors[4];
        c.sides[3].colors[2] = self.sides[3].colors[7];
        c.sides[3].colors[4] = self.sides[3].colors[6];
        c.sides[3].colors[7] = self.sides[3].colors[5];
        c.sides[3].colors[6] = self.sides[3].colors[3];
        c.sides[3].colors[5] = self.sides[3].colors[0];
        c.sides[3].colors[3] = self.sides[3].colors[1];
        proof {
            reveal(rot_src_rr);
            assert(c@ =~= spec_rotate(self@, Rotation::Rr));
        }
        c
    }

    /// Turns the left-column slice one step; the counter-clockwise turn of the left face.
    pub fn rotate_1(&self) -> (c: Cube)
        ensures
            c@ == spec_rotate(self@, Rotation::Lr),
    {
        let mut c = *self;
        c.sides[0].colors[0] = self.sides[2].colors[0];
        c.sides[0].colors[3] = self.sides[2].colors[3];
        c.sides[0].colors[5] = self.sides[2].colors[5];
        c.sides[2].colors[0] = self.sides[5].colors[0];
        c.sides[2].colors[3] = self.sides[5].colors[3];
        c.sides[2].colors[5] = self.sides[5].colors[5];
        c.sides[5].colors[0] = self.sides[4].colors[7];
        c.sides[5].colors[3] = self.sides[4].colors[4];
        c.sides[5].colors[5] = self.sides[4].colors[2];
        c.sides[4].colors[7] = self.sides[0].colors[0];
        c.sides[4].colors[4] = self.sides[0].colors[3];
        c.sides[4].colors[2] = self.sides[0].colors[5];
        c.sides[1].colors[0] = self.sides[1].colors[2];
        c.sides[1].colors[1] = self.sides[1].colors[4];
        c.sides[1].colors[2] = self.sides[1].colors[7];
        c.sides[1].colors[4] = self.sides[1].colors[6];
        c.sides[1].colors[7] = self.sides[1].colors[5];
        c.sides[1].colors[6] = self.sides[1].colors[3];
        c.sides[1].colors[5] = self.sides[1].colors[0];
        c.sides[1].colors[3] = self.sides[1].colors[1];
        proof {
            reveal(rot_src_lr);
            assert(c@ =~= spec_rotate(self@, Rotation::Lr));
        }
        c
    }

    /// The reverse of `rotate_6`; the counter-clockwise turn of the front face.
    pub fn rotate_6_r(&self) -> (c: Cube)
        ensures
            c@ == spec_rotate(self@, Rotation::Fr),
    {
        let mut c = *self;
        c.sides[3].colors[4] = self.sides[0].colors[1];
        c.sides[3].colors[2] = self.sides[0].colors[0];
        c.sides[3].colors[7] = self.sides[0].colors[2];
        c.sides[5].colors[7] = self.sides[3].colors[2];
        c.sides[5].colors[6] = self.sides[3].colors[4];
        c.sides[5].colors[5] = self.sides[3].colors[7];
        c.sides[1].colors[0] = self.sides[5].colors[5];
        c.sides[1].colors[3] = self.sides[5].colors[6];
        c.sides[1].colors[5] = self.sides[5].colors[7];
        c.sides[0].colors[2] = self.sides[1].colors[0];
        c.sides[0].colors[0] = self.sides[1].colors[5];
        c.sides[0].colors[1] = self.sides[1].colors[3];
        c.sides[4].colors[0] = self.sides[4].colors[2];
        c.sides[4].colors[1] = self.sides[4].colors[4];
        c.sides[4].colors[2] = self.sides[4].colors[7];
        c.sides[4].colors[4] = self.sides[4].colors[6];
        c.sides[4].colors[7] = self.sides[4].colors[5];
        c.sides[4].colors[6] = self.sides[4].colors[3];
        c.sides[4].colors[5] = self.sides[4].colors[0];
        c.sides[4].colors[3] = self.sides[4].colors[1];
        proof {
            reveal(rot_src_fr);
            assert(c@ =~= spec_rotate(self@, Rotation::Fr));
        }
        c
    }

    /// The counter-clockwise turn of the back face.
    pub fn rotate_5(&self) -> (c: Cube)
        ensures
            c@ == spec_rotate(self@, Rotation::Br),
    {
        let mut c = *self;
        c.sides[0].colors[5] = self.sides[3].colors[0];
        c.sides[0].colors[6] = self.sides[3].colors[3];
        c.sides[0].colors[7] = self.sides[3].colors[5];
        c.sides[3].colors[0] = self.sides[5].colors[2];
        c.sides[3].colors[3] = self.sides[5].colors[1];
        c.sides[3].colors[5] = self.sides[5].colors[0];
        c.sides[5].colors[0] = self.sides[1].colors[2];
        c.sides[5].colors[1] = self.sides[1].colors[4];
        c.sides[5].colors[2] = self.sides[1].colors[7];
        c.sides[1].colors[2] = self.sides[0].colors[7];
        c.sides[1].colors[4] = self.sides[0].colors[6];
        c.sides[1].colors[7] = self.sides[0].colors[5];
        c.sides[2].colors[0] = self.sides[2].colors[2];
        c.sides[2].colors[1] = self.sides[2].colors[4];
        c.sides[2].colors[2] = self.sides[2].colors[7];
        c.sides[2].colors[4] = self.sides[2].colors[6];
        c.sides[2].colors[7] = self.sides[2].colors[5];
        c.sides[2].colors[6] = self.sides[2].colors[3];
        c.sides[2].colors[5] = self.sides[2].colors[0];
        c.sides[2].colors[3] = self.sides[2].colors[1];
        proof {
            reveal(rot_src_br);
            assert(c@ =~= spec_rotate(self@, Rotation::Br));
        }
        c
    }

    /// All twelve states one turn away from this cube, in the fixed order
    /// `rotate_1` through `rotate_6` and then their reverses.
    pub fn get_rotations(&self) -> (rotations: Vec<Cube>)
        ensures
            rotations@.len() == 12,
            forall|i: int|
                0 <= i < 12 ==> rotations@[i]@ == spec_rotate(self@, #[trigger] numbered_rotation(
                    i,
                )),
    {
        let mut rotations = Vec::new();
        rotations.push(self.rotate_1());
        rotations.push(self.rotate_2());
        rotations.push(self.rotate_3());
        rotations.push(self.rotate_4());
        rotations.push(self.rotate_5());
        rotations.push(self.rotate_6());
        rotations.push(self.rotate_1_r());
        rotations.push(self.rotate_2_r());
        rotations.push(self.rotate_3_r());
        rotations.push(self.rotate_4_r());
        rotations.push(self.rotate_5_r());
        rotations.push(self.rotate_6_r());
        rotations
    }
}

/// The rotation that the `k`-th entry of `Cube::get_rotations` applies:
/// the numbered transforms in order, then their reverses.
pub open spec fn numbered_rotation(k: int) -> Rotation {
    if k == 0 {
        Rotation::Lr
    } else if k == 1 {
        Rotation::R
    } else if k == 2 {
        Rotation::Dr
    } else if k == 3 {
        Rotation::Ur
    } else if k == 4 {
        Rotation::Br
    } else if k == 5 {
        Rotation::F
    } else if k == 6 {
        Rotation::L
    } else if k == 7 {
        Rotation::Rr
    } else if k == 8 {
        Rotation::D
    } else if k == 9 {
        Rotation::U
    } else if k == 10 {
        Rotation::B
    } else {
        Rotation::Fr
    }
}

} // verus!
