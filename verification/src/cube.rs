//! The puzzle chain: an ordered sequence of elements built from a compact
//! string encoding, with forward kinematics, overlap detection, bounding
//! volume measurement, and an exhaustive search driver over hinge states.

pub mod element;
pub mod search;

use vstd::prelude::*;
use vstd::math::{max, min};
use crate::vecs::{
    add3, comb3, cross3, dot3, is_unit2, is_unit3, lemma_comb_orth, lemma_comb_unit,
    lemma_cross_unit, IVec3,
};
use element::{dir3, hinge2, pos3, Element, ElementType};

verus! {

/// Number of distinct orientations of a corner's hinge.
pub const DOF_PER_CORNER: usize = 4;

/// State of the exhaustive search driver: the mixed-radix counter value.
pub struct AlgoState {
    pub cursor: usize,
}

/// The chain of elements, with cached corner bookkeeping, the search
/// counter, and the bounding-cuboid size cached by the last forward pass.
pub struct NetconomyCube {
    pub elements: Vec<Element>,
    pub _corner_indices: Vec<usize>,
    pub _moduli: Vec<usize>,
    pub _bounding_cuboid: IVec3,
    pub _algo_state: AlgoState,
}

/// `4^n`: the moduli of the mixed-radix search counter.
pub open spec fn pow4(n: nat) -> nat
    decreases n,
{
    if n == 0 {
        1
    } else {
        4 * pow4((n - 1) as nat)
    }
}

/// How many `'c'` characters an encoding holds.
pub open spec fn count_c(s: Seq<char>) -> nat
    decreases s.len(),
{
    if s.len() == 0 {
        0
    } else {
        count_c(s.drop_last()) + if s.last() == 'c' {
            1nat
        } else {
            0nat
        }
    }
}

/// The fixed synthetic anchor element: a straight segment at the origin
/// pointing along the positive x axis.
pub open spec fn anchor_element() -> Element {
    Element {
        kind: ElementType::Straight,
        corner_orientation: None,
        _position: Some(IVec3 { x: 0, y: 0, z: 0 }),
        _direction: Some(IVec3 { x: 1, y: 0, z: 0 }),
    }
}

/// The forward-kinematics state after processing element `i`: the element's
/// position, its outgoing direction, and the carried "previous corner
/// direction" (the incoming direction of the last corner processed,
/// `(0, 1, 0)` before any corner is seen).
///
/// Only the kinds and hinge orientations of the elements are read; the
/// stored placement fields do not influence the result.
pub open spec fn fk_state(s: Seq<Element>, i: int) -> (
    (int, int, int),
    (int, int, int),
    (int, int, int),
)
    decreases i,
{
    if i <= 0 {
        ((0int, 0int, 0int), (1int, 0int, 0int), (0int, 1int, 0int))
    } else {
        let prev = fk_state(s, i - 1);
        let p = add3(prev.0, prev.1);
        if s[i].kind == ElementType::Corner {
            (p, comb3(hinge2(s[i]), prev.2, cross3(prev.1, prev.2)), prev.1)
        } else {
            (p, prev.1, prev.2)
        }
    }
}

/// The position the forward pass assigns to element `i`.
pub open spec fn fk_pos(s: Seq<Element>, i: int) -> (int, int, int) {
    fk_state(s, i).0
}

/// The outgoing direction the forward pass assigns to element `i`.
pub open spec fn fk_dir(s: Seq<Element>, i: int) -> (int, int, int) {
    fk_state(s, i).1
}

/// Whether two computed elements occupy the same lattice cell.
pub open spec fn overlap_spec(s: Seq<Element>) -> bool {
    exists|i: int, j: int| 0 <= i < j < s.len() && pos3(s[i]) == pos3(s[j])
}

/// Component `axis` (0, 1 or 2) of an element's stored position.
pub open spec fn coord(e: Element, axis: int) -> int {
    if axis == 0 {
        pos3(e).0
    } else if axis == 1 {
        pos3(e).1
    } else {
        pos3(e).2
    }
}

/// Minimum of component `axis` over the first `n` elements.
pub open spec fn lo_coord(s: Seq<Element>, n: int, axis: int) -> int
    decreases n,
{
    if n <= 1 {
        coord(s[0], axis)
    } else {
        min(lo_coord(s, n - 1, axis), coord(s[n - 1], axis))
    }
}

/// Maximum of component `axis` over the first `n` elements.
pub open spec fn hi_coord(s: Seq<Element>, n: int, axis: int) -> int
    decreases n,
{
    if n <= 1 {
        coord(s[0], axis)
    } else {
        max(hi_coord(s, n - 1, axis), coord(s[n - 1], axis))
    }
}

/// The bounding cuboid of the first `n` elements: per axis, the number of
/// unit cells spanned (`max - min + 1`).
pub open spec fn bounding_spec(s: Seq<Element>, n: int) -> (int, int, int) {
    (
        hi_coord(s, n, 0) - lo_coord(s, n, 0) + 1,
        hi_coord(s, n, 1) - lo_coord(s, n, 1) + 1,
        hi_coord(s, n, 2) - lo_coord(s, n, 2) + 1,
    )
}

impl View for NetconomyCube {
    type V = Seq<Element>;

    open spec fn view(&self) -> Seq<Element> {
        self.elements@
    }
}

impl NetconomyCube {
    /// The element indices of the corners, in chain order.
    pub open spec fn corners_seq(self) -> Seq<usize> {
        self._corner_indices@
    }

    /// The moduli of the search counter, `4^0, 4^1, ...`, one per corner.
    pub open spec fn moduli_seq(self) -> Seq<usize> {
        self._moduli@
    }

    /// Number of corners in the chain.
    pub open spec fn corner_count_spec(self) -> nat {
        self.corners_seq().len()
    }

    /// The hinge orientation of the `ci`-th corner.
    pub open spec fn hinge_at(self, ci: int) -> (int, int) {
        hinge2(self@[self.corners_seq()[ci] as int])
    }

    /// The hinge orientations of all corners, in chain order.
    pub open spec fn corner_hinges(self) -> Seq<(int, int)> {
        Seq::new(self.corner_count_spec(), |ci: int| self.hinge_at(ci))
    }

    /// Structural well-formedness: the shape every chain keeps for its whole
    /// life, independent of whether a forward pass has run yet.
    pub open spec fn wf(self) -> bool {
        let s = self@;
        let cis = self.corners_seq();
        &&& 2 <= s.len() <= 0x3fff_ffff
        &&& s[0] == anchor_element()
        &&& s[s.len() - 1].kind == ElementType::Straight
        &&& s[s.len() - 1].corner_orientation is None
        &&& forall|i: int|
            0 <= i < s.len() ==> ((#[trigger] s[i].kind) == ElementType::Corner
                <==> s[i].corner_orientation is Some)
        &&& forall|i: int|
            0 <= i < s.len() && (#[trigger] s[i].kind) == ElementType::Corner ==> is_unit2(
                hinge2(s[i]),
            )
        &&& forall|j: int| 0 <= j < cis.len() ==> 0 < #[trigger] cis[j] < s.len()
        &&& forall|j: int|
            0 <= j < cis.len() ==> s[#[trigger] cis[j] as int].kind == ElementType::Corner
        &&& forall|j1: int, j2: int|
            0 <= j1 < j2 < cis.len() ==> #[trigger] cis[j1] < #[trigger] cis[j2]
        &&& forall|i: int|
            0 < i < s.len() && (#[trigger] s[i].kind) == ElementType::Corner ==> exists|j: int|
                0 <= j < cis.len() && cis[j] == i
        &&& self.moduli_seq().len() == cis.len()
        &&& forall|j: int|
            0 <= j < cis.len() ==> (#[trigger] self.moduli_seq()[j]) as nat == pow4(j as nat)
        &&& self._algo_state.cursor >= 1
    }

    /// The derived geometry is present and consistent: every element's
    /// stored placement equals what forward kinematics assigns it.
    pub open spec fn positions_ok(self) -> bool {
        let s = self@;
        forall|i: int|
            0 <= i < s.len() ==> {
                &&& (#[trigger] s[i])._position is Some
                &&& s[i]._direction is Some
                &&& pos3(s[i]) == fk_pos(s, i)
                &&& dir3(s[i]) == fk_dir(s, i)
            }
    }

    /// Fully computed state: the geometry is consistent and the cached
    /// bounding-cuboid size matches it.
    pub open spec fn computed(self) -> bool {
        &&& self.positions_ok()
        &&& self._bounding_cuboid@ == bounding_spec(self@, self@.len() as int)
    }
}

/// `pow4` is monotonic.
pub proof fn lemma_pow4_monotonic(a: nat, b: nat)
    requires
        a <= b,
    ensures
        pow4(a) <= pow4(b),
    decreases b,
{
    if a < b && b > 0 {
        lemma_pow4_monotonic(a, (b - 1) as nat);
    }
}

/// Appending one character to an encoding adds one to the corner count
/// exactly when that character is `'c'`.
proof fn lemma_count_c_push(s: Seq<char>, ch: char)
    ensures
        count_c(s.push(ch)) == count_c(s) + if ch == 'c' {
            1nat
        } else {
            0nat
        },
{
    assert(s.push(ch).drop_last() =~= s);
    assert(s.push(ch).last() == ch);
}

/// Forward kinematics reads only the kinds and hinge orientations: two
/// chains that agree on those agree on every derived placement.  In
/// particular, recomputing the geometry of an unchanged chain is
/// deterministic.
pub proof fn lemma_fk_congruence(s1: Seq<Element>, s2: Seq<Element>, i: int)
    requires
        s1.len() == s2.len(),
        forall|j: int|
            0 <= j < s1.len() ==> (#[trigger] s1[j]).kind == s2[j].kind
                && s1[j].corner_orientation == s2[j].corner_orientation,
        0 <= i < s1.len(),
    ensures
        fk_state(s1, i) == fk_state(s2, i),
    decreases i,
{
    if i > 0 {
        lemma_fk_congruence(s1, s2, i - 1);
    }
}

/// Invariants of the forward pass: every direction and carried corner
/// direction is a signed unit axis vector, the two are orthogonal, and the
/// position after `i` unit steps stays within `i` cells of the origin per
/// axis.
pub proof fn lemma_fk_wf(s: Seq<Element>, i: int)
    requires
        0 <= i < s.len(),
        forall|j: int|
            0 <= j < s.len() && (#[trigger] s[j].kind) == ElementType::Corner ==> is_unit2(
                hinge2(s[j]),
            ),
    ensures
        is_unit3(fk_state(s, i).1),
        is_unit3(fk_state(s, i).2),
        dot3(fk_state(s, i).1, fk_state(s, i).2) == 0,
        -i <= fk_state(s, i).0.0 <= i,
        -i <= fk_state(s, i).0.1 <= i,
        -i <= fk_state(s, i).0.2 <= i,
    decreases i,
{
    if i == 0 {
        crate::vecs::lemma_dot_x_y();
    } else {
        lemma_fk_wf(s, i - 1);
        let prev = fk_state(s, i - 1);
        if s[i].kind == ElementType::Corner {
            let h = hinge2(s[i]);
            let e2 = cross3(prev.1, prev.2);
            lemma_cross_unit(prev.1, prev.2);
            lemma_comb_unit(h, prev.2, e2);
            crate::vecs::lemma_dot_comm(prev.1, prev.2);
            lemma_comb_orth(h, prev.2, e2, prev.1);
        }
    }
}

impl NetconomyCube {
    /// Builds a chain from its string encoding: one element per character
    /// (`'s'` straight, `'c'` corner) between the fixed anchor and the
    /// synthetic terminator.  Corners start in hinge orientation `(1, 0)`;
    /// the search cursor starts at 1; no geometry is computed yet.
    pub fn from_cube_string(string: String) -> (c: NetconomyCube)
        requires
            forall|i: int|
                0 <= i < string@.len() ==> #[trigger] string@[i] == 's' || string@[i] == 'c',
            string@.len() <= 0x3fff_fffd,
            count_c(string@) == 0 || pow4((count_c(string@) - 1) as nat) <= usize::MAX as nat,
        ensures
            c.wf(),
            c@.len() == string@.len() + 2,
            c.corner_count_spec() == count_c(string@),
            forall|i: int|
                1 <= i <= string@.len() ==> ((#[trigger] c@[i].kind) == ElementType::Corner
                    <==> string@[i - 1] == 'c'),
            forall|i: int|
                1 <= i <= string@.len() && (#[trigger] c@[i].kind) == ElementType::Corner
                    ==> hinge2(c@[i]) == (1int, 0int),
            forall|i: int|
                1 <= i < c@.len() ==> (#[trigger] c@[i])._position is None && c@[i]._direction
                    is None,
            c._algo_state.cursor == 1,
            c._bounding_cuboid@ == (1int, 1int, 1int),
    {
        let st: &str = string.as_str();
        let n: usize = st.unicode_len();
        let mut elements: Vec<Element> = Vec::new();
        elements.push(Element::first_element());
        let mut corner_indices: Vec<usize> = Vec::new();
        let mut i: usize = 0;
        while i < n
            invariant
                st@ == string@,
                n == string@.len(),
                n <= 0x3fff_fffd,
                forall|k: int|
                    0 <= k < string@.len() ==> #[trigger] string@[k] == 's' || string@[k] == 'c',
                i <= n,
                elements@.len() == i + 1,
                elements@[0] == anchor_element(),
                forall|j: int|
                    1 <= j <= i ==> ((#[trigger] elements@[j].kind) == ElementType::Corner
                        <==> string@[j - 1] == 'c'),
                forall|j: int|
                    1 <= j <= i ==> ((#[trigger] elements@[j].kind) == ElementType::Corner
                        <==> elements@[j].corner_orientation is Some),
                forall|j: int|
                    1 <= j <= i && (#[trigger] elements@[j].kind) == ElementType::Corner
                        ==> hinge2(elements@[j]) == (1int, 0int),
                forall|j: int|
                    1 <= j <= i ==> (#[trigger] elements@[j])._position is None
                        && elements@[j]._direction is None,
                corner_indices@.len() == count_c(string@.take(i as int)),
                forall|k: int|
                    0 <= k < corner_indices@.len() ==> 0 < #[trigger] corner_indices@[k] <= i,
                forall|k: int|
                    0 <= k < corner_indices@.len() ==> elements@[
                        #[trigger] corner_indices@[k] as int
                    ].kind == ElementType::Corner,
                forall|k1: int, k2: int|
                    0 <= k1 < k2 < corner_indices@.len() ==> #[trigger] corner_indices@[k1]
                        < #[trigger] corner_indices@[k2],
                forall|j: int|
                    1 <= j <= i && (#[trigger] elements@[j].kind) == ElementType::Corner
                        ==> exists|k: int|
                        0 <= k < corner_indices@.len() && corner_indices@[k] == j,
            decreases n - i,
        {
            let ghost pre = string@.take(i as int);
            let ghost els0 = elements@;
            let ghost cis0 = corner_indices@;
            let ch = st.get_char(i);
            if ch == 's' {
                elements.push(Element::unknown_straight());
            } else {
                elements.push(Element::unknown_corner());
                corner_indices.push(i + 1);
            }
            proof {
                lemma_count_c_push(pre, ch);
                assert(string@.take(i + 1) =~= pre.push(ch));
                assert forall|j: int|
                    1 <= j <= i + 1 && (#[trigger] elements@[j].kind) == ElementType::Corner
                    implies exists|k: int|
                    0 <= k < corner_indices@.len() && corner_indices@[k] == j by {
                    if j == i + 1 {
                        assert(corner_indices@[cis0.len() as int] == j);
                    } else {
                        assert(els0[j].kind == ElementType::Corner);
                        let k = choose|k: int| 0 <= k < cis0.len() && cis0[k] == j;
                        assert(corner_indices@[k] == j);
                    }
                }
            }
            i += 1;
        }
        elements.push(Element::last_element());
        proof {
            assert(string@.take(n as int) =~= string@);
        }
        let cc: usize = corner_indices.len();
        let mut moduli: Vec<usize> = Vec::new();
        let mut m: usize = 1;
        let mut j: usize = 0;
        while j < cc
            invariant
                cc == corner_indices@.len(),
                cc == count_c(string@),
                cc == 0 || pow4((cc - 1) as nat) <= usize::MAX as nat,
                j <= cc,
                moduli@.len() == j,
                forall|k: int| 0 <= k < j ==> (#[trigger] moduli@[k]) as nat == pow4(k as nat),
                j < cc ==> m as nat == pow4(j as nat),
            decreases cc - j,
        {
            moduli.push(m);
            j += 1;
            if j < cc {
                proof {
                    lemma_pow4_monotonic(j as nat, (cc - 1) as nat);
                }
                m = m * 4;
            }
        }
        NetconomyCube {
            elements,
            _corner_indices: corner_indices,
            _moduli: moduli,
            _bounding_cuboid: IVec3 { x: 1, y: 1, z: 1 },
            _algo_state: AlgoState { cursor: 1 },
        }
    }

    /// Deterministically recomputes every element's position and outgoing
    /// direction from the anchor outward, given the current hinge states,
    /// then refreshes the cached bounding-cuboid size.  Afterwards every
    /// element's stored placement equals the forward-kinematics model, and
    /// consecutive positions differ by exactly the previous element's
    /// direction.
    pub fn compute_positions(&mut self)
        requires
            old(self).wf(),
        ensures
            final(self).wf(),
            final(self).computed(),
            final(self)@.len() == old(self)@.len(),
            final(self).corners_seq() == old(self).corners_seq(),
            final(self).moduli_seq() == old(self).moduli_seq(),
            final(self)._algo_state.cursor == old(self)._algo_state.cursor,
            forall|i: int|
                0 <= i < old(self)@.len() ==> (#[trigger] final(self)@[i]).kind == old(
                    self,
                )@[i].kind && final(self)@[i].corner_orientation == old(
                    self,
                )@[i].corner_orientation,
            forall|i: int|
                1 <= i < final(self)@.len() ==> pos3(#[trigger] final(self)@[i]) == add3(
                    pos3(final(self)@[i - 1]),
                    dir3(final(self)@[i - 1]),
                ),
    {
        let ghost gold = self.elements@;
        let ghost cis0 = self._corner_indices@;
        let ghost mod0 = self._moduli@;
        let ghost cur0 = self._algo_state.cursor;
        let len = self.elements.len();
        let mut previous_corner_direction = IVec3 { x: 0, y: 1, z: 0 };
        let mut i: usize = 1;
        while i < len
            invariant
                self.wf(),
                len == self.elements@.len(),
                gold.len() == len,
                self._corner_indices@ == cis0,
                self._moduli@ == mod0,
                self._algo_state.cursor == cur0,
                forall|j: int|
                    0 <= j < len ==> (#[trigger] self.elements@[j]).kind == gold[j].kind
                        && self.elements@[j].corner_orientation == gold[j].corner_orientation,
                forall|j: int|
                    0 <= j < len && (#[trigger] gold[j].kind) == ElementType::Corner ==> is_unit2(
                        hinge2(gold[j]),
                    ),
                1 <= i <= len,
                forall|j: int|
                    0 <= j < i ==> {
                        &&& (#[trigger] self.elements@[j])._position is Some
                        &&& self.elements@[j]._direction is Some
                        &&& pos3(self.elements@[j]) == fk_pos(gold, j)
                        &&& dir3(self.elements@[j]) == fk_dir(gold, j)
                    },
                previous_corner_direction@ == fk_state(gold, i - 1).2,
            decreases len - i,
        {
            proof {
                lemma_fk_wf(gold, i as int);
                lemma_fk_wf(gold, i - 1);
                assert(gold[i as int].kind == self.elements@[i as int].kind);
            }
            let prev = self.elements[i - 1];
            let current = self.elements[i];
            let prev_pos = prev._position.unwrap();
            let prev_dir = prev._direction.unwrap();
            let new_pos = prev_pos.vadd(prev_dir);
            let mut e = current;
            match current.kind {
                ElementType::Straight => {
                    e.set(new_pos, prev_dir);
                    self.elements.set(i, e);
                },
                ElementType::Corner => {
                    let d = prev_dir;
                    let e1 = previous_corner_direction;
                    let e2 = d.cross(e1);
                    let co = current.corner_orientation.unwrap();
                    let nd = IVec3::hinge_comb(co, e1, e2);
                    e.set(new_pos, nd);
                    self.elements.set(i, e);
                    previous_corner_direction = d;
                },
            }
            i += 1;
        }
        proof {
            assert forall|j: int| 0 <= j < len implies fk_state(self.elements@, j) == fk_state(
                gold,
                j,
            ) by {
                lemma_fk_congruence(self.elements@, gold, j);
            }
        }
        let bc = self.n_bounding_cuboid(len);
        self._bounding_cuboid = bc;
        proof {
            assert forall|j: int|
                1 <= j < self.elements@.len() implies pos3(#[trigger] self.elements@[j]) == add3(
                pos3(self.elements@[j - 1]),
                dir3(self.elements@[j - 1]),
            ) by {
                assert(fk_pos(self.elements@, j) == add3(
                    fk_pos(self.elements@, j - 1),
                    fk_dir(self.elements@, j - 1),
                ));
            }
        }
    }

    /// Returns `true` iff two computed elements occupy the same lattice
    /// cell.  May only be queried once the geometry has been computed.
    pub fn check_overlaps(&self) -> (r: bool)
        requires
            self.wf(),
            self.positions_ok(),
        ensures
            r == overlap_spec(self@),
    {
        let len = self.elements.len();
        let mut i: usize = 0;
        while i < len
            invariant
                self.wf(),
                self.positions_ok(),
                len == self.elements@.len(),
                i <= len,
                forall|a: int, b: int|
                    0 <= a < b < len && a < i ==> pos3(#[trigger] self.elements@[a]) != pos3(
                        #[trigger] self.elements@[b],
                    ),
            decreases len - i,
        {
            let pi = self.elements[i]._position.unwrap();
            let mut j: usize = i + 1;
            while j < len
                invariant
                    self.wf(),
                    self.positions_ok(),
                    len == self.elements@.len(),
                    i < len,
                    i < j <= len,
                    pi@ == pos3(self.elements@[i as int]),
                    forall|b: int|
                        i < b < j ==> pos3(self.elements@[i as int]) != pos3(
                            #[trigger] self.elements@[b],
                        ),
                decreases len - j,
            {
                let pj = self.elements[j]._position.unwrap();
                if pi == pj {
                    proof {
                        assert(0 <= i < j < self@.len() && pos3(self@[i as int]) == pos3(
                            self@[j as int],
                        ));
                    }
                    return true;
                }
                j += 1;
            }
            i += 1;
        }
        false
    }

    /// The bounding cuboid of the first `n` elements: per axis, the number
    /// of unit cells their positions span (`max - min + 1`).  May only be
    /// queried once the geometry has been computed.
    pub fn n_bounding_cuboid(&self, n: usize) -> (r: IVec3)
        requires
            self.wf(),
            self.positions_ok(),
            1 <= n <= self@.len(),
        ensures
            r@ == bounding_spec(self@, n as int),
    {
        let ghost len = self.elements@.len() as int;
        let p0 = self.elements[0]._position.unwrap();
        let mut min_x = p0.x;
        let mut max_x = p0.x;
        let mut min_y = p0.y;
        let mut max_y = p0.y;
        let mut min_z = p0.z;
        let mut max_z = p0.z;
        proof {
            lemma_fk_wf(self@, 0);
        }
        let mut k: usize = 1;
        while k < n
            invariant
                self.wf(),
                self.positions_ok(),
                len == self.elements@.len(),
                1 <= k <= n <= len,
                min_x as int == lo_coord(self@, k as int, 0),
                max_x as int == hi_coord(self@, k as int, 0),
                min_y as int == lo_coord(self@, k as int, 1),
                max_y as int == hi_coord(self@, k as int, 1),
                min_z as int == lo_coord(self@, k as int, 2),
                max_z as int == hi_coord(self@, k as int, 2),
                -(len - 1) <= min_x as int <= max_x as int <= len - 1,
                -(len - 1) <= min_y as int <= max_y as int <= len - 1,
                -(len - 1) <= min_z as int <= max_z as int <= len - 1,
            decreases n - k,
        {
            proof {
                lemma_fk_wf(self@, k as int);
            }
            let p = self.elements[k]._position.unwrap();
            if p.x < min_x {
                min_x = p.x;
            }
            if p.x > max_x {
                max_x = p.x;
            }
            if p.y < min_y {
                min_y = p.y;
            }
            if p.y > max_y {
                max_y = p.y;
            }
            if p.z < min_z {
                min_z = p.z;
            }
            if p.z > max_z {
                max_z = p.z;
            }
            k += 1;
        }
        IVec3 { x: max_x - min_x + 1, y: max_y - min_y + 1, z: max_z - min_z + 1 }
    }

    /// How many corners the chain has.
    pub fn corner_count(&self) -> (r: usize)
        ensures
            r == self.corner_count_spec(),
    {
        self._corner_indices.len()
    }

    /// Read access to the `cindex`-th corner element.
    pub fn corner(&self, cindex: usize) -> (e: Element)
        requires
            self.wf(),
            cindex < self.corner_count_spec(),
        ensures
            e == self@[self.corners_seq()[cindex as int] as int],
            e.kind == ElementType::Corner,
    {
        self.elements[self._corner_indices[cindex]]
    }

    /// Advances the hinge of the `cindex`-th corner by one quarter turn.
    /// The derived geometry is left stale; callers must run
    /// `compute_positions` before querying it again.
    pub fn rotate_corner(&mut self, cindex: usize)
        requires
            old(self).wf(),
            cindex < old(self).corner_count_spec(),
        ensures
            final(self).wf(),
            final(self)@.len() == old(self)@.len(),
            final(self).corners_seq() == old(self).corners_seq(),
            final(self).moduli_seq() == old(self).moduli_seq(),
            final(self)._algo_state.cursor == old(self)._algo_state.cursor,
            final(self)._bounding_cuboid == old(self)._bounding_cuboid,
            forall|i: int|
                0 <= i < old(self)@.len() && i != old(self).corners_seq()[cindex as int] as int
                    ==> #[trigger] final(self)@[i] == old(self)@[i],
            final(self).hinge_at(cindex as int) == crate::vecs::rot2(
                old(self).hinge_at(cindex as int),
            ),
            forall|i: int|
                0 <= i < old(self)@.len() ==> (#[trigger] final(self)@[i]).kind == old(
                    self,
                )@[i].kind,
            forall|i: int|
                0 <= i < old(self)@.len() ==> ((#[trigger] final(self)@[i]).corner_orientation
                    is Some <==> old(self)@[i].corner_orientation is Some),
            forall|i: int|
                0 <= i < old(self)@.len() ==> (#[trigger] final(self)@[i])._position == old(
                    self,
                )@[i]._position && final(self)@[i]._direction == old(self)@[i]._direction,
    {
        let idx = self._corner_indices[cindex];
        let mut e = self.elements[idx];
        e.rotate_me();
        self.elements.set(idx, e);
    }

    /// One micro-step of the exhaustive search: a base-4 odometer over all
    /// corners but the first.  Corner `corners - 1 - cindex` is rotated for
    /// every `cindex` whose modulus `4^cindex` divides the cursor; then the
    /// cursor advances and the geometry is recomputed.  One full sweep takes
    /// `4^(corners - 1)` calls.
    pub fn rotate_one(&mut self)
        requires
            old(self).wf(),
            old(self).corner_count_spec() >= 1,
            old(self)._algo_state.cursor < usize::MAX,
        ensures
            final(self).wf(),
            final(self).computed(),
            final(self)@.len() == old(self)@.len(),
            final(self).corners_seq() == old(self).corners_seq(),
            final(self).moduli_seq() == old(self).moduli_seq(),
            forall|i: int|
                0 <= i < old(self)@.len() ==> (#[trigger] final(self)@[i]).kind == old(
                    self,
                )@[i].kind,
            final(self)._algo_state.cursor == old(self)._algo_state.cursor + 1,
            final(self).corner_hinges() == search::step_hinges(
                old(self).corner_hinges(),
                old(self)._algo_state.cursor as nat,
            ),
    {
        let ghost hs0 = self.corner_hinges();
        let ghost cur0n = self._algo_state.cursor as nat;
        let cursor0 = self._algo_state.cursor;
        self.advance_corners();
        self._algo_state.cursor = cursor0 + 1;
        let ghost mid = *self;
        self.compute_positions();
        proof {
            let ghost corners = mid.corner_count_spec();
            assert forall|k: int| 0 <= k < corners implies self.hinge_at(k) == mid.hinge_at(
                k,
            ) by {
                assert(0 < mid.corners_seq()[k] < mid@.len());
            }
            assert forall|k: int| 0 <= k < corners implies self.corner_hinges()[k]
                == search::step_hinges(hs0, cur0n)[k] by {
                assert(self.corner_hinges()[k] == self.hinge_at(k));
                assert(mid.corner_hinges()[k] == mid.hinge_at(k));
            }
            assert(self.corner_hinges() =~= search::step_hinges(hs0, cur0n));
        }
    }

    /// One sweep of the odometer's rotations at the current cursor value:
    /// corner `corners - 1 - cindex` is rotated for every `cindex` whose
    /// modulus `4^cindex` divides the cursor.  The cursor itself and the
    /// derived geometry are left untouched.
    fn advance_corners(&mut self)
        requires
            old(self).wf(),
            old(self).corner_count_spec() >= 1,
        ensures
            final(self).wf(),
            final(self)@.len() == old(self)@.len(),
            final(self).corners_seq() == old(self).corners_seq(),
            final(self).moduli_seq() == old(self).moduli_seq(),
            final(self)._algo_state.cursor == old(self)._algo_state.cursor,
            final(self)._bounding_cuboid == old(self)._bounding_cuboid,
            forall|i: int|
                0 <= i < old(self)@.len() ==> (#[trigger] final(self)@[i]).kind == old(
                    self,
                )@[i].kind,
            final(self).corner_hinges() == search::step_hinges(
                old(self).corner_hinges(),
                old(self)._algo_state.cursor as nat,
            ),
    {
        let ghost gold = self@;
        let ghost hs0 = self.corner_hinges();
        let ghost cur0n = self._algo_state.cursor as nat;
        let ghost cis0 = self.corners_seq();
        let ghost mod0 = self.moduli_seq();
        let cursor0 = self._algo_state.cursor;
        let ghost bc0 = self._bounding_cuboid;
        let corners = self._corner_indices.len();
        let mut cindex: usize = 0;
        while cindex < corners - 1
            invariant
                self.wf(),
                corners == self.corner_count_spec(),
                corners >= 1,
                cindex <= corners - 1,
                self@.len() == gold.len(),
                self.corners_seq() == cis0,
                self.moduli_seq() == mod0,
                self._algo_state.cursor == cursor0,
                self._bounding_cuboid == bc0,
                cur0n == cursor0 as nat,
                hs0.len() == corners,
                forall|i: int|
                    0 <= i < gold.len() ==> (#[trigger] self@[i]).kind == gold[i].kind,
                forall|k: int|
                    0 <= k < corners ==> #[trigger] self.hinge_at(k) == (if corners - cindex
                        <= k && cur0n % pow4((corners - 1 - k) as nat) == 0 {
                        crate::vecs::rot2(hs0[k])
                    } else {
                        hs0[k]
                    }),
            decreases corners - 1 - cindex,
        {
            let target = corners - cindex - 1;
            let m = self._moduli[cindex];
            proof {
                search::lemma_pow4_pos(cindex as nat);
                assert(m as nat == pow4(cindex as nat));
                assert((corners - 1 - target) as nat == cindex as nat);
            }
            let ghost pre = *self;
            let rotated = self._algo_state.cursor % m == 0;
            if rotated {
                self.rotate_corner(target);
            }
            proof {
                assert(rotated <==> cur0n % pow4(cindex as nat) == 0);
                assert forall|k: int| 0 <= k < corners && k != target implies self.hinge_at(k)
                    == pre.hinge_at(k) by {
                    if rotated {
                        if k < target {
                            assert(pre.corners_seq()[k] < pre.corners_seq()[target as int]);
                        } else {
                            assert(pre.corners_seq()[target as int] < pre.corners_seq()[k]);
                        }
                    }
                }
                assert forall|k: int| 0 <= k < corners implies self.hinge_at(k) == (if corners
                    - (cindex + 1) <= k && cur0n % pow4((corners - 1 - k) as nat) == 0 {
                    crate::vecs::rot2(hs0[k])
                } else {
                    hs0[k]
                }) by {
                    if k == target {
                        assert(pre.hinge_at(k) == hs0[k]);
                        if rotated {
                            assert(self.hinge_at(k) == crate::vecs::rot2(pre.hinge_at(k)));
                        } else {
                            assert(self.hinge_at(k) == pre.hinge_at(k));
                        }
                    } else {
                        assert(self.hinge_at(k) == pre.hinge_at(k));
                        assert(corners - (cindex + 1) <= k <==> (corners - cindex <= k || k
                            == target));
                    }
                }
            }
            cindex += 1;
        }
        proof {
            assert forall|k: int| 0 <= k < corners implies self.corner_hinges()[k]
                == search::step_hinges(hs0, cur0n)[k] by {
                assert(self.corner_hinges()[k] == self.hinge_at(k));
            }
            assert(self.corner_hinges() =~= search::step_hinges(hs0, cur0n));
        }
    }

    /// A greedy, order-dependent local repair pass: for each corner but the
    /// last, if the prefix of the chain up to the next corner spans more
    /// than 3 cells on some axis, the corner is rotated up to 4 times,
    /// stopping early once the chain is overlap-free.  Best-effort only: it
    /// promises nothing about the result beyond leaving the chain
    /// well-formed with consistent geometry, and may leave it unsolved.
    pub fn fold_in(&mut self)
        requires
            old(self).wf(),
            old(self).computed(),
            old(self).corner_count_spec() >= 1,
        ensures
            final(self).wf(),
            final(self).computed(),
            final(self)@.len() == old(self)@.len(),
            final(self).corners_seq() == old(self).corners_seq(),
            final(self).moduli_seq() == old(self).moduli_seq(),
            final(self)._algo_state.cursor == old(self)._algo_state.cursor,
            forall|i: int|
                0 <= i < old(self)@.len() ==> (#[trigger] final(self)@[i]).kind == old(
                    self,
                )@[i].kind,
    {
        let ghost gold = self@;
        let ghost cis0 = self.corners_seq();
        let ghost mod0 = self.moduli_seq();
        let ghost cur0 = self._algo_state.cursor;
        let corners = self._corner_indices.len();
        let mut cindex: usize = 0;
        while cindex < corners - 1
            invariant
                self.wf(),
                self.computed(),
                corners == self.corner_count_spec(),
                corners >= 1,
                cindex <= corners - 1,
                self@.len() == gold.len(),
                self.corners_seq() == cis0,
                self.moduli_seq() == mod0,
                self._algo_state.cursor == cur0,
                forall|i: int|
                    0 <= i < gold.len() ==> (#[trigger] self@[i]).kind == gold[i].kind,
            decreases corners - 1 - cindex,
        {
            let nidx = self._corner_indices[cindex + 1];
            let n_cuboid = self.n_bounding_cuboid(nidx + 1);
            if n_cuboid.x > 3 || n_cuboid.y > 3 || n_cuboid.z > 3 {
                let mut attempt: usize = 0;
                while attempt < 4
                    invariant
                        self.wf(),
                        self.computed(),
                        corners == self.corner_count_spec(),
                        cindex < corners,
                        attempt <= 4,
                        self@.len() == gold.len(),
                        self.corners_seq() == cis0,
                        self.moduli_seq() == mod0,
                        self._algo_state.cursor == cur0,
                        forall|i: int|
                            0 <= i < gold.len() ==> (#[trigger] self@[i]).kind == gold[i].kind,
                    decreases 4 - attempt,
                {
                    self.rotate_corner(cindex);
                    self.compute_positions();
                    if !self.check_overlaps() {
                        break;
                    }
                    attempt += 1;
                }
            }
            cindex += 1;
        }
    }
}

/// Recomputing the geometry of an unchanged chain is deterministic: two
/// well-formed computed chains that agree on every kind and hinge state
/// agree on every position, on the overlap verdict, and on the bounding
/// sizes of every prefix.
pub proof fn lemma_recompute_deterministic(c1: NetconomyCube, c2: NetconomyCube)
    requires
        c1.wf(),
        c2.wf(),
        c1.positions_ok(),
        c2.positions_ok(),
        c1@.len() == c2@.len(),
        forall|i: int|
            0 <= i < c1@.len() ==> (#[trigger] c1@[i]).kind == c2@[i].kind
                && c1@[i].corner_orientation == c2@[i].corner_orientation,
    ensures
        forall|i: int|
            0 <= i < c1@.len() ==> pos3(#[trigger] c1@[i]) == pos3(c2@[i]) && dir3(c1@[i])
                == dir3(c2@[i]),
        overlap_spec(c1@) == overlap_spec(c2@),
        forall|n: int|
            1 <= n <= c1@.len() ==> #[trigger] bounding_spec(c1@, n) == bounding_spec(c2@, n),
{
    assert forall|i: int|
        0 <= i < c1@.len() implies pos3(#[trigger] c1@[i]) == pos3(c2@[i]) && dir3(c1@[i])
        == dir3(c2@[i]) by {
        lemma_fk_congruence(c1@, c2@, i);
    }
    if overlap_spec(c1@) {
        let (i, j) = choose|i: int, j: int|
            0 <= i < j < c1@.len() && pos3(c1@[i]) == pos3(c1@[j]);
        assert(pos3(c2@[i]) == pos3(c2@[j]));
        assert(overlap_spec(c2@));
    }
    if overlap_spec(c2@) {
        let (i, j) = choose|i: int, j: int|
            0 <= i < j < c2@.len() && pos3(c2@[i]) == pos3(c2@[j]);
        assert(pos3(c1@[i]) == pos3(c1@[j]));
        assert(overlap_spec(c1@));
    }
    assert forall|n: int|
        1 <= n <= c1@.len() implies #[trigger] bounding_spec(c1@, n) == bounding_spec(
        c2@,
        n,
    ) by {
        lemma_extent_congruence(c1@, c2@, n, 0);
        lemma_extent_congruence(c1@, c2@, n, 1);
        lemma_extent_congruence(c1@, c2@, n, 2);
    }
}

/// Two element sequences with pointwise equal positions have the same
/// per-axis extents over every prefix.
proof fn lemma_extent_congruence(s1: Seq<Element>, s2: Seq<Element>, n: int, axis: int)
    requires
        s1.len() == s2.len(),
        forall|i: int| 0 <= i < s1.len() ==> pos3(#[trigger] s1[i]) == pos3(s2[i]),
        1 <= n <= s1.len(),
    ensures
        lo_coord(s1, n, axis) == lo_coord(s2, n, axis),
        hi_coord(s1, n, axis) == hi_coord(s2, n, axis),
    decreases n,
{
    if n > 1 {
        lemma_extent_congruence(s1, s2, n - 1, axis);
    }
}

/// Per-axis extents only widen as the prefix grows.
proof fn lemma_extent_monotonic(s: Seq<Element>, n1: int, n2: int, axis: int)
    requires
        1 <= n1 <= n2 <= s.len(),
    ensures
        lo_coord(s, n2, axis) <= lo_coord(s, n1, axis),
        hi_coord(s, n1, axis) <= hi_coord(s, n2, axis),
    decreases n2,
{
    if n1 < n2 {
        lemma_extent_monotonic(s, n1, n2 - 1, axis);
    }
}

/// The bounding cuboid of a prefix is componentwise non-decreasing as the
/// prefix grows.
pub proof fn lemma_bounding_prefix_monotonic(s: Seq<Element>, n1: int, n2: int)
    requires
        1 <= n1 <= n2 <= s.len(),
    ensures
        bounding_spec(s, n1).0 <= bounding_spec(s, n2).0,
        bounding_spec(s, n1).1 <= bounding_spec(s, n2).1,
        bounding_spec(s, n1).2 <= bounding_spec(s, n2).2,
{
    lemma_extent_monotonic(s, n1, n2, 0);
    lemma_extent_monotonic(s, n1, n2, 1);
    lemma_extent_monotonic(s, n1, n2, 2);
}

/// Every corner hinge of a well-formed chain is canonical, so the search
/// laws (full period and distinctness of the counter states) apply to its
/// hinge sequence.
pub proof fn lemma_chain_hinges_canonical(c: NetconomyCube)
    requires
        c.wf(),
    ensures
        c.corner_hinges().len() == c.corner_count_spec(),
        forall|ci: int|
            0 <= ci < c.corner_count_spec() ==> is_unit2(#[trigger] c.corner_hinges()[ci]),
{
    assert forall|ci: int|
        0 <= ci < c.corner_count_spec() implies is_unit2(#[trigger] c.corner_hinges()[ci]) by {
        assert(c@[c.corners_seq()[ci] as int].kind == ElementType::Corner);
    }
}

} // verus!

