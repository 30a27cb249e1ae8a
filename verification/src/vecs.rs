//! Integer lattice vectors used throughout the puzzle geometry.
//!
//! Hinge orientations are 2-component integer vectors; grid positions and
//! directions are 3-component integer vectors.  The spec-level model works
//! over `int` tuples, so contracts never depend on machine-word overflow.

use vstd::prelude::*;

verus! {

/// A 2D integer vector: the orientation of a corner's hinge.
#[derive(Clone, Copy, Debug, PartialEq, Eq, Structural)]
pub struct IVec2 {
    pub x: i32,
    pub y: i32,
}

/// A 3D integer vector: a lattice position or an axis direction.
#[derive(Clone, Copy, Debug, PartialEq, Eq, Structural)]
pub struct IVec3 {
    pub x: i32,
    pub y: i32,
    pub z: i32,
}

impl View for IVec2 {
    type V = (int, int);

    open spec fn view(&self) -> (int, int) {
        (self.x as int, self.y as int)
    }
}

impl View for IVec3 {
    type V = (int, int, int);

    open spec fn view(&self) -> (int, int, int) {
        (self.x as int, self.y as int, self.z as int)
    }
}

/// Componentwise sum of two 3-vectors.
pub open spec fn add3(a: (int, int, int), b: (int, int, int)) -> (int, int, int) {
    (a.0 + b.0, a.1 + b.1, a.2 + b.2)
}

/// Scalar multiple of a 3-vector.
pub open spec fn scale3(k: int, v: (int, int, int)) -> (int, int, int) {
    (k * v.0, k * v.1, k * v.2)
}

/// The cross product of two 3-vectors.
pub open spec fn cross3(a: (int, int, int), b: (int, int, int)) -> (int, int, int) {
    (a.1 * b.2 - a.2 * b.1, a.2 * b.0 - a.0 * b.2, a.0 * b.1 - a.1 * b.0)
}

/// The dot product of two 3-vectors.
pub open spec fn dot3(a: (int, int, int), b: (int, int, int)) -> int {
    a.0 * b.0 + a.1 * b.1 + a.2 * b.2
}

/// The hinge combination `h.0 * e1 + h.1 * e2`: the outgoing direction a
/// corner selects in the plane spanned by `e1` and `e2`.
pub open spec fn comb3(h: (int, int), e1: (int, int, int), e2: (int, int, int)) -> (
    int,
    int,
    int,
) {
    add3(scale3(h.0, e1), scale3(h.1, e2))
}

/// One quarter-turn of a hinge: `(x, y) -> (y, -x)`.
pub open spec fn rot2(h: (int, int)) -> (int, int) {
    (h.1, -h.0)
}

/// `rot2` applied `n` times.
pub open spec fn rot2_iter(h: (int, int), n: nat) -> (int, int)
    decreases n,
{
    if n == 0 {
        h
    } else {
        rot2_iter(rot2(h), (n - 1) as nat)
    }
}

/// One of the 4 canonical hinge orientations.
pub open spec fn is_unit2(h: (int, int)) -> bool {
    ||| h == (1int, 0int)
    ||| h == (0int, 1int)
    ||| h == (-1int, 0int)
    ||| h == (0int, -1int)
}

/// One of the 6 signed unit axis vectors.
pub open spec fn is_unit3(v: (int, int, int)) -> bool {
    ||| v == (1int, 0int, 0int)
    ||| v == (-1int, 0int, 0int)
    ||| v == (0int, 1int, 0int)
    ||| v == (0int, -1int, 0int)
    ||| v == (0int, 0int, 1int)
    ||| v == (0int, 0int, -1int)
}

/// The cross product of two orthogonal signed unit vectors is again a signed
/// unit vector, orthogonal to both factors.
pub proof fn lemma_cross_unit(a: (int, int, int), b: (int, int, int))
    requires
        is_unit3(a),
        is_unit3(b),
        dot3(a, b) == 0,
    ensures
        is_unit3(cross3(a, b)),
        dot3(cross3(a, b), a) == 0,
        dot3(cross3(a, b), b) == 0,
{
    let (a0, a1, a2) = a;
    let (b0, b1, b2) = b;
    assert((a1 * b2 - a2 * b1) * a0 + (a2 * b0 - a0 * b2) * a1 + (a0 * b1 - a1 * b0) * a2
        == 0) by (nonlinear_arith);
    assert((a1 * b2 - a2 * b1) * b0 + (a2 * b0 - a0 * b2) * b1 + (a0 * b1 - a1 * b0) * b2
        == 0) by (nonlinear_arith);
}

/// A hinge combination of two orthogonal signed unit vectors by a canonical
/// hinge is one of `e1`, `-e1`, `e2`, `-e2`: again a signed unit vector.
pub proof fn lemma_comb_unit(h: (int, int), e1: (int, int, int), e2: (int, int, int))
    requires
        is_unit2(h),
        is_unit3(e1),
        is_unit3(e2),
    ensures
        is_unit3(comb3(h, e1, e2)),
{
    if h == (1int, 0int) {
        assert(comb3(h, e1, e2) == e1);
    } else if h == (0int, 1int) {
        assert(comb3(h, e1, e2) == e2);
    } else if h == (-1int, 0int) {
        assert(comb3(h, e1, e2) == scale3(-1, e1));
    } else {
        assert(comb3(h, e1, e2) == scale3(-1, e2));
    }
}

/// Iterated quarter-turns compose additively.
pub proof fn lemma_rot2_iter_add(h: (int, int), a: nat, b: nat)
    ensures
        rot2_iter(h, a + b) == rot2_iter(rot2_iter(h, a), b),
    decreases a,
{
    if a > 0 {
        lemma_rot2_iter_add(rot2(h), (a - 1) as nat, b);
    }
}

/// Four quarter-turns return any hinge to its original state.
pub proof fn lemma_rot2_cycle(h: (int, int))
    ensures
        rot2(rot2(rot2(rot2(h)))) == h,
        rot2_iter(h, 4) == h,
{
    reveal_with_fuel(rot2_iter, 5);
}

/// Only the iteration count modulo 4 matters.
pub proof fn lemma_rot2_iter_mod(h: (int, int), n: nat)
    ensures
        rot2_iter(h, n) == rot2_iter(h, n % 4),
    decreases n,
{
    if n >= 4 {
        lemma_rot2_iter_add(h, 4, (n - 4) as nat);
        lemma_rot2_cycle(h);
        lemma_rot2_iter_mod(h, (n - 4) as nat);
        assert((n - 4) % 4 == n % 4);
    }
}

/// Within one cycle, the four orientations reached from a canonical hinge
/// are pairwise distinct.
pub proof fn lemma_rot2_iter_distinct(h: (int, int), a: nat, b: nat)
    requires
        is_unit2(h),
        a < 4,
        b < 4,
        a != b,
    ensures
        rot2_iter(h, a) != rot2_iter(h, b),
{
    reveal_with_fuel(rot2_iter, 5);
}

/// A canonical hinge orientation stays canonical under a quarter-turn:
/// rotation never leaves the 4-element cycle.
pub proof fn lemma_rot2_canonical(h: (int, int))
    requires
        is_unit2(h),
    ensures
        is_unit2(rot2(h)),
{
}

/// The dot product is symmetric.
pub proof fn lemma_dot_comm(a: (int, int, int), b: (int, int, int))
    ensures
        dot3(a, b) == dot3(b, a),
{
}

/// The positive x and y axes are orthogonal.
pub proof fn lemma_dot_x_y()
    ensures
        dot3((1int, 0int, 0int), (0int, 1int, 0int)) == 0,
{
}

/// A hinge combination of two vectors orthogonal to `d` stays orthogonal to
/// `d`.
pub proof fn lemma_comb_orth(
    h: (int, int),
    e1: (int, int, int),
    e2: (int, int, int),
    d: (int, int, int),
)
    requires
        is_unit2(h),
        dot3(e1, d) == 0,
        dot3(e2, d) == 0,
    ensures
        dot3(comb3(h, e1, e2), d) == 0,
{
    let (x0, x1, x2) = e1;
    let (y0, y1, y2) = e2;
    let (d0, d1, d2) = d;
    assert((-1 * x0) * d0 + (-1 * x1) * d1 + (-1 * x2) * d2 == -(x0 * d0 + x1 * d1 + x2
        * d2)) by (nonlinear_arith);
    assert((-1 * y0) * d0 + (-1 * y1) * d1 + (-1 * y2) * d2 == -(y0 * d0 + y1 * d1 + y2
        * d2)) by (nonlinear_arith);
    if h == (1int, 0int) {
        assert(comb3(h, e1, e2) == e1);
    } else if h == (0int, 1int) {
        assert(comb3(h, e1, e2) == e2);
    } else if h == (-1int, 0int) {
        assert(comb3(h, e1, e2) == scale3(-1, e1));
        assert(dot3(scale3(-1, e1), d) == (-1 * x0) * d0 + (-1 * x1) * d1 + (-1 * x2) * d2);
    } else {
        assert(comb3(h, e1, e2) == scale3(-1, e2));
        assert(dot3(scale3(-1, e2), d) == (-1 * y0) * d0 + (-1 * y1) * d1 + (-1 * y2) * d2);
    }
}

impl IVec2 {
    /// Quarter-turn rotation of a hinge orientation.
    pub fn rotated(self) -> (r: IVec2)
        requires
            self.x > i32::MIN,
        ensures
            r@ == rot2(self@),
    {
        IVec2 { x: self.y, y: -self.x }
    }
}

impl IVec3 {
    /// Componentwise sum; the caller must rule out machine overflow.
    pub fn vadd(self, o: IVec3) -> (r: IVec3)
        requires
            i32::MIN <= self@.0 + o@.0 <= i32::MAX,
            i32::MIN <= self@.1 + o@.1 <= i32::MAX,
            i32::MIN <= self@.2 + o@.2 <= i32::MAX,
        ensures
            r@ == add3(self@, o@),
    {
        IVec3 { x: self.x + o.x, y: self.y + o.y, z: self.z + o.z }
    }

    /// Cross product of two signed unit vectors.
    pub fn cross(self, o: IVec3) -> (r: IVec3)
        requires
            is_unit3(self@),
            is_unit3(o@),
        ensures
            r@ == cross3(self@, o@),
    {
        IVec3 {
            x: self.y * o.z - self.z * o.y,
            y: self.z * o.x - self.x * o.z,
            z: self.x * o.y - self.y * o.x,
        }
    }

    /// The direction `h.x * e1 + h.y * e2` a corner's hinge selects.
    pub fn hinge_comb(h: IVec2, e1: IVec3, e2: IVec3) -> (r: IVec3)
        requires
            is_unit2(h@),
            is_unit3(e1@),
            is_unit3(e2@),
        ensures
            r@ == comb3(h@, e1@, e2@),
    {
        IVec3 {
            x: h.x * e1.x + h.y * e2.x,
            y: h.x * e1.y + h.y * e2.y,
            z: h.x * e1.z + h.y * e2.z,
        }
    }
}

/// Convenience constructor mirroring the usual `(x, y)` notation.
pub fn ivec2(x: i32, y: i32) -> (r: IVec2)
    ensures
        r@ == (x as int, y as int),
{
    IVec2 { x, y }
}

/// Convenience constructor mirroring the usual `(x, y, z)` notation.
pub fn ivec3(x: i32, y: i32, z: i32) -> (r: IVec3)
    ensures
        r@ == (x as int, y as int, z as int),
{
    IVec3 { x, y, z }
}

} // verus!
