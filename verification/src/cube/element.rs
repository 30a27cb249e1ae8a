//! A single chain segment: its fixed kind, its hinge orientation (corners
//! only), and its derived placement (position + outgoing direction), which
//! stays undefined until a forward-kinematics pass reaches it.

use vstd::prelude::*;
use crate::vecs::{rot2, IVec2, IVec3};

verus! {

/// Hook for a presentation layer: anything that can render itself.
pub trait Drawable {
    fn draw(&self);
}

/// The fixed kind of a chain segment.
#[derive(Debug, Clone, Copy, PartialEq, Eq, Structural)]
pub enum ElementType {
    Straight,
    Corner,
}

/// One segment of the chain.
///
/// `corner_orientation` is present iff the element is a corner; `_position`
/// and `_direction` are both `None` until the forward pass places the
/// element, and both `Some` afterwards.
#[derive(Debug, Clone, Copy)]
pub struct Element {
    pub kind: ElementType,
    pub corner_orientation: Option<IVec2>,
    pub _position: Option<IVec3>,
    pub _direction: Option<IVec3>,
}

/// The hinge orientation of an element, as a mathematical pair; `(0, 0)` when
/// absent (straight elements never read it).
pub open spec fn hinge2(e: Element) -> (int, int) {
    match e.corner_orientation {
        Option::Some(h) => h@,
        Option::None => (0int, 0int),
    }
}

/// The stored position of an element, as a mathematical triple; `(0, 0, 0)`
/// when not yet computed.
pub open spec fn pos3(e: Element) -> (int, int, int) {
    match e._position {
        Option::Some(p) => p@,
        Option::None => (0int, 0int, 0int),
    }
}

/// The stored outgoing direction of an element, as a mathematical triple;
/// `(0, 0, 0)` when not yet computed.
pub open spec fn dir3(e: Element) -> (int, int, int) {
    match e._direction {
        Option::Some(d) => d@,
        Option::None => (0int, 0int, 0int),
    }
}

impl Element {
    /// Records the placement the forward pass derived for this element.
    pub fn set(&mut self, pos: IVec3, dir: IVec3)
        ensures
            final(self).kind == old(self).kind,
            final(self).corner_orientation == old(self).corner_orientation,
            final(self)._position == Option::Some(pos),
            final(self)._direction == Option::Some(dir),
    {
        self._position = Some(pos);
        self._direction = Some(dir);
    }

    /// Advances this corner's hinge by one quarter turn: `(x, y) -> (y, -x)`.
    /// Only corners may be rotated; the placement fields are left untouched
    /// (stale until the next forward pass).
    pub fn rotate_me(&mut self)
        requires
            old(self).kind == ElementType::Corner,
            old(self).corner_orientation is Some,
            old(self).corner_orientation->0.x > i32::MIN,
        ensures
            final(self).kind == old(self).kind,
            final(self)._position == old(self)._position,
            final(self)._direction == old(self)._direction,
            final(self).corner_orientation is Some,
            hinge2(*final(self)) == rot2(hinge2(*old(self))),
    {
        let h = self.corner_orientation.unwrap();
        self.corner_orientation = Some(h.rotated());
    }

    /// A straight segment whose placement is not yet computed.
    pub fn unknown_straight() -> (e: Element)
        ensures
            e.kind == ElementType::Straight,
            e.corner_orientation is None,
            e._position is None,
            e._direction is None,
    {
        Element {
            kind: ElementType::Straight,
            corner_orientation: None,
            _position: None,
            _direction: None,
        }
    }

    /// A corner segment in the initial hinge orientation `(1, 0)`, placement
    /// not yet computed.
    pub fn unknown_corner() -> (e: Element)
        ensures
            e.kind == ElementType::Corner,
            e.corner_orientation is Some,
            hinge2(e) == (1int, 0int),
            e._position is None,
            e._direction is None,
    {
        Element {
            kind: ElementType::Corner,
            corner_orientation: Some(IVec2 { x: 1, y: 0 }),
            _position: None,
            _direction: None,
        }
    }

    /// The fixed synthetic anchor: a straight segment at the origin pointing
    /// along the positive x axis.
    pub fn first_element() -> (e: Element)
        ensures
            e.kind == ElementType::Straight,
            e.corner_orientation is None,
            e._position == Option::Some(IVec3 { x: 0, y: 0, z: 0 }),
            e._direction == Option::Some(IVec3 { x: 1, y: 0, z: 0 }),
    {
        Element {
            kind: ElementType::Straight,
            corner_orientation: None,
            _position: Some(IVec3 { x: 0, y: 0, z: 0 }),
            _direction: Some(IVec3 { x: 1, y: 0, z: 0 }),
        }
    }

    /// The synthetic terminator: a straight segment the forward pass places
    /// one cell beyond the last real segment.
    pub fn last_element() -> (e: Element)
        ensures
            e.kind == ElementType::Straight,
            e.corner_orientation is None,
            e._position is None,
            e._direction is None,
    {
        Element {
            kind: ElementType::Straight,
            corner_orientation: None,
            _position: None,
            _direction: None,
        }
    }
}

} // verus!
