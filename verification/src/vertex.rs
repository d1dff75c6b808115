//! Vertices of the device plane.

use vstd::prelude::*;

verus! {

/// Largest magnitude of a device coordinate, in device units.
///
/// The bound keeps every product that the turn geometry forms within 128
/// bits. How many device units make up the visible screen is the caller's
/// choice.
pub const COORD_LIMIT: i32 = 67_108_864;

/// A point of the device plane.
///
/// Both coordinates lie within `COORD_LIMIT` of the origin: a projected
/// point further out cannot be represented and is treated by callers as
/// absent.
#[derive(Clone, Copy, Debug, PartialEq, Eq)]
pub struct Vertex {
    x: i32,
    y: i32,
}

/// Whether `c` is a coordinate that a vertex can hold.
pub open spec fn is_coord(c: int) -> bool {
    -COORD_LIMIT <= c <= COORD_LIMIT
}

impl View for Vertex {
    type V = (int, int);

    /// The coordinates as mathematical integers, abscissa first.
    closed spec fn view(&self) -> (int, int) {
        (self.x as int, self.y as int)
    }
}

impl Vertex {
    /// Every vertex that executable code holds has coordinates in range.
    #[verifier::type_invariant]
    pub open spec fn in_device_range(self) -> bool {
        is_coord(self@.0) && is_coord(self@.1)
    }

    /// The vertex at `(x, y)`, or `None` where a coordinate is out of range.
    pub fn new(x: i32, y: i32) -> (v: Option<Vertex>)
        ensures
            v is Some <==> is_coord(x as int) && is_coord(y as int),
            v is Some ==> v.unwrap()@ == (x as int, y as int),
    {
        if -COORD_LIMIT <= x && x <= COORD_LIMIT && -COORD_LIMIT <= y && y <= COORD_LIMIT {
            Some(Vertex { x, y })
        } else {
            None
        }
    }

    /// The abscissa.
    pub fn x(&self) -> (x: i32)
        ensures
            x == self@.0,
            is_coord(x as int),
    {
        proof {
            use_type_invariant(self);
        }
        self.x
    }

    /// The ordinate.
    pub fn y(&self) -> (y: i32)
        ensures
            y == self@.1,
            is_coord(y as int),
    {
        proof {
            use_type_invariant(self);
        }
        self.y
    }
}

} // verus!
