//! The sky projection as the tessellation sees it.
//!
//! Executable code receives the projection as a function from a longitude and
//! a latitude, both in micro-arcseconds, to the device vertex of that point of
//! the sphere, or to `None` where the projection is undefined. Contracts
//! speak of a chart: the mathematical function that such a projection
//! computes.

use vstd::prelude::*;
use crate::vertex::Vertex;

verus! {

/// Whether `projection` may be called at every point of the sphere.
pub open spec fn total<F: Fn(i64, i64) -> Option<Vertex>>(projection: F) -> bool {
    forall|lon: i64, lat: i64| #[trigger] projection.requires((lon, lat))
}

/// Whether `projection` computes `chart`: whatever a call returns is the
/// value of the chart at the arguments. A projection that follows a chart is
/// a pure function of its arguments.
pub open spec fn follows<F: Fn(i64, i64) -> Option<Vertex>>(
    projection: F,
    chart: spec_fn(int, int) -> Option<Vertex>,
) -> bool {
    forall|lon: i64, lat: i64, v: Option<Vertex>| #[trigger]
        projection.ensures((lon, lat), v) ==> v == chart(lon as int, lat as int)
}

} // verus!
