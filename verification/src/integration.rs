//! Which components an integration step updates on each vessel.
//!
//! A step works in the dimension of the first vessel of the fleet (none when
//! the fleet is empty). On each vessel it kicks the velocity components below
//! that dimension that the vessel has, and drifts the position components
//! below it that the vessel has.

use vstd::prelude::*;
use crate::fleet::VesselShape;
use crate::perturbation::min_usize;

verus! {

/// How many components of one vessel a step updates.
pub struct StepWidth {
    /// Velocity components that receive a kick.
    pub kick: usize,
    /// Position components that drift.
    pub drift: usize,
}

/// The working dimension of a step: that of the first vessel, or 0.
pub open spec fn step_dims(vessels: Seq<VesselShape>) -> usize {
    if vessels.len() > 0 {
        vessels[0].position_dims
    } else {
        0
    }
}

/// The widths of a step on each vessel of `vessels`, in order.
pub fn step_widths(vessels: &Vec<VesselShape>) -> (r: Vec<StepWidth>)
    ensures
        r@.len() == vessels@.len(),
        forall|i: int|
            0 <= i < r@.len() ==> {
                &&& #[trigger] r@[i].kick == min_usize(step_dims(vessels@), vessels@[i].velocity_dims)
                &&& r@[i].drift == min_usize(step_dims(vessels@), vessels@[i].position_dims)
            },
        forall|i: int|
            0 <= i < r@.len() ==> {
                &&& #[trigger] r@[i].kick <= vessels@[0].position_dims
                &&& r@[i].kick <= vessels@[i].velocity_dims
                &&& (r@[i].kick == vessels@[0].position_dims || r@[i].kick == vessels@[i].velocity_dims)
                &&& r@[i].drift <= vessels@[0].position_dims
                &&& r@[i].drift <= vessels@[i].position_dims
                &&& (r@[i].drift == vessels@[0].position_dims || r@[i].drift
                    == vessels@[i].position_dims)
            },
{
    let n = vessels.len();
    let dim: usize = if n > 0 {
        vessels[0].position_dims
    } else {
        0
    };
    let mut r: Vec<StepWidth> = Vec::new();
    let mut i: usize = 0;
    while i < n
        invariant
            n == vessels@.len(),
            dim == step_dims(vessels@),
            i <= n,
            r@.len() == i,
            forall|k: int|
                0 <= k < i ==> {
                    &&& #[trigger] r@[k].kick == min_usize(dim, vessels@[k].velocity_dims)
                    &&& r@[k].drift == min_usize(dim, vessels@[k].position_dims)
                },
        decreases n - i,
    {
        let v = &vessels[i];
        let kick = if dim <= v.velocity_dims {
            dim
        } else {
            v.velocity_dims
        };
        let drift = if dim <= v.position_dims {
            dim
        } else {
            v.position_dims
        };
        r.push(StepWidth { kick, drift });
        i = i + 1;
    }
    r
}

/// A step on a non-empty fleet updates, on each vessel, as many components as
/// both the first vessel's position and the vessel's own vector have: the
/// kick width is the smaller of the first vessel's position dimension and the
/// vessel's velocity dimension, the drift width the smaller of the first
/// vessel's position dimension and the vessel's position dimension.
pub proof fn lemma_step_width_bounds(vessels: Seq<VesselShape>, i: int)
    requires
        0 <= i < vessels.len(),
    ensures
        min_usize(step_dims(vessels), vessels[i].velocity_dims) <= vessels[0].position_dims,
        min_usize(step_dims(vessels), vessels[i].velocity_dims) <= vessels[i].velocity_dims,
        min_usize(step_dims(vessels), vessels[i].velocity_dims) == vessels[0].position_dims
            || min_usize(step_dims(vessels), vessels[i].velocity_dims) == vessels[i].velocity_dims,
        min_usize(step_dims(vessels), vessels[i].position_dims) <= vessels[0].position_dims,
        min_usize(step_dims(vessels), vessels[i].position_dims) <= vessels[i].position_dims,
        min_usize(step_dims(vessels), vessels[i].position_dims) == vessels[0].position_dims
            || min_usize(step_dims(vessels), vessels[i].position_dims) == vessels[i].position_dims,
{
}

/// On a fleet whose vessels all have `d` position and `d` velocity
/// components, a step kicks and drifts every component of every vessel.
pub proof fn lemma_uniform_fleet_full_step(vessels: Seq<VesselShape>, d: usize)
    requires
        vessels.len() > 0,
        forall|i: int|
            0 <= i < vessels.len() ==> #[trigger] vessels[i].position_dims == d
                && vessels[i].velocity_dims == d,
    ensures
        forall|i: int|
            0 <= i < vessels.len() ==> min_usize(step_dims(vessels), #[trigger] vessels[i].velocity_dims)
                == d && min_usize(step_dims(vessels), vessels[i].position_dims) == d,
{
    assert(vessels[0].position_dims == d);
    assert forall|i: int| 0 <= i < vessels.len() implies min_usize(
        step_dims(vessels),
        #[trigger] vessels[i].velocity_dims,
    ) == d && min_usize(step_dims(vessels), vessels[i].position_dims) == d by {
        assert(vessels[i].position_dims == d && vessels[i].velocity_dims == d);
    }
}

} // verus!
