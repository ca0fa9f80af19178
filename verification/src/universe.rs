//! The body registry: an ordered collection of orbiting bodies.
//!
//! Bodies are appended, never removed, so positional indices are stable for
//! the registry's lifetime.  Each tick forwards one absolute elapsed time to
//! every body in insertion order; the bodies are independent, so the order
//! affects nothing but the positional-indexing contract with consumers.

use vstd::prelude::*;

verus! {

use crate::orbit::{
    EllipticalOrbit, OrbitModel, fresh_model, step_spec,
    AXIS_MAX, FOCUS_LIMIT, TILT_LIMIT, OFFSET_LIMIT, MAX_ELAPSED,
};

/// Ordered, growing collection of orbiting bodies plus the viewport bounds
/// (the bounds are informational and take no part in position math).
pub struct Universe {
    width: u32,
    height: u32,
    orbits: Vec<EllipticalOrbit>,
}

impl Universe {
    /// Stored viewport width.
    pub closed spec fn spec_width(self) -> u32 {
        self.width
    }

    /// Stored viewport height.
    pub closed spec fn spec_height(self) -> u32 {
        self.height
    }

    /// The models of the bodies, in insertion order.
    pub closed spec fn bodies(self) -> Seq<OrbitModel> {
        self.orbits@.map_values(|o: EllipticalOrbit| o@)
    }

    /// Every body in the registry is well-formed.
    pub closed spec fn wf(self) -> bool {
        forall|i: int| 0 <= i < self.orbits@.len() ==> self.orbits@[i].wf()
    }

    /// An empty registry with the given viewport bounds.
    pub fn new(width: u32, height: u32) -> (r: Self)
        ensures
            r.wf(),
            r.spec_width() == width,
            r.spec_height() == height,
            r.bodies().len() == 0,
    {
        let r = Universe { width: width, height: height, orbits: Vec::new() };
        proof {
            assert(r.bodies() =~= Seq::<OrbitModel>::empty());
        }
        r
    }

    /// The viewport bounds, as the pair (width, height).
    pub fn dimensions(&self) -> (r: Vec<u32>)
        ensures
            r@.len() == 2,
            r@[0] == self.spec_width(),
            r@[1] == self.spec_height(),
    {
        let mut v: Vec<u32> = Vec::new();
        v.push(self.width);
        v.push(self.height);
        v
    }

    /// Replace the viewport bounds; the bodies are untouched.
    pub fn update_dimensions(&mut self, width: u32, height: u32)
        ensures
            final(self).spec_width() == width,
            final(self).spec_height() == height,
            final(self).bodies() == old(self).bodies(),
            final(self).wf() == old(self).wf(),
    {
        self.width = width;
        self.height = height;
    }

    /// Construct a body from the given arguments and append it.  Ids are
    /// opaque to the registry: no duplicate checking happens here.
    pub fn add_orbit(
        &mut self,
        id: u32,
        focus_x: i64,
        focus_y: i64,
        major_axis: i64,
        minor_axis: i64,
        angle: i64,
        period: u64,
        orbital_offset: i64,
    )
        requires
            old(self).wf(),
            1 <= major_axis <= AXIS_MAX,
            1 <= minor_axis <= AXIS_MAX,
            -FOCUS_LIMIT <= focus_x <= FOCUS_LIMIT,
            -FOCUS_LIMIT <= focus_y <= FOCUS_LIMIT,
            -TILT_LIMIT <= angle <= TILT_LIMIT,
            1 <= period,
            -OFFSET_LIMIT <= orbital_offset <= OFFSET_LIMIT,
        ensures
            final(self).wf(),
            final(self).bodies() == old(self).bodies().push(
                fresh_model(
                    id,
                    focus_x as int,
                    focus_y as int,
                    major_axis as int,
                    minor_axis as int,
                    angle as int,
                    period as int,
                    orbital_offset as int,
                ),
            ),
            final(self).spec_width() == old(self).spec_width(),
            final(self).spec_height() == old(self).spec_height(),
    {
        let body = EllipticalOrbit::new(
            id,
            focus_x,
            focus_y,
            major_axis,
            minor_axis,
            angle,
            period,
            orbital_offset,
        );
        self.orbits.push(body);
        proof {
            assert(self.bodies() =~= old(self).bodies().push(
                fresh_model(
                    id,
                    focus_x as int,
                    focus_y as int,
                    major_axis as int,
                    minor_axis as int,
                    angle as int,
                    period as int,
                    orbital_offset as int,
                ),
            ));
        }
    }

    /// Number of bodies added so far.
    pub fn num_orbits(&self) -> (r: usize)
        ensures
            r == self.bodies().len(),
    {
        self.orbits.len()
    }

    /// Read-only view of the whole collection, in insertion order: the safe
    /// counterpart of handing a consumer the backing buffer.  The reference
    /// is valid until the registry is next mutated.
    pub fn orbits(&self) -> (r: &Vec<EllipticalOrbit>)
        ensures
            r@.len() == self.bodies().len(),
            forall|i: int| 0 <= i < r@.len() ==> r@[i]@ == self.bodies()[i],
    {
        &self.orbits
    }

    /// Advance every body to the absolute elapsed time, in insertion order.
    /// The delta argument is accepted for interface compatibility; the
    /// position math depends on the absolute elapsed value alone, so ticks
    /// are idempotent and can be replayed for any elapsed value.
    pub fn tick(&mut self, _delta: u64, elapsed: u64)
        requires
            old(self).wf(),
            elapsed <= MAX_ELAPSED,
        ensures
            final(self).wf(),
            final(self).bodies().len() == old(self).bodies().len(),
            forall|i: int|
                0 <= i < old(self).bodies().len() ==> final(self).bodies()[i] == step_spec(
                    old(self).bodies()[i],
                    elapsed as int,
                ),
            final(self).spec_width() == old(self).spec_width(),
            final(self).spec_height() == old(self).spec_height(),
    {
        let ghost orig = self.orbits@;
        let n: usize = self.orbits.len();
        let mut i: usize = 0;
        while i < n
            invariant
                n == orig.len(),
                self.width == old(self).width,
                self.height == old(self).height,
                elapsed <= MAX_ELAPSED,
                0 <= i <= n,
                self.orbits@.len() == n,
                forall|k: int| 0 <= k < n ==> orig[k].wf(),
                forall|k: int| i <= k < n ==> self.orbits@[k] == orig[k],
                forall|k: int|
                    0 <= k < i ==> self.orbits@[k]@ == step_spec(orig[k]@, elapsed as int)
                        && self.orbits@[k].wf(),
            decreases n - i,
        {
            proof {
                assert(self.orbits@[i as int] == orig[i as int]);
                assert(orig[i as int].wf());
            }
            let body = &mut self.orbits[i];
            body.update(elapsed);
            i = i + 1;
        }
    }
}

} // verus!
