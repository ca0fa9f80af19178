//! One body on a fixed elliptical path around a focus point.
//!
//! The geometry (axes, tilt, derived center, eccentricity and a precomputed
//! sample path) is fixed at construction; every tick recomputes the current
//! position and the bearing towards the focus in closed form from the
//! absolute elapsed time, so updates are idempotent and order-independent.

use vstd::prelude::*;

verus! {

use crate::fp::{
    FULL_TURN, TRIG_SCALE, ANGLE_LIMIT, SQRT_LIMIT,
    sin_spec, cos_spec, bearing_spec, isqrt_spec,
    fp_sin, fp_cos, fp_atan2, isqrt,
    lemma_sin_periodic, lemma_cos_periodic, lemma_isqrt_spec_bounds,
};
use vstd::arithmetic::div_mod::{
    lemma_div_pos_is_pos,
    lemma_div_of0,
    lemma_div_by_self,
    lemma_div_is_ordered,
    lemma_multiply_divide_lt,
    lemma_div_nonincreasing,
};

/// Largest semi-axis, in whole units, accepted at construction.
pub const AXIS_MAX: i64 = 100_000_000;
/// Largest focus coordinate magnitude, in micro-units.
pub const FOCUS_LIMIT: i64 = 100_000_000_000_000;
/// Bound on the derived ellipse center coordinates, in micro-units.
pub const CENTER_LIMIT: i64 = 200_000_000_000_000;
/// Bound on every position a well-formed body can take, in micro-units.
pub const POS_LIMIT: i64 = 400_000_000_000_000;
/// Largest tilt magnitude, in micro-turns, accepted at construction.
pub const TILT_LIMIT: i64 = 1_000_000_000_000_000_000;
/// Largest phase offset magnitude, in micro-turns, accepted at construction.
pub const OFFSET_LIMIT: i64 = 1_000_000_000_000_000_000;
/// Largest elapsed simulation time accepted by an update.
pub const MAX_ELAPSED: u64 = 1_000_000_000_000;
/// Number of samples in the precomputed path.
pub const ORBIT_LENGTH: usize = 1000;
/// Angle units between two consecutive path samples.
pub const ANGLE_STEP: i64 = 1000;
/// Scale of the eccentricity value: a circle has 0, a degenerate ellipse
/// would approach ECC_SCALE.
pub const ECC_SCALE: i64 = 1_000_000;

/// The mathematical value of one body: every field of the record, with the
/// precomputed path as a sequence of coordinate pairs.
#[verifier::ext_equal]
pub ghost struct OrbitModel {
    pub id: u32,
    pub x: int,
    pub y: int,
    pub focus_x: int,
    pub focus_y: int,
    pub center_x: int,
    pub center_y: int,
    pub major_axis: int,
    pub minor_axis: int,
    pub angle: int,
    pub dir_to_focus: int,
    pub period: int,
    pub orbital_offset: int,
    pub eccentricity: int,
    pub orbit_length: int,
    pub orbit: Seq<(int, int)>,
    pub sin_angle: int,
    pub cos_angle: int,
}

/// Position on the rotated ellipse with the given geometry at parametric
/// angle `theta` (micro-turns): the standard parametric form, with the two
/// milli-scaled trigonometric factors cancelling into micro-units.
pub open spec fn xy_from(
    major: int,
    minor: int,
    sin_a: int,
    cos_a: int,
    cx: int,
    cy: int,
    theta: int,
) -> (int, int) {
    (
        major * cos_spec(theta) * cos_a - minor * sin_spec(theta) * sin_a + cx,
        major * cos_spec(theta) * sin_a + minor * sin_spec(theta) * cos_a + cy,
    )
}

/// Position of the body `m` at parametric angle `theta`.
pub open spec fn xy_spec(m: OrbitModel, theta: int) -> (int, int) {
    xy_from(m.major_axis, m.minor_axis, m.sin_angle, m.cos_angle, m.center_x, m.center_y, theta)
}

/// Distance from the ellipse center to either focus, in whole units.
pub open spec fn focus_dist_spec(major: int, minor: int) -> int {
    isqrt_spec((major * major - minor * minor) as nat) as int
}

/// Eccentricity scaled by `ECC_SCALE`: `sqrt(major^2 - minor^2) / major`.
pub open spec fn ecc_spec(major: int, minor: int) -> int {
    (focus_dist_spec(major, minor) * ECC_SCALE) / major
}

/// Parametric angle of the body `m` after `elapsed` time units.
pub open spec fn theta_spec(m: OrbitModel, elapsed: int) -> int {
    m.orbital_offset + (FULL_TURN * elapsed) / m.period
}

/// The scalar fields of two models agree; only the sample path may differ.
pub open spec fn same_scalars(a: OrbitModel, b: OrbitModel) -> bool {
    &&& a.id == b.id
    &&& a.x == b.x
    &&& a.y == b.y
    &&& a.focus_x == b.focus_x
    &&& a.focus_y == b.focus_y
    &&& a.center_x == b.center_x
    &&& a.center_y == b.center_y
    &&& a.major_axis == b.major_axis
    &&& a.minor_axis == b.minor_axis
    &&& a.angle == b.angle
    &&& a.dir_to_focus == b.dir_to_focus
    &&& a.period == b.period
    &&& a.orbital_offset == b.orbital_offset
    &&& a.eccentricity == b.eccentricity
    &&& a.orbit_length == b.orbit_length
    &&& a.sin_angle == b.sin_angle
    &&& a.cos_angle == b.cos_angle
}

/// One tick: the model after recomputing position and bearing for the given
/// absolute elapsed time.  Nothing else changes.
pub open spec fn step_spec(m: OrbitModel, elapsed: int) -> OrbitModel {
    let pos = xy_spec(m, theta_spec(m, elapsed));
    OrbitModel {
        x: pos.0,
        y: pos.1,
        dir_to_focus: bearing_spec(m.focus_y - pos.1, m.focus_x - pos.0),
        ..m
    }
}

/// The model a construction with these arguments yields: axes normalized so
/// the major one is the larger, derived fields computed, the phase offset
/// stored as given, the path sampled at `ORBIT_LENGTH` evenly spaced
/// angles, and the dynamic fields initialized to parametric angle 0.
pub open spec fn fresh_model(
    id: u32,
    fx: int,
    fy: int,
    a: int,
    b: int,
    tilt: int,
    period: int,
    offset: int,
) -> OrbitModel {
    let major = if a < b { b } else { a };
    let minor = if a < b { a } else { b };
    let sa = sin_spec(-tilt);
    let ca = cos_spec(-tilt);
    let fd = focus_dist_spec(major, minor);
    let cx = fx + fd * ca * TRIG_SCALE;
    let cy = fy + fd * sa * TRIG_SCALE;
    let pos0 = xy_from(major, minor, sa, ca, cx, cy, 0);
    OrbitModel {
        id: id,
        x: pos0.0,
        y: pos0.1,
        focus_x: fx,
        focus_y: fy,
        center_x: cx,
        center_y: cy,
        major_axis: major,
        minor_axis: minor,
        angle: tilt,
        dir_to_focus: bearing_spec(fy - pos0.1, fx - pos0.0),
        period: period,
        orbital_offset: offset,
        eccentricity: ecc_spec(major, minor),
        orbit_length: ORBIT_LENGTH as int,
        orbit: Seq::new(
            ORBIT_LENGTH as nat,
            |i: int| xy_from(major, minor, sa, ca, cx, cy, i * ANGLE_STEP),
        ),
        sin_angle: sa,
        cos_angle: ca,
    }
}

/// One body on a fixed elliptical path.  All coordinates are micro-units,
/// all angles micro-turns; `period` is in the same time units as the elapsed
/// value handed to `update`.
pub struct EllipticalOrbit {
    pub id: u32,
    pub x: i64,
    pub y: i64,
    pub focus_x: i64,
    pub focus_y: i64,
    pub center_x: i64,
    pub center_y: i64,
    pub major_axis: i64,
    pub minor_axis: i64,
    pub angle: i64,
    pub dir_to_focus: i64,
    pub period: u64,
    pub orbital_offset: i64,
    pub eccentricity: i64,
    pub orbit_length: usize,
    orbit: Vec<(i64, i64)>,
    sin_angle: i64,
    cos_angle: i64,
}

impl View for EllipticalOrbit {
    type V = OrbitModel;

    closed spec fn view(&self) -> OrbitModel {
        OrbitModel {
            id: self.id,
            x: self.x as int,
            y: self.y as int,
            focus_x: self.focus_x as int,
            focus_y: self.focus_y as int,
            center_x: self.center_x as int,
            center_y: self.center_y as int,
            major_axis: self.major_axis as int,
            minor_axis: self.minor_axis as int,
            angle: self.angle as int,
            dir_to_focus: self.dir_to_focus as int,
            period: self.period as int,
            orbital_offset: self.orbital_offset as int,
            eccentricity: self.eccentricity as int,
            orbit_length: self.orbit_length as int,
            orbit: self.orbit@.map_values(|p: (i64, i64)| (p.0 as int, p.1 as int)),
            sin_angle: self.sin_angle as int,
            cos_angle: self.cos_angle as int,
        }
    }
}

impl EllipticalOrbit {
    /// The fixed geometry is in range and internally consistent: axes
    /// normalized and bounded, cached trigonometry and derived fields equal
    /// to their defining expressions.
    pub open spec fn wf_geometry(self) -> bool {
        let m = self@;
        &&& 1 <= m.minor_axis <= m.major_axis <= AXIS_MAX
        &&& -FOCUS_LIMIT <= m.focus_x <= FOCUS_LIMIT
        &&& -FOCUS_LIMIT <= m.focus_y <= FOCUS_LIMIT
        &&& -CENTER_LIMIT <= m.center_x <= CENTER_LIMIT
        &&& -CENTER_LIMIT <= m.center_y <= CENTER_LIMIT
        &&& -TILT_LIMIT <= m.angle <= TILT_LIMIT
        &&& 1 <= m.period
        &&& -OFFSET_LIMIT <= m.orbital_offset <= OFFSET_LIMIT
        &&& m.sin_angle == sin_spec(-m.angle)
        &&& m.cos_angle == cos_spec(-m.angle)
        &&& -TRIG_SCALE <= m.sin_angle <= TRIG_SCALE
        &&& -TRIG_SCALE <= m.cos_angle <= TRIG_SCALE
        &&& m.center_x == m.focus_x + focus_dist_spec(m.major_axis, m.minor_axis) * m.cos_angle
            * TRIG_SCALE
        &&& m.center_y == m.focus_y + focus_dist_spec(m.major_axis, m.minor_axis) * m.sin_angle
            * TRIG_SCALE
        &&& m.eccentricity == ecc_spec(m.major_axis, m.minor_axis)
        &&& m.orbit_length == ORBIT_LENGTH
    }

    /// Well-formed body: sound geometry plus a fully populated sample path,
    /// the i-th sample being the position at parametric angle
    /// `i * ANGLE_STEP`.
    pub open spec fn wf(self) -> bool {
        &&& self.wf_geometry()
        &&& self@.orbit.len() == ORBIT_LENGTH
        &&& forall|i: int|
            0 <= i < ORBIT_LENGTH ==> self@.orbit[i] == xy_spec(self@, i * ANGLE_STEP)
    }

    /// Position at parametric angle `cur_angle`, in micro-units.
    pub fn get_xy(&self, cur_angle: i64) -> (r: (i64, i64))
        requires
            self.wf_geometry(),
            -ANGLE_LIMIT <= cur_angle <= ANGLE_LIMIT,
        ensures
            r.0 == xy_spec(self@, cur_angle as int).0,
            r.1 == xy_spec(self@, cur_angle as int).1,
            -POS_LIMIT <= r.0 <= POS_LIMIT,
            -POS_LIMIT <= r.1 <= POS_LIMIT,
    {
        let c: i64 = fp_cos(cur_angle);
        let s: i64 = fp_sin(cur_angle);
        proof {
            lemma_term_bound(self.major_axis as int, c as int, self.cos_angle as int);
            lemma_term_bound(self.major_axis as int, c as int, self.sin_angle as int);
            lemma_term_bound(self.minor_axis as int, s as int, self.sin_angle as int);
            lemma_term_bound(self.minor_axis as int, s as int, self.cos_angle as int);
        }
        let x: i64 = self.major_axis * c * self.cos_angle - self.minor_axis * s * self.sin_angle
            + self.center_x;
        let y: i64 = self.major_axis * c * self.sin_angle + self.minor_axis * s * self.cos_angle
            + self.center_y;
        (x, y)
    }

    /// Fill the sample path: `ORBIT_LENGTH` positions at evenly spaced
    /// parametric angles over one full turn.
    fn compute_total_orbit(&mut self)
        requires
            old(self).wf_geometry(),
            old(self)@.orbit.len() == 0,
        ensures
            final(self).wf(),
            same_scalars(final(self)@, old(self)@),
    {
        let mut i: usize = 0;
        let mut angle: i64 = 0;
        while i < ORBIT_LENGTH
            invariant
                self.wf_geometry(),
                same_scalars(self@, old(self)@),
                0 <= i <= ORBIT_LENGTH,
                angle == i * ANGLE_STEP,
                self@.orbit.len() == i,
                forall|j: int| 0 <= j < i ==> self@.orbit[j] == xy_spec(self@, j * ANGLE_STEP),
            decreases ORBIT_LENGTH - i,
        {
            let ghost prev = self@;
            let p: (i64, i64) = self.get_xy(angle);
            self.orbit.push(p);
            proof {
                assert(self@.orbit =~= prev.orbit.push((p.0 as int, p.1 as int)));
                assert(same_scalars(self@, prev));
                assert(forall|j: int|
                    0 <= j < i + 1 ==> self@.orbit[j] == xy_spec(self@, j * ANGLE_STEP));
            }
            i = i + 1;
            angle = angle + ANGLE_STEP;
        }
    }

    /// Construct a body.  The two axis arguments may come in either order;
    /// they are normalized so the stored major axis is the larger.  The
    /// sample path is precomputed, and the dynamic fields are initialized
    /// to the position at parametric angle 0.
    pub fn new(
        id: u32,
        focus_x: i64,
        focus_y: i64,
        major_axis: i64,
        minor_axis: i64,
        angle: i64,
        period: u64,
        orbital_offset: i64,
    ) -> (r: Self)
        requires
            1 <= major_axis <= AXIS_MAX,
            1 <= minor_axis <= AXIS_MAX,
            -FOCUS_LIMIT <= focus_x <= FOCUS_LIMIT,
            -FOCUS_LIMIT <= focus_y <= FOCUS_LIMIT,
            -TILT_LIMIT <= angle <= TILT_LIMIT,
            1 <= period,
            -OFFSET_LIMIT <= orbital_offset <= OFFSET_LIMIT,
        ensures
            r.wf(),
            r@ == fresh_model(
                id,
                focus_x as int,
                focus_y as int,
                major_axis as int,
                minor_axis as int,
                angle as int,
                period as int,
                orbital_offset as int,
            ),
    {
        let mut major: i64 = major_axis;
        let mut minor: i64 = minor_axis;
        if major < minor {
            let temp: i64 = major;
            major = minor;
            minor = temp;
        }
        proof {
            lemma_sq_diff_bounds(major as int, minor as int);
        }
        let d2: u64 = (major * major - minor * minor) as u64;
        let fd: u64 = isqrt(d2);
        proof {
            lemma_fd_le_major(major as int, minor as int);
        }
        let ecc: i64 = ((fd * 1_000_000) / (major as u64)) as i64;
        let sin_angle: i64 = fp_sin(-angle);
        let cos_angle: i64 = fp_cos(-angle);
        proof {
            lemma_term_bound(fd as int, cos_angle as int, TRIG_SCALE as int);
            lemma_term_bound(fd as int, sin_angle as int, TRIG_SCALE as int);
        }
        let center_x: i64 = focus_x + (fd as i64) * cos_angle * 1000;
        let center_y: i64 = focus_y + (fd as i64) * sin_angle * 1000;
        let mut body = EllipticalOrbit {
            id: id,
            x: 0,
            y: 0,
            focus_x: focus_x,
            focus_y: focus_y,
            center_x: center_x,
            center_y: center_y,
            major_axis: major,
            minor_axis: minor,
            angle: angle,
            dir_to_focus: 0,
            period: period,
            orbital_offset: orbital_offset,
            eccentricity: ecc,
            orbit_length: ORBIT_LENGTH,
            orbit: Vec::new(),
            sin_angle: sin_angle,
            cos_angle: cos_angle,
        };
        proof {
            lemma_ecc_lt_scale(major as int, minor as int);
        }
        body.compute_total_orbit();
        let p0: (i64, i64) = body.get_xy(0);
        body.x = p0.0;
        body.y = p0.1;
        body.dir_to_focus = fp_atan2(body.focus_y - p0.1, body.focus_x - p0.0);
        proof {
            let fm = fresh_model(
                id,
                focus_x as int,
                focus_y as int,
                major_axis as int,
                minor_axis as int,
                angle as int,
                period as int,
                orbital_offset as int,
            );
            assert(body@.orbit =~= fm.orbit);
            assert(body@ =~= fm);
        }
        body
    }

    /// Advance the body to the absolute elapsed time: position and bearing
    /// are recomputed in closed form; the geometry is untouched.
    pub fn update(&mut self, elapsed: u64)
        requires
            old(self).wf(),
            elapsed <= MAX_ELAPSED,
        ensures
            final(self).wf(),
            final(self)@ == step_spec(old(self)@, elapsed as int),
    {
        let ticks: u64 = 1_000_000u64 * elapsed / self.period;
        proof {
            lemma_div_pos_is_pos(1_000_000 * elapsed as int, self.period as int);
            lemma_div_nonincreasing(1_000_000 * elapsed as int, self.period as int);
        }
        let cur_angle: i64 = self.orbital_offset + (ticks as i64);
        let p: (i64, i64) = self.get_xy(cur_angle);
        self.dir_to_focus = fp_atan2(self.focus_y - p.1, self.focus_x - p.0);
        self.x = p.0;
        self.y = p.1;
        proof {
            assert(cur_angle as int == theta_spec(old(self)@, elapsed as int));
            assert(self@.orbit =~= old(self)@.orbit);
            assert(self@ =~= step_spec(old(self)@, elapsed as int));
            assert(forall|i: int|
                0 <= i < ORBIT_LENGTH ==> self@.orbit[i] == xy_spec(self@, i * ANGLE_STEP));
        }
    }

    /// The i-th precomputed path sample.
    pub fn orbit_point(&self, i: usize) -> (r: (i64, i64))
        requires
            self.wf(),
            i < ORBIT_LENGTH,
        ensures
            r.0 == self@.orbit[i as int].0,
            r.1 == self@.orbit[i as int].1,
    {
        let p: &(i64, i64) = &self.orbit[i];
        (p.0, p.1)
    }
}

/// A product of an axis, a trigonometric value and one more milli-scale
/// factor stays within one quarter of the position bound.
proof fn lemma_term_bound(axis: int, t: int, u: int)
    requires
        0 <= axis <= AXIS_MAX,
        -TRIG_SCALE <= t <= TRIG_SCALE,
        -TRIG_SCALE <= u <= TRIG_SCALE,
    ensures
        -100_000_000_000_000 <= axis * t * u <= 100_000_000_000_000,
        -100_000_000_000 <= axis * t <= 100_000_000_000,
{
    assert(-100_000_000_000 <= axis * t <= 100_000_000_000 && -100_000_000_000_000 <= (axis * t)
        * u <= 100_000_000_000_000) by (nonlinear_arith)
        requires
            0 <= axis <= 100_000_000,
            -1000 <= t <= 1000,
            -1000 <= u <= 1000,
    ;
}

/// The difference of the squares of a normalized axis pair is nonnegative
/// and fits under the square-root limit.
proof fn lemma_sq_diff_bounds(major: int, minor: int)
    requires
        1 <= minor <= major <= AXIS_MAX,
    ensures
        0 <= major * major <= SQRT_LIMIT,
        0 <= minor * minor <= SQRT_LIMIT,
        0 <= major * major - minor * minor <= SQRT_LIMIT,
{
    assert(0 <= major * major <= 10_000_000_000_000_000 && 0 <= minor * minor
        && minor * minor <= major * major) by (nonlinear_arith)
        requires 1 <= minor <= major <= 100_000_000,
    ;
}

/// The focus distance never exceeds the major axis.
proof fn lemma_fd_le_major(major: int, minor: int)
    requires
        1 <= minor <= major <= AXIS_MAX,
    ensures
        0 <= focus_dist_spec(major, minor) <= major,
{
    let d = major * major - minor * minor;
    assert(0 <= d <= major * major) by (nonlinear_arith)
        requires
            1 <= minor <= major,
            d == major * major - minor * minor,
    ;
    lemma_isqrt_spec_bounds(d as nat);
    let k = isqrt_spec(d as nat) as int;
    if k > major {
        assert(k * k > major * major) by (nonlinear_arith)
            requires k > major >= 1,
        ;
    }
}

/// The scaled eccentricity of a well-formed axis pair is below `ECC_SCALE`.
proof fn lemma_ecc_lt_scale(major: int, minor: int)
    requires
        1 <= minor <= major <= AXIS_MAX,
    ensures
        0 <= ecc_spec(major, minor) < ECC_SCALE,
{
    let d = major * major - minor * minor;
    assert(0 <= d && d < major * major) by (nonlinear_arith)
        requires
            1 <= minor <= major,
            d == major * major - minor * minor,
    ;
    lemma_isqrt_spec_bounds(d as nat);
    let k = isqrt_spec(d as nat) as int;
    if k >= major {
        assert(k * k >= major * major) by (nonlinear_arith)
            requires k >= major >= 1,
        ;
    }
    assert(k < major);
    lemma_div_pos_is_pos(k * ECC_SCALE, major);
    assert(k * ECC_SCALE < major * ECC_SCALE) by (nonlinear_arith)
        requires k < major,
    ;
    lemma_multiply_divide_lt(k * ECC_SCALE, major, ECC_SCALE as int);
}


/// Law: axis normalization.  Construction with the two axis arguments in
/// either order yields the identical body, and the stored major axis is
/// never smaller than the stored minor axis.
pub proof fn lemma_axis_normalization(
    id: u32,
    fx: int,
    fy: int,
    a: int,
    b: int,
    tilt: int,
    period: int,
    offset: int,
)
    ensures
        fresh_model(id, fx, fy, a, b, tilt, period, offset) == fresh_model(
            id,
            fx,
            fy,
            b,
            a,
            tilt,
            period,
            offset,
        ),
        fresh_model(id, fx, fy, a, b, tilt, period, offset).major_axis >= fresh_model(
            id,
            fx,
            fy,
            a,
            b,
            tilt,
            period,
            offset,
        ).minor_axis,
{
    let m1 = fresh_model(id, fx, fy, a, b, tilt, period, offset);
    let m2 = fresh_model(id, fx, fy, b, a, tilt, period, offset);
    assert(m1.orbit =~= m2.orbit);
    assert(m1 =~= m2);
}

/// Law: eccentricity bound.  For every normalized axis pair the scaled
/// eccentricity lies in `[0, ECC_SCALE)`, and it is zero exactly when the
/// two axes are equal, that is, when the orbit is a circle.
pub proof fn lemma_eccentricity_bounds(major: int, minor: int)
    requires
        1 <= minor <= major <= AXIS_MAX,
    ensures
        0 <= ecc_spec(major, minor) < ECC_SCALE,
        ecc_spec(major, minor) == 0 <==> major == minor,
{
    lemma_ecc_lt_scale(major, minor);
    let d = major * major - minor * minor;
    let k = isqrt_spec(d as nat) as int;
    if major == minor {
        assert(d == 0);
        assert(isqrt_spec(0nat) == 0);
        lemma_div_of0(major);
        assert(ecc_spec(major, minor) == 0);
    } else {
        assert(d >= 2 * major - 1) by (nonlinear_arith)
            requires
                1 <= minor <= major - 1,
                d == major * major - minor * minor,
        ;
        lemma_isqrt_spec_bounds(d as nat);
        if k == 0 {
            assert((k + 1) * (k + 1) == 1) by (nonlinear_arith)
                requires k == 0,
            ;
            assert(false);
        }
        if k * ECC_SCALE < major {
            assert(k < 100);
            assert((k + 1) * (k + 1) <= 10_000) by (nonlinear_arith)
                requires 0 <= k < 100,
            ;
            assert(d < 10_000);
            assert(false);
        }
        lemma_div_by_self(major);
        lemma_div_is_ordered(major, k * ECC_SCALE, major);
        assert(ecc_spec(major, minor) >= 1);
    }
}

/// Law: periodicity.  The position on the path is exactly periodic in the
/// parametric angle, with period `FULL_TURN`.
pub proof fn lemma_position_periodic(m: OrbitModel, theta: int)
    ensures
        xy_spec(m, theta + FULL_TURN) == xy_spec(m, theta),
{
    lemma_sin_periodic(theta);
    lemma_cos_periodic(theta);
}

/// Law: phase consistency.  An update at elapsed time 0 puts the body at
/// the position of parametric angle `orbital_offset`.
pub proof fn lemma_phase_consistency(m: OrbitModel)
    requires
        1 <= m.period,
    ensures
        step_spec(m, 0).x == xy_spec(m, m.orbital_offset).0,
        step_spec(m, 0).y == xy_spec(m, m.orbital_offset).1,
{
    lemma_div_of0(m.period);
    assert(theta_spec(m, 0) == m.orbital_offset);
}

/// Law: bearing consistency.  After any update the stored bearing equals
/// the bearing recomputed independently from that same update's position
/// and the focus.
pub proof fn lemma_bearing_consistency(m: OrbitModel, elapsed: int)
    ensures
        step_spec(m, elapsed).dir_to_focus == bearing_spec(
            m.focus_y - step_spec(m, elapsed).y,
            m.focus_x - step_spec(m, elapsed).x,
        ),
{
}


/// Law: path sampling.  A freshly constructed body's path has exactly
/// `ORBIT_LENGTH` entries, and the i-th sample is the body's position at
/// parametric angle `i * ANGLE_STEP`.
pub proof fn lemma_path_samples(
    id: u32,
    fx: int,
    fy: int,
    a: int,
    b: int,
    tilt: int,
    period: int,
    offset: int,
)
    ensures
        fresh_model(id, fx, fy, a, b, tilt, period, offset).orbit.len() == ORBIT_LENGTH,
        forall|i: int|
            0 <= i < ORBIT_LENGTH ==> fresh_model(id, fx, fy, a, b, tilt, period, offset).orbit[i]
                == xy_spec(fresh_model(id, fx, fy, a, b, tilt, period, offset), i * ANGLE_STEP),
{
}

/// Law: replay.  A tick depends only on the absolute elapsed time, never on
/// the dynamic state left by earlier ticks: updating to one elapsed time
/// after any earlier update lands in the same state as updating to it
/// directly.
pub proof fn lemma_update_replayable(m: OrbitModel, first: int, second: int)
    ensures
        step_spec(step_spec(m, first), second) == step_spec(m, second),
{
    assert(step_spec(step_spec(m, first), second) =~= step_spec(m, second));
}

} // verus!


