//! External force fields: a uniform directional pull scaled by mass
//! (gravity), a uniform pull independent of mass (wind), and an attraction
//! toward an external point with inverse-distance falloff (mouse gravity).

use vstd::prelude::*;
use crate::fixed::{sat, sqrt_floor, tdiv, SCALE};
use crate::particle::MASS_MAX;
use crate::vec2::{bounded, v2_dot, v2_muldiv, v2_sub, Vec2, V2};

verus! {

/// Default gravity strength: 9.8 units/s² in milli.
pub const GRAVITY_STRENGTH: i64 = 9_800;

/// Default point-attraction strength: 5000 in milli, strong enough for the
/// effect to be visible.
pub const MOUSE_GRAVITY_STRENGTH: i64 = 5_000_000;

/// Squared-distance guard of the point attractor: below one squared world
/// unit (in squared milli-units) the force is dropped to avoid a singularity.
pub const MIN_DISTANCE_SQUARED: i64 = 1_000_000;

/// View of an optional borrowed vector.
pub open spec fn opt_v2(o: Option<&Vec2>) -> Option<V2> {
    match o {
        Some(v) => Some(v@),
        None => None,
    }
}

/// A rule mapping a particle's kinematic state (and, if used, an external
/// attraction point) to a force contribution. Pure: no side effects.
pub trait Force {
    /// The exact force this rule yields on the given state.
    spec fn force_model(&self, position: V2, velocity: V2, mass: int, external_point: Option<V2>) -> V2;

    fn apply(&self, position: &Vec2, velocity: &Vec2, mass: i64, external_point: Option<&Vec2>) -> (r: Vec2)
        requires
            1 <= mass <= MASS_MAX,
            bounded(position@),
            bounded(velocity@),
        ensures
            r@ == self.force_model(position@, velocity@, mass as int, opt_v2(external_point)),
    ;
}

/// Uniform directional pull scaled by mass: `direction * strength * mass`.
#[derive(Clone, Copy, Debug)]
pub struct Gravity {
    /// Strength in milli-units/s².
    pub strength: i64,
    /// Direction as a milli-unit vector, pre-normalized by convention.
    pub direction: Vec2,
}

/// What `Gravity` exerts: independent of position and velocity.
pub open spec fn gravity_model(strength: int, direction: V2, mass: int) -> V2 {
    v2_muldiv(v2_muldiv(direction, strength, SCALE as int), mass, SCALE as int)
}

impl Default for Gravity {
    /// Earth gravity, straight down.
    fn default() -> (r: Gravity)
        ensures
            r.strength == GRAVITY_STRENGTH,
            r.direction@ == (V2 { x: 0int, y: SCALE as int }),
    {
        Gravity { strength: GRAVITY_STRENGTH, direction: Vec2::new(0, SCALE) }
    }
}

impl Force for Gravity {
    open spec fn force_model(&self, position: V2, velocity: V2, mass: int, external_point: Option<V2>) -> V2 {
        gravity_model(self.strength as int, self.direction@, mass)
    }

    fn apply(&self, position: &Vec2, velocity: &Vec2, mass: i64, external_point: Option<&Vec2>) -> (r: Vec2) {
        self.direction.muldiv(self.strength, SCALE).muldiv(mass, SCALE)
    }
}

/// Uniform pull independent of mass: `direction * strength`.
#[derive(Clone, Copy, Debug)]
pub struct Wind {
    /// Strength in milli-units/s².
    pub strength: i64,
    /// Direction as a milli-unit vector, pre-normalized by convention.
    pub direction: Vec2,
}

/// What `Wind` exerts: independent of everything but its own parameters.
pub open spec fn wind_model(strength: int, direction: V2) -> V2 {
    v2_muldiv(direction, strength, SCALE as int)
}

impl Force for Wind {
    open spec fn force_model(&self, position: V2, velocity: V2, mass: int, external_point: Option<V2>) -> V2 {
        wind_model(self.strength as int, self.direction@)
    }

    fn apply(&self, position: &Vec2, velocity: &Vec2, mass: i64, external_point: Option<&Vec2>) -> (r: Vec2) {
        self.direction.muldiv(self.strength, SCALE)
    }
}

/// Attraction toward an external point (e.g. the cursor), proportional to
/// mass and inversely proportional to distance, with a minimum-distance
/// guard; zero when no point is available.
#[derive(Clone, Copy, Debug)]
pub struct MouseGravity {
    /// Strength in milli-units.
    pub strength: i64,
}

/// Magnitude of the point attraction at distance `dist` (milli-units).
pub open spec fn attractor_magnitude(strength: int, mass: int, dist: int) -> int {
    sat(tdiv(strength * mass, dist))
}

/// What the point attractor exerts: zero without a point or within the
/// squared-distance guard, else `attractor_magnitude` along the unit vector
/// toward the point.
pub open spec fn attractor_model(strength: int, position: V2, mass: int, external_point: Option<V2>) -> V2 {
    match external_point {
        None => V2 { x: 0int, y: 0int },
        Some(m) => {
            let diff = v2_sub(m, position);
            let d2 = v2_dot(diff, diff);
            if d2 < MIN_DISTANCE_SQUARED as int {
                V2 { x: 0int, y: 0int }
            } else {
                let dist = sqrt_floor(d2);
                v2_muldiv(
                    v2_muldiv(diff, SCALE as int, dist),
                    attractor_magnitude(strength, mass, dist),
                    SCALE as int,
                )
            }
        },
    }
}

impl Default for MouseGravity {
    fn default() -> (r: MouseGravity)
        ensures
            r.strength == MOUSE_GRAVITY_STRENGTH,
    {
        MouseGravity { strength: MOUSE_GRAVITY_STRENGTH }
    }
}

impl Force for MouseGravity {
    open spec fn force_model(&self, position: V2, velocity: V2, mass: int, external_point: Option<V2>) -> V2 {
        attractor_model(self.strength as int, position, mass, external_point)
    }

    fn apply(&self, position: &Vec2, velocity: &Vec2, mass: i64, external_point: Option<&Vec2>) -> (r: Vec2) {
        match external_point {
            None => Vec2::zero(),
            Some(mouse) => {
                let diff = mouse.sub(*position);
                let d2 = diff.norm_squared();
                if d2 < MIN_DISTANCE_SQUARED {
                    Vec2::zero()
                } else {
                    let dist = diff.norm();
                    proof {
                        crate::fixed::lemma_sqrt_floor_is_sqrt(d2 as int);
                        assert(dist as int >= 1000) by (nonlinear_arith)
                            requires
                                crate::fixed::is_sqrt(d2 as int, dist as int),
                                d2 as int >= 1_000_000,
                        ;
                    }
                    let magnitude = crate::fixed::muldiv(self.strength, mass, dist);
                    diff.muldiv(SCALE, dist).muldiv(magnitude, SCALE)
                }
            },
        }
    }
}

/// The closed set of force variants a simulation can hold, dispatched by
/// matching; each variant behaves exactly as its own `Force` impl.
#[derive(Clone, Copy, Debug)]
pub enum ForceKind {
    Gravity(Gravity),
    Wind(Wind),
    MouseGravity(MouseGravity),
}

impl Force for ForceKind {
    open spec fn force_model(&self, position: V2, velocity: V2, mass: int, external_point: Option<V2>) -> V2 {
        match self {
            ForceKind::Gravity(g) => g.force_model(position, velocity, mass, external_point),
            ForceKind::Wind(w) => w.force_model(position, velocity, mass, external_point),
            ForceKind::MouseGravity(m) => m.force_model(position, velocity, mass, external_point),
        }
    }

    fn apply(&self, position: &Vec2, velocity: &Vec2, mass: i64, external_point: Option<&Vec2>) -> (r: Vec2) {
        match self {
            ForceKind::Gravity(g) => g.apply(position, velocity, mass, external_point),
            ForceKind::Wind(w) => w.apply(position, velocity, mass, external_point),
            ForceKind::MouseGravity(m) => m.apply(position, velocity, mass, external_point),
        }
    }
}

/// The point attractor contributes the zero vector when no external point is
/// available, and within the minimum-distance guard.
pub proof fn lemma_attractor_guards(strength: int, position: V2, mass: int, m: V2)
    ensures
        attractor_model(strength, position, mass, None::<V2>) == (V2 { x: 0int, y: 0int }),
        v2_dot(v2_sub(m, position), v2_sub(m, position)) < MIN_DISTANCE_SQUARED as int
            ==> attractor_model(strength, position, mass, Some(m)) == (V2 { x: 0int, y: 0int }),
{
}

/// Beyond the guard radius, the attraction magnitude does not grow with
/// distance, holding strength and mass fixed. (Strict decrease cannot hold
/// of the quantized magnitude: two nearby distances may share a quotient.)
pub proof fn lemma_attractor_magnitude_antitone(strength: int, mass: int, d1: int, d2: int)
    requires
        strength >= 0,
        mass >= 0,
        1 <= d1 <= d2,
    ensures
        attractor_magnitude(strength, mass, d2) <= attractor_magnitude(strength, mass, d1),
{
    assert(strength * mass >= 0) by (nonlinear_arith)
        requires
            strength >= 0,
            mass >= 0,
    ;
    crate::fixed::lemma_tdiv_denom(strength * mass, d1, d2);
}

} // verus!
