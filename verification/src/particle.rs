//! A circular point-mass: kinematic state, force accumulation, a time-step
//! integrator, and collision handling.
//!
//! The integrator advances the state with the constant-acceleration closed
//! form `v' = damping * v + a * dt; pos' = pos + v' * dt` (the four-stage
//! scheme with the acceleration held constant across the stages reduces to
//! exactly this), then clamps the speed and resets the accumulated
//! acceleration.

use vstd::prelude::*;
use vstd::arithmetic::div_mod::{lemma_div_non_zero, lemma_div_nonincreasing};
use crate::fixed::{sat, tdiv, MAG_MAX, SCALE};
use crate::vec2::{bounded, v2_add, v2_dot, v2_muldiv, v2_norm, v2_sub, Vec2, V2};

verus! {

/// Velocity kept per step, in milli (0.98: slight air resistance).
pub const DAMPING: i64 = 980;

/// Fraction of normal velocity reflected in a collision, in milli (0.8).
pub const RESTITUTION: i64 = 800;

/// Componentwise force clamp, in milli-units (±1000): a numerical-stability
/// guard against a single pathological force, not a physical rule.
pub const MAX_FORCE: i64 = 1_000_000;

/// Speed clamp, in milli-units per second (1000 units/s).
pub const MAX_SPEED: i64 = 1_000_000;

/// Largest admissible mass, in milli-units: keeps `SCALE²/mass` at least 1,
/// so inverse-mass sums in collision resolution never vanish.
pub const MASS_MAX: i64 = 1_000_000;

/// Share of residual overlap resolved per frame, in milli (0.2).
pub const CORRECTION_PERCENT: i64 = 200;

/// Mathematical view of a particle.
pub ghost struct PModel {
    pub position: V2,
    pub velocity: V2,
    pub acceleration: V2,
    pub mass: int,
    pub radius: int,
    pub color: int,
    pub damping: int,
    pub restitution: int,
}

/// A particle: kinematic state and physical parameters in milli-units.
#[derive(Clone, Copy, Debug)]
pub struct Particle {
    pub position: Vec2,
    pub velocity: Vec2,
    /// Transient per-frame accumulator; reset to zero by every `update`.
    pub acceleration: Vec2,
    pub mass: i64,
    pub radius: i64,
    /// Packed RGB, opaque to the physics.
    pub color: u32,
    pub damping: i64,
    pub restitution: i64,
}

impl View for Particle {
    type V = PModel;

    open spec fn view(&self) -> PModel {
        PModel {
            position: self.position@,
            velocity: self.velocity@,
            acceleration: self.acceleration@,
            mass: self.mass as int,
            radius: self.radius as int,
            color: self.color as int,
            damping: self.damping as int,
            restitution: self.restitution as int,
        }
    }
}

/// Validity of a particle: positive mass and radius within the fixed-point
/// range, bounded kinematic state, damping and restitution in `[0, 1]`.
pub open spec fn wf(p: PModel) -> bool {
    &&& 1 <= p.mass <= MASS_MAX
    &&& 1 <= p.radius <= MAG_MAX
    &&& bounded(p.position)
    &&& bounded(p.velocity)
    &&& bounded(p.acceleration)
    &&& 0 <= p.damping <= SCALE
    &&& 0 <= p.restitution <= SCALE
}

/// Componentwise clamp of a force to `±MAX_FORCE`.
pub open spec fn clamp_force(x: int) -> int {
    if x > MAX_FORCE as int {
        MAX_FORCE as int
    } else if x < -(MAX_FORCE as int) {
        -(MAX_FORCE as int)
    } else {
        x
    }
}

/// Force accumulation: the clamped force, divided by the mass, is added to
/// the acceleration accumulator.
pub open spec fn apply_force_model(p: PModel, f: V2) -> PModel {
    let fc = V2 { x: clamp_force(f.x), y: clamp_force(f.y) };
    PModel { acceleration: v2_add(p.acceleration, v2_muldiv(fc, SCALE as int, p.mass)), ..p }
}

/// One integration step of `dt` milliseconds: damp the velocity, add
/// `acceleration * dt`, advance the position by the new velocity, clamp the
/// speed to `MAX_SPEED`, and reset the acceleration.
pub open spec fn update_model(p: PModel, dt: int) -> PModel {
    let damped = v2_muldiv(p.velocity, p.damping, SCALE as int);
    let vel = v2_add(damped, v2_muldiv(p.acceleration, dt, SCALE as int));
    let pos = v2_add(p.position, v2_muldiv(vel, dt, SCALE as int));
    let clamped = if v2_norm(vel) > MAX_SPEED as int {
        v2_muldiv(vel, MAX_SPEED as int, v2_norm(vel))
    } else {
        vel
    };
    PModel {
        position: pos,
        velocity: clamped,
        acceleration: V2 { x: 0int, y: 0int },
        ..p
    }
}

/// Reflection of one velocity component off a wall: reversed and scaled by
/// the particle's restitution.
pub open spec fn bounce(v: int, e: int) -> int {
    -sat(tdiv(v * e, SCALE as int))
}

/// Where one axis of a particle ends up against a wall at `0` and a wall at
/// `extent`: clamped so the near edge `pos - r` is at least 0 and the far
/// edge `pos + r` at most `extent` (near wall checked first).
pub open spec fn wall_pos(pos: int, r: int, extent: int) -> int {
    if pos - r < 0 {
        r
    } else if pos + r > extent {
        extent - r
    } else {
        pos
    }
}

/// The velocity component on an axis after the boundary check: reflected and
/// scaled by the restitution exactly when a wall was hit.
pub open spec fn wall_vel(pos: int, r: int, extent: int, v: int, e: int) -> int {
    if pos - r < 0 || pos + r > extent {
        bounce(v, e)
    } else {
        v
    }
}

/// Boundary collision: on each axis independently, a particle whose near
/// edge has left `[0, extent]` is clamped back to the wall and its velocity
/// component on that axis is reflected and scaled by the restitution.
pub open spec fn boundary_model(p: PModel, w: int, h: int) -> PModel {
    PModel {
        position: V2 {
            x: wall_pos(p.position.x, p.radius, w),
            y: wall_pos(p.position.y, p.radius, h),
        },
        velocity: V2 {
            x: wall_vel(p.position.x, p.radius, w, p.velocity.x, p.restitution),
            y: wall_vel(p.position.y, p.radius, h, p.velocity.y, p.restitution),
        },
        ..p
    }
}

/// Milli-value of the inverse-mass sum `1/mass_a + 1/mass_b`; at least 2 for
/// well-formed masses.
pub open spec fn inv_mass_sum(ma: int, mb: int) -> int {
    tdiv((SCALE as int) * (SCALE as int), ma) + tdiv((SCALE as int) * (SCALE as int), mb)
}

/// Collision resolution between two overlapping particles with restitution
/// `e`: an impulse along the contact normal reverses the approaching part of
/// the relative velocity scaled by `e`, weighted by inverse masses, and a
/// positional correction resolves a share of the remaining overlap. Pairs
/// that do not overlap, coincide exactly, or are already separating are left
/// untouched.
pub open spec fn collide_model(a: PModel, b: PModel, e: int) -> (PModel, PModel) {
    let diff = v2_sub(a.position, b.position);
    let dist = v2_norm(diff);
    let min_dist = a.radius + b.radius;
    if !(0 < dist && dist < min_dist) {
        (a, b)
    } else {
        let normal = v2_muldiv(diff, SCALE as int, dist);
        let rel = v2_sub(a.velocity, b.velocity);
        let van = sat(tdiv(v2_dot(rel, normal), SCALE as int));
        if van > 0 {
            (a, b)
        } else {
            let denom = inv_mass_sum(a.mass, b.mass);
            let jn = sat(tdiv((SCALE as int + e) * van, SCALE as int));
            let j = -sat(tdiv(jn * (SCALE as int), denom));
            let impulse = v2_muldiv(normal, j, SCALE as int);
            let va = v2_add(a.velocity, v2_muldiv(impulse, SCALE as int, a.mass));
            let vb = v2_sub(b.velocity, v2_muldiv(impulse, SCALE as int, b.mass));
            let cn = sat(tdiv(CORRECTION_PERCENT as int * (min_dist - dist), SCALE as int));
            let c = sat(tdiv(cn * (SCALE as int), denom));
            let corr = v2_muldiv(normal, c, SCALE as int);
            let pa = v2_add(a.position, v2_muldiv(corr, SCALE as int, a.mass));
            let pb = v2_sub(b.position, v2_muldiv(corr, SCALE as int, b.mass));
            (
                PModel { position: pa, velocity: va, ..a },
                PModel { position: pb, velocity: vb, ..b },
            )
        }
    }
}

/// Kinetic energy `mass * |velocity|² / 2`, in milli-units.
pub open spec fn kinetic_energy_model(p: PModel) -> int {
    sat(tdiv(p.mass * v2_dot(p.velocity, p.velocity), 2 * (SCALE as int) * (SCALE as int)))
}

impl Particle {
    /// A particle at `(x, y)` at rest, with the default damping and
    /// restitution. Mass and radius must be strictly positive.
    pub fn new(x: i64, y: i64, mass: i64, radius: i64, color: u32) -> (r: Particle)
        requires
            1 <= mass <= MASS_MAX,
            1 <= radius <= MAG_MAX,
            -MAG_MAX <= x <= MAG_MAX,
            -MAG_MAX <= y <= MAG_MAX,
        ensures
            r@ == (PModel {
                position: V2 { x: x as int, y: y as int },
                velocity: V2 { x: 0int, y: 0int },
                acceleration: V2 { x: 0int, y: 0int },
                mass: mass as int,
                radius: radius as int,
                color: color as int,
                damping: DAMPING as int,
                restitution: RESTITUTION as int,
            }),
            wf(r@),
    {
        Particle {
            position: Vec2::new(x, y),
            velocity: Vec2::zero(),
            acceleration: Vec2::zero(),
            mass,
            radius,
            color,
            damping: DAMPING,
            restitution: RESTITUTION,
        }
    }

    /// Accumulate a force: clamp it componentwise, divide by the mass, and
    /// add it to the acceleration accumulator.
    pub fn apply_force(&mut self, force: Vec2)
        requires
            wf(old(self)@),
        ensures
            final(self)@ == apply_force_model(old(self)@, force@),
            wf(final(self)@),
    {
        let fx: i64 = if force.x > MAX_FORCE {
            MAX_FORCE
        } else if force.x < -MAX_FORCE {
            -MAX_FORCE
        } else {
            force.x
        };
        let fy: i64 = if force.y > MAX_FORCE {
            MAX_FORCE
        } else if force.y < -MAX_FORCE {
            -MAX_FORCE
        } else {
            force.y
        };
        let clamped = Vec2::new(fx, fy);
        self.acceleration = self.acceleration.add(clamped.muldiv(SCALE, self.mass));
    }

    /// Advance the state by `dt` milliseconds.
    pub fn update(&mut self, dt: i64)
        requires
            wf(old(self)@),
            dt >= 0,
        ensures
            final(self)@ == update_model(old(self)@, dt as int),
            wf(final(self)@),
            final(self)@.acceleration == (V2 { x: 0int, y: 0int }),
    {
        let damped = self.velocity.muldiv(self.damping, SCALE);
        let vel = damped.add(self.acceleration.muldiv(dt, SCALE));
        self.position = self.position.add(vel.muldiv(dt, SCALE));
        let speed = vel.norm();
        if speed > MAX_SPEED {
            self.velocity = vel.muldiv(MAX_SPEED, speed);
        } else {
            self.velocity = vel;
        }
        self.acceleration = Vec2::zero();
    }

    /// Resolve a collision with another particle, taking the smaller of the
    /// two restitutions as the pair's elasticity.
    pub fn handle_collision(&mut self, other: &mut Particle)
        requires
            wf(old(self)@),
            wf(old(other)@),
        ensures
            (final(self)@, final(other)@) == collide_model(
                old(self)@,
                old(other)@,
                if old(self)@.restitution <= old(other)@.restitution {
                    old(self)@.restitution
                } else {
                    old(other)@.restitution
                },
            ),
            wf(final(self)@),
            wf(final(other)@),
    {
        let e: i64 = if self.restitution <= other.restitution {
            self.restitution
        } else {
            other.restitution
        };
        let resolved = collide_pair(*self, *other, e);
        *self = resolved.0;
        *other = resolved.1;
    }

    /// Keep the particle inside `[0, width] × [0, height]`: clamp each
    /// violated axis back to the wall and reflect that velocity component,
    /// scaled by the restitution.
    pub fn handle_boundary_collision(&mut self, width: i64, height: i64)
        requires
            wf(old(self)@),
            0 <= width <= MAG_MAX,
            0 <= height <= MAG_MAX,
        ensures
            final(self)@ == boundary_model(old(self)@, width as int, height as int),
            wf(final(self)@),
            2 * old(self)@.radius <= width ==> old(self)@.radius <= final(self)@.position.x
                <= width - old(self)@.radius,
            2 * old(self)@.radius <= height ==> old(self)@.radius <= final(self)@.position.y
                <= height - old(self)@.radius,
    {
        if self.position.x - self.radius < 0 {
            self.position.x = self.radius;
            self.velocity.x = -crate::fixed::muldiv(self.velocity.x, self.restitution, SCALE);
        } else if self.position.x + self.radius > width {
            self.position.x = width - self.radius;
            self.velocity.x = -crate::fixed::muldiv(self.velocity.x, self.restitution, SCALE);
        }
        if self.position.y - self.radius < 0 {
            self.position.y = self.radius;
            self.velocity.y = -crate::fixed::muldiv(self.velocity.y, self.restitution, SCALE);
        } else if self.position.y + self.radius > height {
            self.position.y = height - self.radius;
            self.velocity.y = -crate::fixed::muldiv(self.velocity.y, self.restitution, SCALE);
        }
    }

    /// Kinetic energy `mass * |velocity|² / 2`, in milli-units.
    pub fn kinetic_energy(&self) -> (r: i64)
        requires
            wf(self@),
        ensures
            r as int == kinetic_energy_model(self@),
    {
        let q = self.velocity.norm_squared();
        crate::fixed::muldiv(self.mass, q, 2 * SCALE * SCALE)
    }
}

/// Resolve one collision between `a` and `b` with elasticity `e`, returning
/// the updated pair. This is the shared core of `Particle::handle_collision`
/// (which takes the smaller per-particle restitution) and the simulation's
/// pairwise pass (which uses the global `RESTITUTION`).
pub fn collide_pair(a: Particle, b: Particle, e: i64) -> (r: (Particle, Particle))
    requires
        wf(a@),
        wf(b@),
        0 <= e <= SCALE,
    ensures
        (r.0@, r.1@) == collide_model(a@, b@, e as int),
        wf(r.0@),
        wf(r.1@),
{
    let diff = a.position.sub(b.position);
    let dist = diff.norm();
    let min_dist = a.radius + b.radius;
    if dist < min_dist && dist > 0 {
        let normal = diff.muldiv(SCALE, dist);
        let rel = a.velocity.sub(b.velocity);
        let van = crate::fixed::muldiv(rel.dot(normal), 1, SCALE);
        if van > 0 {
            (a, b)
        } else {
            let d1 = crate::fixed::muldiv(SCALE, SCALE, a.mass);
            let d2 = crate::fixed::muldiv(SCALE, SCALE, b.mass);
            proof {
                lemma_div_non_zero((SCALE as int) * (SCALE as int), a@.mass);
                lemma_div_non_zero((SCALE as int) * (SCALE as int), b@.mass);
                lemma_div_nonincreasing((SCALE as int) * (SCALE as int), a@.mass);
                lemma_div_nonincreasing((SCALE as int) * (SCALE as int), b@.mass);
            }
            let denom = d1 + d2;
            let t1 = crate::fixed::muldiv(SCALE + e, van, SCALE);
            let t2 = crate::fixed::muldiv(t1, SCALE, denom);
            let j = -t2;
            let impulse = normal.muldiv(j, SCALE);
            let va = a.velocity.add(impulse.muldiv(SCALE, a.mass));
            let vb = b.velocity.sub(impulse.muldiv(SCALE, b.mass));
            let c1 = crate::fixed::muldiv(CORRECTION_PERCENT, min_dist - dist, SCALE);
            let c2 = crate::fixed::muldiv(c1, SCALE, denom);
            let corr = normal.muldiv(c2, SCALE);
            let pa = a.position.add(corr.muldiv(SCALE, a.mass));
            let pb = b.position.sub(corr.muldiv(SCALE, b.mass));
            (
                Particle { position: pa, velocity: va, ..a },
                Particle { position: pb, velocity: vb, ..b },
            )
        }
    } else {
        (a, b)
    }
}

/// Damping shrinks each velocity component's magnitude.
proof fn lemma_damping_shrinks(v: int, d: int)
    requires
        0 <= d <= SCALE,
        -MAG_MAX <= v <= MAG_MAX,
    ensures
        v >= 0 ==> 0 <= sat(tdiv(v * d, SCALE as int)) <= v,
        v < 0 ==> v <= sat(tdiv(v * d, SCALE as int)) <= 0,
{
    assert(0 <= v * d <= v * SCALE || 0 <= -(v * d) <= -(v * SCALE)) by (nonlinear_arith)
        requires
            0 <= d <= SCALE,
            -MAG_MAX <= v <= MAG_MAX,
    ;
    if v >= 0 {
        crate::fixed::lemma_tdiv_mono(v * d, v * (SCALE as int), SCALE as int);
        crate::fixed::lemma_tdiv_mono(0int, v * d, SCALE as int);
        assert(tdiv(v * (SCALE as int), SCALE as int) == v) by (nonlinear_arith)
            requires v >= 0;
    } else {
        crate::fixed::lemma_tdiv_mono(v * (SCALE as int), v * d, SCALE as int);
        crate::fixed::lemma_tdiv_mono(v * d, 0int, SCALE as int);
        assert(tdiv(v * (SCALE as int), SCALE as int) == v) by (nonlinear_arith)
            requires v < 0;
    }
}

/// With no accumulated force, one step leaves the velocity unchanged up to
/// damping (the speed clamp cannot trigger), and advances the position by
/// exactly `velocity * dt`, the constant-acceleration closed form.
pub proof fn lemma_update_zero_force(p: PModel, dt: int)
    requires
        wf(p),
        0 <= dt,
        p.acceleration == (V2 { x: 0int, y: 0int }),
        v2_norm(p.velocity) <= MAX_SPEED,
    ensures
        update_model(p, dt).velocity == v2_muldiv(p.velocity, p.damping, SCALE as int),
        update_model(p, dt).position == v2_add(
            p.position,
            v2_muldiv(v2_muldiv(p.velocity, p.damping, SCALE as int), dt, SCALE as int),
        ),
{
    let v = p.velocity;
    let damped = v2_muldiv(v, p.damping, SCALE as int);

    // The accumulated acceleration contributes nothing.
    assert(v2_muldiv(p.acceleration, dt, SCALE as int) == (V2 { x: 0int, y: 0int }));
    assert(bounded(damped));
    assert(v2_add(damped, V2 { x: 0int, y: 0int }) == damped);

    // The damped velocity's squared norm does not exceed the old one, which
    // the speed bound keeps well under the saturation threshold.
    let dv = v.x * v.x + v.y * v.y;
    assert(0 <= v.x * v.x + v.y * v.y) by (nonlinear_arith);
    crate::fixed::lemma_sqrt_floor_is_sqrt(v2_dot(v, v));
    let n = v2_norm(v);
    assert((n + 1) * (n + 1) <= 1_000_002_000_001int) by (nonlinear_arith)
        requires 0 <= n <= 1_000_000int;
    assert(v2_dot(v, v) == dv);
    lemma_damping_shrinks(v.x, p.damping);
    lemma_damping_shrinks(v.y, p.damping);
    let dd = damped.x * damped.x + damped.y * damped.y;
    assert(0 <= dd <= dv) by (nonlinear_arith)
        requires
            v.x >= 0 ==> 0 <= damped.x <= v.x,
            v.x < 0 ==> v.x <= damped.x <= 0,
            v.y >= 0 ==> 0 <= damped.y <= v.y,
            v.y < 0 ==> v.y <= damped.y <= 0,
            dd == damped.x * damped.x + damped.y * damped.y,
            dv == v.x * v.x + v.y * v.y,
    ;
    assert(v2_dot(damped, damped) == dd);
    crate::fixed::lemma_sqrt_mono(dd, dv);
    assert(v2_norm(damped) <= MAX_SPEED);
}

/// The acceleration accumulator is exactly zero after every step, whatever
/// the state and time step.
pub proof fn lemma_update_resets_acceleration(p: PModel, dt: int)
    ensures
        update_model(p, dt).acceleration == (V2 { x: 0int, y: 0int }),
{
}

/// Energy non-increase of the collision impulse, in exact arithmetic: for a
/// closed pair with restitution at most 1 and no external force, the impulse
/// along the contact normal never increases total kinetic energy. The
/// restitution is the fraction `en / ed`; `u1`, `u2` are the two particles'
/// velocity components along the unit normal, scaled by `d = ed * (m1 + m2)`
/// so that the post-impulse components `v1`, `v2` are integers; the
/// components tangential to the normal are unchanged by the impulse. (The
/// executable resolution applies this impulse in fixed point, truncating
/// toward zero, so its energy change matches this law up to that rounding.)
pub proof fn lemma_collision_energy_nonincrease(m1: int, m2: int, u1: int, u2: int, en: int, ed: int)
    requires
        m1 >= 1,
        m2 >= 1,
        0 <= en <= ed,
        1 <= ed,
    ensures
        ({
            let q = en + ed;
            let w = u1 - u2;
            let d = ed * (m1 + m2);
            let v1 = u1 * d - m2 * q * w;
            let v2 = u2 * d + m1 * q * w;
            m1 * (v1 * v1) + m2 * (v2 * v2) <= (m1 * (u1 * u1) + m2 * (u2 * u2)) * (d * d)
        }),
{
    let q = en + ed;
    let w = u1 - u2;
    let m = m1 + m2;
    let d = ed * m;
    let v1 = u1 * d - m2 * q * w;
    let v2 = u2 * d + m1 * q * w;
    let a = u1 * d;
    let b = m2 * q * w;
    let c = u2 * d;
    let f = m1 * q * w;
    let g = m1 * m2 * q;
    let s = m1 * (v1 * v1) + m2 * (v2 * v2);
    let ke0 = m1 * (u1 * u1) + m2 * (u2 * u2);
    assert(v1 * v1 == a * a - 2 * (a * b) + b * b) by (nonlinear_arith)
        requires v1 == a - b;
    assert(v2 * v2 == c * c + 2 * (c * f) + f * f) by (nonlinear_arith)
        requires v2 == c + f;
    assert(s == m1 * (a * a) + m2 * (c * c) - 2 * (m1 * (a * b)) + 2 * (m2 * (c * f))
        + m1 * (b * b) + m2 * (f * f)) by (nonlinear_arith)
        requires
            s == m1 * (v1 * v1) + m2 * (v2 * v2),
            v1 * v1 == a * a - 2 * (a * b) + b * b,
            v2 * v2 == c * c + 2 * (c * f) + f * f,
    ;
    assert(a * a == (u1 * u1) * (d * d)) by (nonlinear_arith)
        requires a == u1 * d;
    assert(c * c == (u2 * u2) * (d * d)) by (nonlinear_arith)
        requires c == u2 * d;
    assert(m1 * ((u1 * u1) * (d * d)) + m2 * ((u2 * u2) * (d * d)) == ke0 * (d * d))
        by (nonlinear_arith)
        requires ke0 == m1 * (u1 * u1) + m2 * (u2 * u2);
    assert(m1 * (a * a) + m2 * (c * c) == ke0 * (d * d));
    assert(m1 * (a * b) == g * d * (u1 * w)) by (nonlinear_arith)
        requires
            a == u1 * d,
            b == m2 * q * w,
            g == m1 * m2 * q,
    ;
    assert(m2 * (c * f) == g * d * (u2 * w)) by (nonlinear_arith)
        requires
            c == u2 * d,
            f == m1 * q * w,
            g == m1 * m2 * q,
    ;
    assert(b * b == (m2 * m2) * ((q * q) * (w * w))) by (nonlinear_arith)
        requires b == m2 * q * w;
    assert(f * f == (m1 * m1) * ((q * q) * (w * w))) by (nonlinear_arith)
        requires f == m1 * q * w;
    assert(m1 * ((m2 * m2) * ((q * q) * (w * w))) + m2 * ((m1 * m1) * ((q * q) * (w * w)))
        == (m1 * m2) * ((q * q) * (w * w)) * m) by (nonlinear_arith)
        requires m == m1 + m2;
    assert((m1 * m2) * ((q * q) * (w * w)) * m == g * q * (w * w) * m) by (nonlinear_arith)
        requires g == m1 * m2 * q;
    assert(m1 * (b * b) + m2 * (f * f) == g * q * (w * w) * m);
    assert(-2 * (g * d * (u1 * w)) + 2 * (g * d * (u2 * w)) == -2 * (g * d * (w * w)))
        by (nonlinear_arith)
        requires w == u1 - u2;
    assert(-2 * (m1 * (a * b)) + 2 * (m2 * (c * f))
        == -2 * (g * d * (u1 * w)) + 2 * (g * d * (u2 * w)));
    assert(-2 * (m1 * (a * b)) + 2 * (m2 * (c * f)) == -2 * (g * d * (w * w)));
    assert(s == ke0 * (d * d) + g * q * (w * w) * m - 2 * (g * d * (w * w)));
    assert(g * q * (w * w) * m - 2 * (g * d * (w * w)) == g * (w * w) * (m * (en - ed)))
        by (nonlinear_arith)
        requires
            d == ed * m,
            q == en + ed,
    ;
    assert(g >= 1) by (nonlinear_arith)
        requires
            g == m1 * m2 * q,
            m1 >= 1,
            m2 >= 1,
            q >= 1,
    ;
    assert(g * (w * w) * (m * (en - ed)) <= 0) by (nonlinear_arith)
        requires
            g >= 1,
            m >= 2,
            en - ed <= 0,
    ;
}

/// Boundary containment: whenever the particle fits between the walls at
/// all, the boundary check leaves its disc inside `[0, w] × [0, h]`.
pub proof fn lemma_boundary_contains(p: PModel, w: int, h: int)
    requires
        2 * p.radius <= w,
        2 * p.radius <= h,
    ensures
        p.radius <= boundary_model(p, w, h).position.x <= w - p.radius,
        p.radius <= boundary_model(p, w, h).position.y <= h - p.radius,
{
}

/// The boundary check is idempotent: a particle already contained in the
/// bounds is left exactly as it is.
pub proof fn lemma_boundary_idempotent(p: PModel, w: int, h: int)
    requires
        p.radius <= p.position.x <= w - p.radius,
        p.radius <= p.position.y <= h - p.radius,
    ensures
        boundary_model(p, w, h) == p,
{
    assert(boundary_model(p, w, h) == p);
}

} // verus!
