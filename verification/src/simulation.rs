//! The simulation: a particle population, a fixed force list, bounds, and
//! the per-frame pipeline — external forces, pairwise interaction,
//! integration, boundary collisions, pairwise collisions, in that order.

use vstd::prelude::*;
use crate::fixed::{MAG_MAX, SCALE};
use crate::force::{
    opt_v2, Force, ForceKind, Gravity, MouseGravity, GRAVITY_STRENGTH, MOUSE_GRAVITY_STRENGTH,
};
use crate::interaction::{
    apply_attraction_repulsion, interaction_model, lemma_models_update, models, wf_all,
};
use crate::particle::{
    apply_force_model, boundary_model, collide_model, collide_pair, update_model, wf, Particle,
    PModel, DAMPING, RESTITUTION,
};
use crate::vec2::{Vec2, V2};

verus! {

/// Upper bound on one frame's time step, in milliseconds (about 1/30 s):
/// long pauses must not inject a huge, destabilizing step.
pub const DT_MAX_MS: i64 = 33;

/// How many particles a simulation seeds.
pub const PARTICLE_COUNT: usize = 100;

/// View of an optional attraction point.
pub open spec fn opt_view(o: Option<Vec2>) -> Option<V2> {
    match o {
        Some(v) => Some(v@),
        None => None,
    }
}

/// Fold of the force list over one particle, from index `k` on: each force's
/// contribution, evaluated on the particle's (unchanging) position and
/// velocity, is accumulated in order.
pub open spec fn forces_from(p: PModel, fs: Seq<ForceKind>, k: int, ext: Option<V2>) -> PModel
    decreases fs.len() - k,
{
    if k < 0 || k >= fs.len() {
        p
    } else {
        forces_from(
            apply_force_model(p, fs[k].force_model(p.position, p.velocity, p.mass, ext)),
            fs,
            k + 1,
            ext,
        )
    }
}

/// The external-force pass: every force applied to every particle.
pub open spec fn forces_all(s: Seq<PModel>, fs: Seq<ForceKind>, ext: Option<V2>) -> Seq<PModel> {
    Seq::new(s.len(), |i: int| forces_from(s[i], fs, 0, ext))
}

/// The integration pass: every particle stepped by `dt` milliseconds.
pub open spec fn integrate_all(s: Seq<PModel>, dt: int) -> Seq<PModel> {
    Seq::new(s.len(), |i: int| update_model(s[i], dt))
}

/// The boundary pass: every particle kept inside the bounds.
pub open spec fn boundary_all(s: Seq<PModel>, w: int, h: int) -> Seq<PModel> {
    Seq::new(s.len(), |i: int| boundary_model(s[i], w, h))
}

/// One pairwise collision visit, exactly as the double loop performs it:
/// the particle of higher index takes the first role (the pass measures the
/// offset from the lower-index particle to it) and the global `RESTITUTION`
/// is the pair's elasticity.
pub open spec fn collide_step(s: Seq<PModel>, i: int, j: int) -> Seq<PModel> {
    let r = collide_model(s[j], s[i], RESTITUTION as int);
    s.update(j, r.0).update(i, r.1)
}

/// Collision visits `(i, j)` for fixed `i` and all `j` in `[j0, n)`.
pub open spec fn collisions_inner(s: Seq<PModel>, i: int, j0: int, n: int) -> Seq<PModel>
    decreases n - j0,
{
    if j0 < 0 || j0 >= n {
        s
    } else {
        collisions_inner(collide_step(s, i, j0), i, j0 + 1, n)
    }
}

/// Collision visits for every unordered pair with `i0 <= i < j < n`.
pub open spec fn collisions_outer(s: Seq<PModel>, i0: int, n: int) -> Seq<PModel>
    decreases n - i0,
{
    if i0 < 0 || i0 >= n {
        s
    } else {
        collisions_outer(collisions_inner(s, i0, i0 + 1, n), i0 + 1, n)
    }
}

/// The whole particle–particle collision pass.
pub open spec fn collisions_model(s: Seq<PModel>) -> Seq<PModel> {
    collisions_outer(s, 0, s.len() as int)
}

/// One whole frame: forces, interaction, integration, boundary collisions,
/// pairwise collisions — in exactly this order.
pub open spec fn step_model(
    s: Seq<PModel>,
    fs: Seq<ForceKind>,
    dt: int,
    ext: Option<V2>,
    w: int,
    h: int,
) -> Seq<PModel> {
    collisions_model(boundary_all(integrate_all(interaction_model(forces_all(s, fs, ext)), dt), w, h))
}

/// Boundary containment over a whole frame's boundary pass: every particle
/// that fits between the walls ends the pass with its disc inside the
/// bounds.
pub proof fn lemma_boundary_all_contained(s: Seq<PModel>, w: int, h: int)
    ensures
        forall|k: int|
            0 <= k < s.len() && 2 * s[k].radius <= w && 2 * s[k].radius <= h
                ==> s[k].radius <= #[trigger] boundary_all(s, w, h)[k].position.x
                    <= w - s[k].radius
                && s[k].radius <= boundary_all(s, w, h)[k].position.y <= h - s[k].radius,
{
    assert forall|k: int|
        0 <= k < s.len() && 2 * s[k].radius <= w && 2 * s[k].radius <= h
        implies s[k].radius <= #[trigger] boundary_all(s, w, h)[k].position.x
            <= w - s[k].radius
        && s[k].radius <= boundary_all(s, w, h)[k].position.y <= h - s[k].radius by {
        crate::particle::lemma_boundary_contains(s[k], w, h);
    }
}

/// A particle as `Simulation::new` seeds it: at rest inside the bounds, with
/// mass in the configured range, radius derived from the mass, and a packed
/// RGB color.
pub open spec fn seeded(p: PModel, w: int, h: int) -> bool {
    &&& 0 <= p.position.x < w
    &&& 0 <= p.position.y < h
    &&& p.velocity == (V2 { x: 0int, y: 0int })
    &&& p.acceleration == (V2 { x: 0int, y: 0int })
    &&& 1000 <= p.mass < 5000
    &&& p.radius == 2 * p.mass
    &&& 0 <= p.color < 0x1000000
    &&& p.damping == DAMPING as int
    &&& p.restitution == RESTITUTION as int
}

/// The particle simulation.
pub struct Simulation {
    pub particles: Vec<Particle>,
    /// Bounds in milli-units.
    pub width: i64,
    pub height: i64,
    pub forces: Vec<ForceKind>,
    /// Wall-clock timestamp of the previous frame, in milliseconds.
    pub last_update: u64,
}

/// Validity of a simulation: well-formed particles and bounds within the
/// fixed-point range.
pub open spec fn sim_wf(s: Simulation) -> bool {
    &&& wf_all(models(s.particles@))
    &&& 0 <= s.width <= MAG_MAX
    &&& 0 <= s.height <= MAG_MAX
}

/// Relies on rand's `thread_rng` and `Rng::gen_range`: a uniformly random
/// value in `[lo, hi)`; nothing more can be promised of a random draw.
#[verifier::external_body]
fn rand_range(lo: i64, hi: i64) -> (r: i64)
    requires
        lo < hi,
    ensures
        lo <= r < hi,
{
    rand::Rng::gen_range(&mut rand::thread_rng(), lo..hi)
}

/// Relies on std's `SystemTime::now`: the current wall-clock time, converted
/// to whole milliseconds since the Unix epoch (0 if the clock reads before
/// it). Nothing can be promised of the clock.
#[verifier::external_body]
fn now_millis() -> (r: u64) {
    std::time::SystemTime::now()
        .duration_since(std::time::UNIX_EPOCH)
        .map(|d| d.as_millis() as u64)
        .unwrap_or(0)
}

impl Simulation {
    /// A simulation over `width × height` world units, seeded with
    /// `PARTICLE_COUNT` random particles at rest and the fixed force list:
    /// gravity and mouse gravity, at their default strengths.
    pub fn new(width: usize, height: usize) -> (r: Simulation)
        requires
            1 <= width <= 1_000_000_000,
            1 <= height <= 1_000_000_000,
        ensures
            r.width == width * (SCALE as int),
            r.height == height * (SCALE as int),
            r.particles@.len() == PARTICLE_COUNT,
            forall|m: int| 0 <= m < r.particles@.len()
                ==> seeded(#[trigger] models(r.particles@)[m], r.width as int, r.height as int),
            sim_wf(r),
            r.forces@.len() == 2,
            r.forces@[0] == ForceKind::Gravity(Gravity {
                strength: GRAVITY_STRENGTH,
                direction: Vec2 { x: 0i64, y: SCALE },
            }),
            r.forces@[1] == ForceKind::MouseGravity(MouseGravity {
                strength: MOUSE_GRAVITY_STRENGTH,
            }),
    {
        let width_m: i64 = (width as i64) * SCALE;
        let height_m: i64 = (height as i64) * SCALE;
        let mut particles: Vec<Particle> = Vec::new();
        let mut k: usize = 0;
        while k < PARTICLE_COUNT
            invariant
                k <= PARTICLE_COUNT,
                particles@.len() == k,
                1 <= width_m <= MAG_MAX,
                1 <= height_m <= MAG_MAX,
                forall|m: int| 0 <= m < k
                    ==> seeded(#[trigger] models(particles@)[m], width_m as int, height_m as int),
                forall|m: int| 0 <= m < k ==> wf(#[trigger] models(particles@)[m]),
            decreases PARTICLE_COUNT - k,
        {
            let x = rand_range(0, width_m);
            let y = rand_range(0, height_m);
            let mass = rand_range(1000, 5000);
            let radius = mass * 2;
            let cr = rand_range(0, 255);
            let cg = rand_range(0, 255);
            let cb = rand_range(0, 255);
            let color: u32 = (cr * 0x10000 + cg * 0x100 + cb) as u32;
            let p = Particle::new(x, y, mass, radius, color);
            let ghost prev = particles@;
            particles.push(p);
            proof {
                crate::interaction::lemma_models_push(prev, p);
                assert(models(particles@)[k as int] == p@);
                assert(seeded(p@, width_m as int, height_m as int));
                assert(forall|m: int| 0 <= m < k
                    ==> #[trigger] models(particles@)[m] == models(prev)[m]);
            }
            k = k + 1;
        }
        let mut forces: Vec<ForceKind> = Vec::new();
        forces.push(ForceKind::Gravity(Gravity::default()));
        forces.push(ForceKind::MouseGravity(MouseGravity::default()));
        Simulation {
            particles,
            width: width_m,
            height: height_m,
            forces,
            last_update: now_millis(),
        }
    }

    /// Advance one frame: the time step is the wall-clock time since the
    /// previous frame, clamped to `[0, DT_MAX_MS]` milliseconds, and the
    /// state advances by exactly one `step_model` of that step.
    pub fn update(&mut self, external_point: Option<Vec2>)
        requires
            sim_wf(*old(self)),
        ensures
            exists|dt: int|
                0 <= dt <= DT_MAX_MS && models(final(self).particles@) == #[trigger] step_model(
                    models(old(self).particles@),
                    old(self).forces@,
                    dt,
                    opt_view(external_point),
                    old(self).width as int,
                    old(self).height as int,
                ),
            final(self).width == old(self).width,
            final(self).height == old(self).height,
            final(self).forces@ == old(self).forces@,
            final(self).particles@.len() == old(self).particles@.len(),
            sim_wf(*final(self)),
    {
        let now = now_millis();
        let dt: i64 = if now >= self.last_update {
            let d: u64 = now - self.last_update;
            if d > 33u64 {
                DT_MAX_MS
            } else {
                d as i64
            }
        } else {
            0
        };
        self.last_update = now;
        self.step(dt, external_point);
        proof {
            assert(0 <= dt as int <= DT_MAX_MS);
        }
    }

    /// Advance one frame by a given time step of `dt` milliseconds:
    /// the six-stage pipeline, deterministically.
    pub fn step(&mut self, dt: i64, external_point: Option<Vec2>)
        requires
            sim_wf(*old(self)),
            0 <= dt,
        ensures
            models(final(self).particles@) == step_model(
                models(old(self).particles@),
                old(self).forces@,
                dt as int,
                opt_view(external_point),
                old(self).width as int,
                old(self).height as int,
            ),
            final(self).width == old(self).width,
            final(self).height == old(self).height,
            final(self).forces@ == old(self).forces@,
            final(self).last_update == old(self).last_update,
            final(self).particles@.len() == old(self).particles@.len(),
            sim_wf(*final(self)),
    {
        let ghost s0 = models(self.particles@);
        let ghost fs0 = self.forces@;
        let ghost w0 = self.width;
        let ghost h0 = self.height;
        let ghost t0 = self.last_update;
        let ghost ext0 = opt_view(external_point);
        let ext_ref: Option<&Vec2> = match &external_point {
            Some(v) => Some(v),
            None => None,
        };
        proof {
            assert(opt_v2(ext_ref) == ext0);
        }

        // 1. Apply every external force to every particle.
        let n = self.particles.len();
        let mut i: usize = 0;
        while i < n
            invariant
                n == self.particles@.len(),
                i <= n,
                self.forces@ == fs0,
                self.width == w0,
                self.height == h0,
                self.last_update == t0,
                opt_v2(ext_ref) == ext0,
                wf_all(models(self.particles@)),
                forall|m: int| 0 <= m < i
                    ==> #[trigger] models(self.particles@)[m] == forces_from(s0[m], fs0, 0, ext0),
                forall|m: int| i <= m < n ==> #[trigger] models(self.particles@)[m] == s0[m],
            decreases n - i,
        {
            let ghost raw = self.particles@;
            let mut p = self.particles[i];
            proof {
                assert(models(raw)[i as int] == p@);
                assert(wf(p@));
                assert(p@ == s0[i as int]);
            }
            let ghost pstart = p@;
            let nf = self.forces.len();
            let mut k: usize = 0;
            while k < nf
                invariant
                    k <= nf,
                    nf == self.forces@.len(),
                    self.forces@ == fs0,
                    opt_v2(ext_ref) == ext0,
                    wf(p@),
                    forces_from(p@, fs0, k as int, ext0) == forces_from(pstart, fs0, 0, ext0),
                decreases nf - k,
            {
                let ghost pk = p@;
                let force = &self.forces[k];
                let f = force.apply(&p.position, &p.velocity, p.mass, ext_ref);
                proof {
                    assert(f@ == fs0[k as int].force_model(pk.position, pk.velocity, pk.mass, ext0));
                }
                p.apply_force(f);
                proof {
                    assert(p@ == apply_force_model(pk, f@));
                    assert(forces_from(pk, fs0, k as int, ext0) == forces_from(
                        p@,
                        fs0,
                        k as int + 1,
                        ext0,
                    ));
                }
                k = k + 1;
            }
            self.particles[i] = p;
            proof {
                lemma_models_update(raw, i as int, p);
                assert(forces_from(p@, fs0, nf as int, ext0) == p@);
                assert(models(self.particles@)[i as int] == forces_from(s0[i as int], fs0, 0, ext0));
            }
            i = i + 1;
        }
        proof {
            assert(models(self.particles@) =~= forces_all(s0, fs0, ext0));
        }
        let ghost s1 = forces_all(s0, fs0, ext0);

        // 2. Pairwise attraction/repulsion.
        apply_attraction_repulsion(&mut self.particles);
        let ghost s2 = interaction_model(s1);

        // 3. Integrate every particle.
        let mut i2: usize = 0;
        while i2 < n
            invariant
                n == self.particles@.len(),
                i2 <= n,
                self.forces@ == fs0,
                self.width == w0,
                self.height == h0,
                self.last_update == t0,
                0 <= dt,
                wf_all(models(self.particles@)),
                forall|m: int| 0 <= m < i2
                    ==> #[trigger] models(self.particles@)[m] == update_model(s2[m], dt as int),
                forall|m: int| i2 <= m < n ==> #[trigger] models(self.particles@)[m] == s2[m],
            decreases n - i2,
        {
            let ghost raw = self.particles@;
            let mut p = self.particles[i2];
            proof {
                assert(models(raw)[i2 as int] == p@);
                assert(wf(p@));
                assert(p@ == s2[i2 as int]);
            }
            p.update(dt);
            self.particles[i2] = p;
            proof {
                lemma_models_update(raw, i2 as int, p);
                assert(models(self.particles@)[i2 as int] == update_model(s2[i2 as int], dt as int));
            }
            i2 = i2 + 1;
        }
        proof {
            assert(models(self.particles@) =~= integrate_all(s2, dt as int));
        }
        let ghost s3 = integrate_all(s2, dt as int);

        // 4. Boundary collisions.
        let mut i3: usize = 0;
        while i3 < n
            invariant
                n == self.particles@.len(),
                i3 <= n,
                self.forces@ == fs0,
                self.width == w0,
                self.height == h0,
                self.last_update == t0,
                0 <= w0 <= MAG_MAX,
                0 <= h0 <= MAG_MAX,
                wf_all(models(self.particles@)),
                forall|m: int| 0 <= m < i3
                    ==> #[trigger] models(self.particles@)[m] == boundary_model(
                    s3[m],
                    w0 as int,
                    h0 as int,
                ),
                forall|m: int| i3 <= m < n ==> #[trigger] models(self.particles@)[m] == s3[m],
            decreases n - i3,
        {
            let ghost raw = self.particles@;
            let mut p = self.particles[i3];
            proof {
                assert(models(raw)[i3 as int] == p@);
                assert(wf(p@));
                assert(p@ == s3[i3 as int]);
            }
            let w = self.width;
            let h = self.height;
            p.handle_boundary_collision(w, h);
            self.particles[i3] = p;
            proof {
                lemma_models_update(raw, i3 as int, p);
                assert(models(self.particles@)[i3 as int] == boundary_model(
                    s3[i3 as int],
                    w0 as int,
                    h0 as int,
                ));
            }
            i3 = i3 + 1;
        }
        proof {
            assert(models(self.particles@) =~= boundary_all(s3, w0 as int, h0 as int));
        }

        // 5. Particle–particle collisions.
        self.handle_particle_collisions();
    }

    /// Resolve every pairwise collision once, in index order, with the
    /// global `RESTITUTION` as each pair's elasticity.
    pub fn handle_particle_collisions(&mut self)
        requires
            wf_all(models(old(self).particles@)),
        ensures
            models(final(self).particles@) == collisions_model(models(old(self).particles@)),
            final(self).particles@.len() == old(self).particles@.len(),
            wf_all(models(final(self).particles@)),
            final(self).width == old(self).width,
            final(self).height == old(self).height,
            final(self).forces@ == old(self).forces@,
            final(self).last_update == old(self).last_update,
    {
        let ghost goal = collisions_model(models(self.particles@));
        let ghost fs0 = self.forces@;
        let ghost w0 = self.width;
        let ghost h0 = self.height;
        let ghost t0 = self.last_update;
        let n = self.particles.len();
        let mut i: usize = 0;
        while i < n
            invariant
                n == self.particles@.len(),
                i <= n,
                self.forces@ == fs0,
                self.width == w0,
                self.height == h0,
                self.last_update == t0,
                wf_all(models(self.particles@)),
                collisions_outer(models(self.particles@), i as int, n as int) == goal,
            decreases n - i,
        {
            let mut j: usize = i + 1;
            proof {
                assert(collisions_outer(models(self.particles@), i as int, n as int)
                    == collisions_outer(
                    collisions_inner(models(self.particles@), i as int, i + 1, n as int),
                    i + 1,
                    n as int,
                ));
            }
            while j < n
                invariant
                    n == self.particles@.len(),
                    i < n,
                    i + 1 <= j <= n,
                    self.forces@ == fs0,
                    self.width == w0,
                    self.height == h0,
                    self.last_update == t0,
                    wf_all(models(self.particles@)),
                    collisions_outer(
                        collisions_inner(models(self.particles@), i as int, j as int, n as int),
                        i as int + 1,
                        n as int,
                    ) == goal,
                decreases n - j,
            {
                let ghost raw = self.particles@;
                let ghost before = models(raw);
                let pj = self.particles[j];
                let pi = self.particles[i];
                let r = collide_pair(pj, pi, RESTITUTION);
                self.particles[j] = r.0;
                self.particles[i] = r.1;
                proof {
                    lemma_models_update(raw, j as int, r.0);
                    lemma_models_update(raw.update(j as int, r.0), i as int, r.1);
                    assert(self.particles@ == raw.update(j as int, r.0).update(i as int, r.1));
                    assert(models(self.particles@) == collide_step(before, i as int, j as int));
                    assert(collisions_inner(before, i as int, j as int, n as int)
                        == collisions_inner(
                        collide_step(before, i as int, j as int),
                        i as int,
                        j as int + 1,
                        n as int,
                    ));
                }
                j = j + 1;
            }
            proof {
                assert(collisions_inner(models(self.particles@), i as int, n as int, n as int)
                    == models(self.particles@));
            }
            i = i + 1;
        }
        proof {
            assert(collisions_outer(models(self.particles@), n as int, n as int)
                == models(self.particles@));
        }
    }
}

} // verus!
