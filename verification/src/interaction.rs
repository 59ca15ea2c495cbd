//! Pairwise spring-like attraction/repulsion between every unordered pair of
//! particles: a linear restoring force toward an equilibrium separation,
//! attractive beyond it and repulsive within it, applied equal and opposite.

use vstd::prelude::*;
use crate::fixed::{sat, tdiv, SCALE};
use crate::particle::{apply_force_model, wf, Particle, PModel};
use crate::vec2::{v2_dot, v2_muldiv, v2_neg, v2_norm, v2_sub, V2};

verus! {

/// Separation at which the pair force vanishes: 50 world units, in milli.
pub const EQUILIBRIUM_DISTANCE: i64 = 50_000;

/// Spring coefficient: 0.05, in milli.
pub const INTERACTION_COEFFICIENT: i64 = 50;

/// Views of a particle sequence.
pub open spec fn models(s: Seq<Particle>) -> Seq<PModel> {
    s.map_values(|p: Particle| p@)
}

/// Every particle of the sequence is well-formed.
pub open spec fn wf_all(s: Seq<PModel>) -> bool {
    forall|k: int| 0 <= k < s.len() ==> wf(#[trigger] s[k])
}

/// The spring force the pair law applies to `a`, pulling it toward (or, when
/// the pair is nearer than the equilibrium distance, pushing it away from)
/// `b`. The force applied to `b` is the exact negation.
pub open spec fn pair_force_model(a: PModel, b: PModel) -> V2 {
    let diff = v2_sub(b.position, a.position);
    let dist = v2_norm(diff);
    let magnitude = sat(tdiv(
        INTERACTION_COEFFICIENT as int * (dist - EQUILIBRIUM_DISTANCE as int),
        SCALE as int,
    ));
    v2_muldiv(v2_muldiv(diff, SCALE as int, dist), magnitude, SCALE as int)
}

/// One pair visit: if the quantized separation is zero (coincident within
/// one milli-unit) the pair is skipped; otherwise the spring force is
/// accumulated on `i` and its exact negation on `j`.
pub open spec fn pair_step(s: Seq<PModel>, i: int, j: int) -> Seq<PModel> {
    let a = s[i];
    let b = s[j];
    let dist = v2_norm(v2_sub(b.position, a.position));
    if dist == 0 {
        s
    } else {
        let f = pair_force_model(a, b);
        s.update(i, apply_force_model(a, f)).update(j, apply_force_model(b, v2_neg(f)))
    }
}

/// Visit the pairs `(i, j)` for this fixed `i` and all `j` in `[j0, n)`.
pub open spec fn interaction_inner(s: Seq<PModel>, i: int, j0: int, n: int) -> Seq<PModel>
    decreases n - j0,
{
    if j0 < 0 || j0 >= n {
        s
    } else {
        interaction_inner(pair_step(s, i, j0), i, j0 + 1, n)
    }
}

/// Visit every unordered pair `(i, j)` with `i0 <= i < j < n`, in the order
/// the double loop does.
pub open spec fn interaction_outer(s: Seq<PModel>, i0: int, n: int) -> Seq<PModel>
    decreases n - i0,
{
    if i0 < 0 || i0 >= n {
        s
    } else {
        interaction_outer(interaction_inner(s, i0, i0 + 1, n), i0 + 1, n)
    }
}

/// The whole interaction pass over a particle sequence.
pub open spec fn interaction_model(s: Seq<PModel>) -> Seq<PModel> {
    interaction_outer(s, 0, s.len() as int)
}

/// Views commute with a pointwise update.
pub proof fn lemma_models_update(s: Seq<Particle>, i: int, p: Particle)
    requires
        0 <= i < s.len(),
    ensures
        models(s.update(i, p)) == models(s).update(i, p@),
{
    assert(models(s.update(i, p)) =~= models(s).update(i, p@));
}

/// Views commute with appending.
pub proof fn lemma_models_push(s: Seq<Particle>, p: Particle)
    ensures
        models(s.push(p)) == models(s).push(p@),
{
    assert(models(s.push(p)) =~= models(s).push(p@));
}

/// Newton's third law for the pair law: swapping the roles of the two
/// particles negates the force exactly, whenever the pair is not skipped.
/// (Within one pair visit the law already applies `pair_force_model(a, b)`
/// to the first particle and its exact negation to the second, by
/// construction of `pair_step`.)
pub proof fn lemma_interaction_antisymmetric(a: PModel, b: PModel)
    requires
        v2_norm(v2_sub(b.position, a.position)) != 0,
    ensures
        pair_force_model(b, a) == v2_neg(pair_force_model(a, b)),
{
    let diff = v2_sub(b.position, a.position);
    let rdiff = v2_sub(a.position, b.position);
    assert(rdiff.x == -diff.x && rdiff.y == -diff.y);
    assert(rdiff.x * rdiff.x == diff.x * diff.x && rdiff.y * rdiff.y == diff.y * diff.y)
        by (nonlinear_arith)
        requires
            rdiff.x == -diff.x,
            rdiff.y == -diff.y,
    ;
    assert(0 <= diff.x * diff.x + diff.y * diff.y) by (nonlinear_arith);
    crate::fixed::lemma_sqrt_floor_is_sqrt(v2_dot(diff, diff));
    let dist = v2_norm(diff);
    assert(dist > 0);
    assert(v2_norm(rdiff) == dist);
    let magnitude = sat(tdiv(
        INTERACTION_COEFFICIENT as int * (dist - EQUILIBRIUM_DISTANCE as int),
        SCALE as int,
    ));
    assert((-diff.x) * (SCALE as int) == -(diff.x * (SCALE as int))) by (nonlinear_arith);
    assert((-diff.y) * (SCALE as int) == -(diff.y * (SCALE as int))) by (nonlinear_arith);
    crate::fixed::lemma_tdiv_neg(diff.x * (SCALE as int), dist);
    crate::fixed::lemma_tdiv_neg(diff.y * (SCALE as int), dist);
    let dir = v2_muldiv(diff, SCALE as int, dist);
    let rdir = v2_muldiv(rdiff, SCALE as int, dist);
    assert(rdir.x == -dir.x && rdir.y == -dir.y);
    assert((-dir.x) * magnitude == -(dir.x * magnitude)) by (nonlinear_arith);
    assert((-dir.y) * magnitude == -(dir.y * magnitude)) by (nonlinear_arith);
    crate::fixed::lemma_tdiv_neg(dir.x * magnitude, SCALE as int);
    crate::fixed::lemma_tdiv_neg(dir.y * magnitude, SCALE as int);
}

/// Applies the spring law once to every unique pair of particles: particles
/// separated by more than the equilibrium distance are drawn together, and
/// those closer are pushed apart, with equal and opposite forces.
pub fn apply_attraction_repulsion(particles: &mut Vec<Particle>)
    requires
        wf_all(models(old(particles)@)),
    ensures
        models(final(particles)@) == interaction_model(models(old(particles)@)),
        final(particles)@.len() == old(particles)@.len(),
        wf_all(models(final(particles)@)),
{
    let ghost goal = interaction_model(models(particles@));
    let n = particles.len();
    let mut i: usize = 0;
    while i < n
        invariant
            n == particles@.len(),
            i <= n,
            wf_all(models(particles@)),
            interaction_outer(models(particles@), i as int, n as int) == goal,
        decreases n - i,
    {
        let mut j: usize = i + 1;
        proof {
            assert(interaction_outer(models(particles@), i as int, n as int)
                == interaction_outer(
                interaction_inner(models(particles@), i as int, i + 1, n as int),
                i + 1,
                n as int,
            ));
        }
        while j < n
            invariant
                n == particles@.len(),
                i < n,
                i + 1 <= j <= n,
                wf_all(models(particles@)),
                interaction_outer(
                    interaction_inner(models(particles@), i as int, j as int, n as int),
                    i as int + 1,
                    n as int,
                ) == goal,
            decreases n - j,
        {
            let ghost raw = particles@;
            let ghost before = models(raw);
            let pi = particles[i];
            let pj = particles[j];
            let diff = pj.position.sub(pi.position);
            let dist = diff.norm();
            if dist > 0 {
                let direction = diff.muldiv(SCALE, dist);
                let magnitude = crate::fixed::muldiv(
                    INTERACTION_COEFFICIENT,
                    dist - EQUILIBRIUM_DISTANCE,
                    SCALE,
                );
                let force = direction.muldiv(magnitude, SCALE);
                let mut a = pi;
                a.apply_force(force);
                let mut b = pj;
                b.apply_force(force.neg());
                particles[i] = a;
                particles[j] = b;
                proof {
                    lemma_models_update(raw, i as int, a);
                    lemma_models_update(raw.update(i as int, a), j as int, b);
                    assert(particles@ == raw.update(i as int, a).update(j as int, b));
                    assert(force@ == pair_force_model(before[i as int], before[j as int]));
                    assert(models(particles@)
                        == before.update(i as int, a@).update(j as int, b@));
                    assert(models(particles@) == pair_step(before, i as int, j as int));
                    assert(wf_all(models(particles@)));
                }
            } else {
                proof {
                    assert(models(particles@) == pair_step(before, i as int, j as int));
                }
            }
            proof {
                assert(interaction_inner(before, i as int, j as int, n as int)
                    == interaction_inner(
                    pair_step(before, i as int, j as int),
                    i as int,
                    j as int + 1,
                    n as int,
                ));
            }
            j = j + 1;
        }
        proof {
            assert(interaction_inner(models(particles@), i as int, n as int, n as int)
                == models(particles@));
        }
        i = i + 1;
    }
    proof {
        assert(interaction_outer(models(particles@), n as int, n as int) == models(particles@));
    }
}

} // verus!
