use particle_system::particle::Particle;
use particle_system::renderer::Renderer;
use particle_system::simulation::Simulation;

fn tiny_sim(particles: Vec<Particle>) -> Simulation {
    Simulation {
        particles,
        width: 4_000,
        height: 4_000,
        forces: Vec::new(),
        last_update: 0,
    }
}

#[test]
fn renderer_starts_cleared() {
    let r = Renderer::new(4, 4);
    assert_eq!(r.buffer.len(), 16);
    assert!(r.buffer.iter().all(|&px| px == 0));
}

#[test]
fn render_draws_a_disc_clipped_to_coverage() {
    let mut r = Renderer::new(4, 4);
    let sim = tiny_sim(vec![Particle::new(1_500, 1_500, 1000, 1_000, 7)]);
    let buf = r.render(&sim);
    assert_eq!(buf.len(), 16);
    // A radius of one unit centered at (1.5, 1.5) covers exactly the four
    // pixels whose centers are half a unit away on each axis.
    for y in 0..4usize {
        for x in 0..4usize {
            let expected = if (1..=2).contains(&x) && (1..=2).contains(&y) { 7 } else { 0 };
            assert_eq!(buf[y * 4 + x], expected, "pixel ({}, {})", x, y);
        }
    }
}

#[test]
fn render_paints_later_particles_over_earlier() {
    let mut r = Renderer::new(4, 4);
    let sim = tiny_sim(vec![
        Particle::new(1_500, 1_500, 1000, 1_000, 7),
        Particle::new(1_500, 1_500, 1000, 1_000, 9),
    ]);
    let buf = r.render(&sim);
    assert_eq!(buf[1 * 4 + 1], 9);
    assert_eq!(buf[2 * 4 + 2], 9);
    assert_eq!(buf[0], 0);
}

#[test]
fn render_clips_offscreen_particle() {
    let mut r = Renderer::new(4, 4);
    let sim = tiny_sim(vec![Particle::new(-10_000, 2_000, 1000, 1_000, 5)]);
    let buf = r.render(&sim);
    assert!(buf.iter().all(|&px| px == 0));
}
