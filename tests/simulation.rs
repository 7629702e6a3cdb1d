use flip_fluid::fixed::{clamp_vel, floor_div, isqrt, trunc_div, VMAX};
use flip_fluid::grid::{CellType, NUM_CELLS, WIDTH};
use flip_fluid::particle::{
    advect, integrate_forces, resolve_boundary_collisions, resolve_particle_collisions, Particle,
    MAX_COORD, MIN_COORD, NUM_PARTICLES,
};
use flip_fluid::sim::{FluidSim, LED_ON};
use flip_fluid::transfer::scatter;

fn at(x: i64, y: i64, vx: i64, vy: i64) -> Particle {
    Particle { x, y, vx, vy }
}

fn assert_inside(sim: &FluidSim) {
    for p in sim.particles.iter() {
        assert!(p.x >= MIN_COORD && p.x <= MAX_COORD, "x out of the box: {:?}", p);
        assert!(p.y >= MIN_COORD && p.y <= MAX_COORD, "y out of the box: {:?}", p);
    }
}

/// Particles far off the grid, which no transfer reaches.
fn parked() -> [Particle; NUM_PARTICLES] {
    [at(9000, 9000, 0, 0); NUM_PARTICLES]
}

/// A small deterministic generator for repeatable "random" configurations.
fn next(seed: &mut u64) -> i64 {
    *seed = seed.wrapping_mul(6364136223846793005).wrapping_add(1442695040888963407);
    ((*seed >> 33) % 2001) as i64 - 1000
}

fn total_overlap(ps: &[Particle]) -> i64 {
    let mut total = 0;
    for i in 0..ps.len() {
        for j in (i + 1)..ps.len() {
            let dx = ps[j].x - ps[i].x;
            let dy = ps[j].y - ps[i].y;
            let d = isqrt(dx * dx + dy * dy);
            if d < 400 {
                total += 400 - d;
            }
        }
    }
    total
}

fn total_divergence(sim: &FluidSim) -> i64 {
    let mut total = 0;
    for k in 0..NUM_CELLS {
        if sim.cell_types[k] == CellType::Fluid {
            let d = sim.u[k + 1] - sim.u[k] + sim.v[k + WIDTH] - sim.v[k];
            total += d.abs();
        }
    }
    total
}

#[test]
fn new_packs_block_at_rest() {
    let sim = FluidSim::new();
    assert_eq!(sim.particles.len(), NUM_PARTICLES);
    assert_eq!(sim.particles[0], at(1500, 1500, 0, 0));
    assert_eq!(sim.particles[7], at(3500, 2500, 0, 0));
    assert_eq!(sim.particles[24], at(5500, 5500, 0, 0));
    assert_eq!(sim.s[0], 0);
    assert_eq!(sim.s[WIDTH + 1], 1);
    assert_eq!(sim.s[NUM_CELLS - 1], 0);
    assert!(sim.u.iter().all(|&x| x == 0));
}

#[test]
fn count_is_kept_over_many_frames() {
    let mut sim = FluidSim::new();
    let mut seed = 7u64;
    for _ in 0..40 {
        let ax = (next(&mut seed) * 2) as i32;
        let ay = (next(&mut seed) * 2) as i32;
        sim.step(ax, ay);
        assert_eq!(sim.particles.len(), NUM_PARTICLES);
    }
}

#[test]
fn particles_stay_inside_the_walls() {
    let mut sim = FluidSim::new();
    let tilts = [(2000, 0), (0, 2000), (-2000, -2000), (1500, -1800), (i32::MAX, i32::MIN)];
    for &(ax, ay) in tilts.iter() {
        for _ in 0..10 {
            sim.step(ax, ay);
            assert_inside(&sim);
        }
    }
}

#[test]
fn collision_passes_reduce_overlap() {
    let mut seed = 11u64;
    let mut ps = [Particle::default(); NUM_PARTICLES];
    for p in ps.iter_mut() {
        let x = 3000 + next(&mut seed) / 2;
        let y = 3000 + next(&mut seed) / 2;
        *p = at(x, y, 0, 0);
    }
    let before = total_overlap(&ps);
    resolve_particle_collisions(&mut ps);
    let after = total_overlap(&ps);
    assert!(after < before, "overlap {} did not shrink from {}", after, before);
}

#[test]
fn overlapping_pair_ends_two_radii_apart() {
    let mut ps = [Particle::default(); NUM_PARTICLES];
    for i in 0..NUM_PARTICLES {
        ps[i] = at(-100_000 - i as i64 * 1000, -100_000, 0, 0);
    }
    ps[0] = at(3000, 3000, 5, 6);
    ps[1] = at(3200, 3000, 7, 8);
    resolve_particle_collisions(&mut ps);
    assert_eq!(ps[0], at(2900, 3000, 5, 6));
    assert_eq!(ps[1], at(3300, 3000, 7, 8));
}

#[test]
fn coincident_pair_is_left_alone() {
    let mut ps = [Particle::default(); NUM_PARTICLES];
    for i in 0..NUM_PARTICLES {
        ps[i] = at(i as i64 * 1000, 0, 0, 0);
    }
    ps[1] = at(0, 0, 0, 0);
    resolve_particle_collisions(&mut ps);
    assert_eq!(ps[0], at(0, 0, 0, 0));
    assert_eq!(ps[1], at(0, 0, 0, 0));
}

#[test]
fn solid_faces_carry_no_flow() {
    let mut sim = FluidSim::new();
    let mut seed = 3u64;
    for i in 0..NUM_PARTICLES {
        let p = &mut sim.particles[i];
        p.vx = next(&mut seed) * 50;
        p.vy = next(&mut seed) * 50;
    }
    sim.particles[0] = at(MIN_COORD, MIN_COORD, -40_000, -40_000);
    sim.particles[24] = at(MAX_COORD, MAX_COORD, 40_000, 40_000);
    sim.apply_particles_to_grid();
    for k in 0..NUM_CELLS {
        if sim.cell_types[k] == CellType::Solid {
            assert_eq!(sim.u[k], 0);
            assert_eq!(sim.v[k], 0);
            if k % WIDTH < WIDTH - 1 {
                assert_eq!(sim.u[k + 1], 0);
            }
            if k + WIDTH < NUM_CELLS {
                assert_eq!(sim.v[k + WIDTH], 0);
            }
        }
    }
    assert_ne!(sim.u[2 * WIDTH + 2], 0);
}

#[test]
fn grid_velocity_is_weighted_mean() {
    let mut ps = parked();
    ps[0] = at(2000, 2500, 100, 0);
    ps[1] = at(2500, 2500, 301, 0);
    let mut u = [7i64; NUM_CELLS];
    scatter(&ps, true, &mut u);
    // Node (2, 2) gets weight 1 from the first and 1/2 from the second.
    assert_eq!(u[2 * WIDTH + 2], (100 * 1_000_000 + 301 * 500_000) / 1_500_000);
    assert_eq!(u[2 * WIDTH + 2], 167);
    assert_eq!(u[2 * WIDTH + 3], 301);
    assert_eq!(u[3 * WIDTH + 2], 0);
    let mut v = [7i64; NUM_CELLS];
    scatter(&ps, false, &mut v);
    assert!(v.iter().all(|&x| x == 0));
}

#[test]
fn mean_rounds_toward_zero() {
    let mut ps = parked();
    ps[0] = at(2000, 2500, -2, 0);
    ps[1] = at(2500, 2500, 0, 0);
    let mut u = [0i64; NUM_CELLS];
    scatter(&ps, true, &mut u);
    // -2 * 1e6 / 1.5e6 = -1.33, which rounds toward zero to -1.
    assert_eq!(u[2 * WIDTH + 2], -1);
    ps[0].vx = 2;
    scatter(&ps, true, &mut u);
    assert_eq!(u[2 * WIDTH + 2], 1);
}

#[test]
fn sample_off_the_lattice_is_skipped() {
    let mut ps = parked();
    ps[0] = at(6500, 3000, 500, 500);
    let mut u = [7i64; NUM_CELLS];
    scatter(&ps, true, &mut u);
    assert!(u.iter().all(|&x| x == 0));
}

#[test]
fn cells_are_classified() {
    let mut sim = FluidSim::new();
    sim.apply_particles_to_grid();
    for k in 0..NUM_CELLS {
        let (i, j) = (k % WIDTH, k / WIDTH);
        let border = i == 0 || j == 0 || i == WIDTH - 1 || j == WIDTH - 1;
        let expected = if border { CellType::Solid } else { CellType::Fluid };
        assert_eq!(sim.cell_types[k], expected);
    }
    sim.particles = [at(2500, 2500, 0, 0); NUM_PARTICLES];
    sim.apply_particles_to_grid();
    assert_eq!(sim.cell_types[2 * WIDTH + 2], CellType::Fluid);
    assert_eq!(sim.cell_types[3 * WIDTH + 3], CellType::Air);
}

#[test]
fn projection_reduces_divergence() {
    let mut sim = FluidSim::new();
    let mut seed = 42u64;
    for i in 0..NUM_PARTICLES {
        let p = &mut sim.particles[i];
        p.vx = next(&mut seed);
        p.vy = next(&mut seed);
    }
    sim.apply_particles_to_grid();
    let mut prev = total_divergence(&sim);
    assert!(prev > 0);
    for _ in 0..5 {
        sim.apply_incompressibility_to_grid();
        let now = total_divergence(&sim);
        assert!(now <= prev, "divergence rose from {} to {}", prev, now);
        prev = now;
    }
}

#[test]
fn rest_state_stays_put() {
    let mut sim = FluidSim::new();
    let start = sim.particles;
    sim.step(0, 0);
    assert_inside(&sim);
    for i in 0..NUM_PARTICLES {
        assert_eq!(sim.particles[i].x, start[i].x);
        assert_eq!(sim.particles[i].y, start[i].y);
        assert_eq!(sim.particles[i].vx, 0);
        assert_eq!(sim.particles[i].vy, 0);
    }
}

#[test]
fn strong_tilt_piles_particles_on_the_wall() {
    let mut sim = FluidSim::new();
    // A negative reading pushes towards +x.
    for _ in 0..30 {
        sim.step(-2048, 0);
    }
    assert_inside(&sim);
    let mean_x: i64 = sim.particles.iter().map(|p| p.x).sum::<i64>() / NUM_PARTICLES as i64;
    assert!(mean_x > 4000, "mean x {}", mean_x);
    let at_wall: Vec<&Particle> = sim.particles.iter().filter(|p| p.x == MAX_COORD).collect();
    assert!(!at_wall.is_empty());
    for p in at_wall {
        assert!(p.vx <= 0, "particle at the wall still moves into it: {:?}", p);
    }
}

#[test]
fn display_marks_only_the_occupied_cell() {
    let mut sim = FluidSim::new();
    let mut seed = 5u64;
    for i in 0..NUM_PARTICLES {
        let x = 3500 + next(&mut seed) / 3;
        let y = 3500 + next(&mut seed) / 3;
        sim.particles[i] = at(x, y, 0, 0);
    }
    sim.update_display_grid();
    for k in 0..NUM_CELLS {
        assert_eq!(sim.display_density[k], k == 3 * WIDTH + 3);
    }
    let mut leds = [[7u8; 5]; 5];
    sim.render(&mut leds);
    for j in 0..5 {
        for i in 0..5 {
            let expected = if i == 2 && j == 2 { LED_ON } else { 0 };
            assert_eq!(leds[j][i], expected);
        }
    }
}

#[test]
fn force_then_damping() {
    let mut ps = [at(3000, 3000, 0, 0); NUM_PARTICLES];
    ps[1] = at(3000, 3000, 1000, -1000);
    integrate_forces(&mut ps, 1024, -2048);
    // -1024 * 1000 * 3 / 5120 = -600, damped to -594; 2048 gives 1200, damped to 1188.
    assert_eq!(ps[0], at(3000, 3000, -594, 1188));
    assert_eq!(ps[1], at(3000, 3000, 396, 198));
}

#[test]
fn huge_velocity_saturates() {
    let mut ps = [at(3000, 3000, VMAX, -VMAX); NUM_PARTICLES];
    integrate_forces(&mut ps, i32::MIN, i32::MAX);
    assert_eq!(ps[0].vx, VMAX);
    assert_eq!(ps[0].vy, -VMAX);
}

#[test]
fn advection_moves_by_velocity_times_step() {
    let mut ps = [at(3000, 3000, 0, 0); NUM_PARTICLES];
    ps[0] = at(3000, 3000, -594, 1000);
    ps[1] = at(3000, 3000, 594, -1);
    advect(&mut ps);
    // -594 * 3 / 5 = -356.4, rounded toward zero to -356; -0.6 rounds to 0.
    assert_eq!(ps[0], at(2644, 3600, -594, 1000));
    assert_eq!(ps[1], at(3356, 3000, 594, -1));
}

#[test]
fn walls_clamp_and_stop() {
    let mut ps = [at(3000, 3000, 7, 8); NUM_PARTICLES];
    ps[0] = at(100, 9000, -50, 10);
    ps[2] = at(6000, 1000, 3, -4);
    resolve_boundary_collisions(&mut ps);
    assert_eq!(ps[0], at(MIN_COORD, MAX_COORD, 0, 0));
    assert_eq!(ps[1], at(3000, 3000, 7, 8));
    assert_eq!(ps[2], at(MAX_COORD, MIN_COORD, 0, 0));
}

#[test]
fn grid_to_particle_blend() {
    let mut sim = FluidSim::new();
    sim.particles = [at(2500, 2500, 50, 0); NUM_PARTICLES];
    sim.u = [100; NUM_CELLS];
    sim.prev_u = [0; NUM_CELLS];
    sim.apply_grid_velocities_to_particles();
    // 0.2 * 100 + 0.8 * (50 + 100 - 0) = 140.
    assert_eq!(sim.particles[0].vx, 140);
    assert_eq!(sim.particles[0].vy, 0);
}

#[test]
fn damping_is_isotropic_and_shrinks() {
    let mut sim = FluidSim::new();
    for (i, p) in sim.particles.iter_mut().enumerate() {
        let speed = [-1, 1, -50, 50, -99, 99, -1000, 1000][i % 8];
        p.vx = speed;
        p.vy = -speed;
    }
    let before = sim.particles;
    sim.integrate_external_forces(0, 0);
    for i in 0..NUM_PARTICLES {
        let (o, n) = (before[i], sim.particles[i]);
        assert!(n.vx.abs() < o.vx.abs(), "{:?} -> {:?}", o, n);
        assert_eq!(n.vy, -n.vx);
    }
    assert_eq!(sim.particles[0].vx, 0);
    assert_eq!(sim.particles[2].vx, -49);
    assert_eq!(sim.particles[3].vx, 49);
    assert_eq!(sim.particles[6].vx, -990);
}

#[test]
fn fixed_point_helpers() {
    assert_eq!(trunc_div(7, 2), 3);
    assert_eq!(trunc_div(-7, 2), -3);
    assert_eq!(trunc_div(-8, 2), -4);
    assert_eq!(isqrt(0), 0);
    assert_eq!(isqrt(15), 3);
    assert_eq!(isqrt(16), 4);
    assert_eq!(isqrt(159_999), 399);
    assert_eq!(floor_div(7, 2), 3);
    assert_eq!(floor_div(-7, 2), -4);
    assert_eq!(floor_div(-8, 2), -4);
    assert_eq!(clamp_vel(VMAX + 1), VMAX);
    assert_eq!(clamp_vel(-VMAX - 1), -VMAX);
    assert_eq!(clamp_vel(12), 12);
}

