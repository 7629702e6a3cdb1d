//! The simulation state and its per-frame pipeline.
use vstd::prelude::*;
use crate::fixed::UNIT;
use crate::grid::{
    CellType, SIM_WIDTH, SIM_HEIGHT, WIDTH, NUM_CELLS, classify, classify_cells, col_of,
    enforce_solid_boundaries, locate_cell, occupied, on_grid, cell_of, solid_mask, u_blocked,
    v_blocked,
};
use crate::particle::{
    Particle, NUM_PARTICLES, valid_particle, in_box, forced, bounded, advected_all,
    advect_collide_clamp, integrate_forces, advect, resolve_particle_collisions,
    resolve_boundary_collisions, speed_bounded,
};
use crate::projection::{INCOMPRESSIBILITY_ITERATIONS, Flow, mask_ok, relax_iters, project};
use crate::transfer::{field_bounded, transferred, gathered, scatter, gather};

verus! {

/// Intensity of a lit LED.
pub const LED_ON: u8 = 9;

/// All state of one simulation: particles and the staggered grid.
pub struct FluidSim {
    pub particles: [Particle; NUM_PARTICLES],
    /// Horizontal velocity at each cell's left face.
    pub u: [i64; NUM_CELLS],
    /// Vertical velocity at each cell's bottom face.
    pub v: [i64; NUM_CELLS],
    /// `u` as it stood before the last particle-to-grid transfer.
    pub prev_u: [i64; NUM_CELLS],
    /// `v` as it stood before the last particle-to-grid transfer.
    pub prev_v: [i64; NUM_CELLS],
    /// Accumulated pressure correction of each cell.
    pub p: [i64; NUM_CELLS],
    /// Static open indicator: 0 for solid cells, 1 for open ones.
    pub s: [i64; NUM_CELLS],
    pub cell_types: [CellType; NUM_CELLS],
    /// Cells that hold at least one particle, as of the last frame.
    pub display_density: [bool; NUM_CELLS],
}

/// Starting place of particle `i`: a packed block of rows of five, one per
/// cell centre, at rest.
pub open spec fn initial_particle(i: int) -> Particle {
    Particle {
        x: ((i % 5) * UNIT + 3 * UNIT / 2) as i64,
        y: ((i / 5) * UNIT + 3 * UNIT / 2) as i64,
        vx: 0,
        vy: 0,
    }
}

/// Cell types that the particle-to-grid stage computes.
pub open spec fn cell_types_for(ps: Seq<Particle>, s: Seq<i64>) -> Seq<CellType> {
    Seq::new(NUM_CELLS as nat, |k: int| classify(ps, s, k))
}

/// A velocity field as the particle-to-grid stage leaves it: the weighted
/// mean of the particles, zero on the faces of solid cells.
pub open spec fn p2g_field(ps: Seq<Particle>, s: Seq<i64>, horizontal: bool) -> Seq<i64> {
    let types = cell_types_for(ps, s);
    Seq::new(
        NUM_CELLS as nat,
        |k: int|
            if (if horizontal {
                u_blocked(types, k)
            } else {
                v_blocked(types, k)
            }) {
                0i64
            } else {
                transferred(ps, horizontal, k) as i64
            },
    )
}

/// The grid after transfer and relaxation, for particles `ps`.
pub open spec fn frame_flow(ps: Seq<Particle>, s: Seq<i64>) -> Flow {
    relax_iters(
        (p2g_field(ps, s, true), p2g_field(ps, s, false), Seq::new(NUM_CELLS as nat, |k: int| 0i64)),
        cell_types_for(ps, s),
        s,
        INCOMPRESSIBILITY_ITERATIONS as int,
    )
}

/// Every particle after the force step.
pub open spec fn forced_all(ps: Seq<Particle>, ax: int, ay: int) -> Seq<Particle> {
    Seq::new(ps.len(), |i: int| forced(ps[i], ax, ay))
}

/// Every particle after the grid-to-particle transfer.
pub open spec fn gathered_all(ps: Seq<Particle>, u: Seq<i64>, v: Seq<i64>, pu: Seq<i64>, pv: Seq<i64>) -> Seq<Particle> {
    Seq::new(ps.len(), |i: int| gathered(ps[i], u, v, pu, pv))
}

/// The particles after one frame, from particles `ps`, open indicators `s`,
/// grid velocities `u` and `v`, and tilt `(ax, ay)`.
pub open spec fn frame_particles(ps: Seq<Particle>, s: Seq<i64>, u: Seq<i64>, v: Seq<i64>, ax: int, ay: int) -> Seq<Particle> {
    let forced = forced_all(ps, ax, ay);
    let flow = frame_flow(forced, s);
    advect_collide_clamp(gathered_all(forced, flow.0, flow.1, u, v))
}

impl FluidSim {
    /// The state's invariant: the border solid, every particle inside the
    /// walls and every velocity within the saturation range.
    pub open spec fn wf(&self) -> bool {
        &&& forall|i: int| 0 <= i < NUM_PARTICLES ==> valid_particle(#[trigger] self.particles@[i])
        &&& field_bounded(self.u@)
        &&& field_bounded(self.v@)
        &&& field_bounded(self.prev_u@)
        &&& field_bounded(self.prev_v@)
        &&& field_bounded(self.p@)
        &&& mask_ok(self.s@)
    }

    /// A simulation with the particles packed in a block, at rest, and all
    /// grid fields zero.
    pub fn new() -> (r: FluidSim)
        ensures
            r.wf(),
            forall|i: int| 0 <= i < NUM_PARTICLES ==> #[trigger] r.particles@[i] == initial_particle(i),
            forall|k: int| 0 <= k < NUM_CELLS ==> #[trigger] r.u@[k] == 0,
            forall|k: int| 0 <= k < NUM_CELLS ==> #[trigger] r.v@[k] == 0,
            forall|k: int| 0 <= k < NUM_CELLS ==> #[trigger] r.prev_u@[k] == 0,
            forall|k: int| 0 <= k < NUM_CELLS ==> #[trigger] r.prev_v@[k] == 0,
            forall|k: int| 0 <= k < NUM_CELLS ==> #[trigger] r.p@[k] == 0,
            forall|k: int| 0 <= k < NUM_CELLS ==> #[trigger] r.cell_types@[k] == CellType::Air,
            forall|k: int| 0 <= k < NUM_CELLS ==> !#[trigger] r.display_density@[k],
    {
        let mut particles: [Particle; NUM_PARTICLES] = [Particle { x: 0, y: 0, vx: 0, vy: 0 };
            NUM_PARTICLES];
        let mut i: usize = 0;
        while i < NUM_PARTICLES
            invariant
                i <= NUM_PARTICLES,
                forall|m: int| 0 <= m < i ==> #[trigger] particles@[m] == initial_particle(m),
            decreases NUM_PARTICLES - i,
        {
            particles[i] = Particle {
                x: (i % 5) as i64 * UNIT + 3 * UNIT / 2,
                y: (i / 5) as i64 * UNIT + 3 * UNIT / 2,
                vx: 0,
                vy: 0,
            };
            i = i + 1;
        }
        FluidSim {
            particles,
            u: [0; NUM_CELLS],
            v: [0; NUM_CELLS],
            prev_u: [0; NUM_CELLS],
            prev_v: [0; NUM_CELLS],
            p: [0; NUM_CELLS],
            s: solid_mask(),
            cell_types: [CellType::Air; NUM_CELLS],
            display_density: [false; NUM_CELLS],
        }
    }

    /// Runs one frame for the tilt reading `(accel_x, accel_y)`: forces,
    /// particle-to-grid transfer, projection, grid-to-particle transfer,
    /// advection with collisions, and the display occupancy.
    pub fn step(&mut self, accel_x: i32, accel_y: i32)
        requires
            old(self).wf(),
        ensures
            final(self).wf(),
            final(self).particles@.len() == old(self).particles@.len(),
            forall|i: int| 0 <= i < NUM_PARTICLES ==> in_box(#[trigger] final(self).particles@[i]),
            final(self).particles@ == frame_particles(
                old(self).particles@,
                old(self).s@,
                old(self).u@,
                old(self).v@,
                accel_x as int,
                accel_y as int,
            ),
            (final(self).u@, final(self).v@, final(self).p@) == frame_flow(
                forced_all(old(self).particles@, accel_x as int, accel_y as int),
                old(self).s@,
            ),
            final(self).prev_u@ == old(self).u@,
            final(self).prev_v@ == old(self).v@,
            final(self).cell_types@ == cell_types_for(
                forced_all(old(self).particles@, accel_x as int, accel_y as int),
                old(self).s@,
            ),
            final(self).s == old(self).s,
            forall|k: int|
                0 <= k < NUM_CELLS ==> #[trigger] final(self).display_density@[k] == occupied(
                    final(self).particles@,
                    NUM_PARTICLES as int,
                    k,
                ),
    {
        let ghost s0 = self.s@;
        self.integrate_external_forces(accel_x, accel_y);
        let ghost ps1 = self.particles@;
        assert(ps1 =~= forced_all(old(self).particles@, accel_x as int, accel_y as int));
        self.apply_particles_to_grid();
        assert(self.cell_types@ =~= cell_types_for(ps1, s0));
        assert(self.u@ =~= p2g_field(ps1, s0, true));
        assert(self.v@ =~= p2g_field(ps1, s0, false));
        self.apply_incompressibility_to_grid();
        assert((self.u@, self.v@, self.p@) == frame_flow(ps1, s0));
        let ghost ps2 = self.particles@;
        self.apply_grid_velocities_to_particles();
        assert(self.particles@ =~= gathered_all(ps2, self.u@, self.v@, old(self).u@, old(self).v@));
        self.advect_and_collide_particles();
        self.update_display_grid();
    }

    /// Adds the tilt force over one time step to every particle's velocity and damps it.
    pub fn integrate_external_forces(&mut self, accel_x: i32, accel_y: i32)
        requires
            old(self).wf(),
        ensures
            final(self).wf(),
            forall|i: int|
                0 <= i < NUM_PARTICLES ==> #[trigger] final(self).particles@[i] == forced(
                    old(self).particles@[i],
                    accel_x as int,
                    accel_y as int,
                ),
            final(self).u == old(self).u,
            final(self).v == old(self).v,
            final(self).prev_u == old(self).prev_u,
            final(self).prev_v == old(self).prev_v,
            final(self).p == old(self).p,
            final(self).s == old(self).s,
            final(self).cell_types == old(self).cell_types,
            final(self).display_density == old(self).display_density,
    {
        integrate_forces(&mut self.particles, accel_x, accel_y);
        assert forall|i: int| 0 <= i < NUM_PARTICLES implies valid_particle(#[trigger] self.particles@[i]) by {
            assert(valid_particle(old(self).particles@[i]));
        }
    }

    /// Transfers particle velocities to the grid: keeps the old velocities as
    /// `prev_u` and `prev_v`, classifies the cells, sets each sample to the
    /// weighted mean of what reached it, and zeroes the samples on solid faces.
    pub fn apply_particles_to_grid(&mut self)
        requires
            old(self).wf(),
        ensures
            final(self).wf(),
            final(self).particles == old(self).particles,
            final(self).s == old(self).s,
            final(self).p == old(self).p,
            final(self).display_density == old(self).display_density,
            final(self).prev_u@ == old(self).u@,
            final(self).prev_v@ == old(self).v@,
            forall|k: int|
                0 <= k < NUM_CELLS ==> #[trigger] final(self).cell_types@[k] == classify(
                    old(self).particles@,
                    old(self).s@,
                    k,
                ),
            forall|k: int|
                0 <= k < NUM_CELLS ==> #[trigger] final(self).u@[k] == if u_blocked(final(self).cell_types@, k) {
                    0
                } else {
                    transferred(old(self).particles@, true, k)
                },
            forall|k: int|
                0 <= k < NUM_CELLS ==> #[trigger] final(self).v@[k] == if v_blocked(final(self).cell_types@, k) {
                    0
                } else {
                    transferred(old(self).particles@, false, k)
                },
            forall|k: int|
                0 <= k < NUM_CELLS && #[trigger] final(self).cell_types@[k] == CellType::Solid ==> {
                    &&& final(self).u@[k] == 0
                    &&& final(self).v@[k] == 0
                    &&& col_of(k) < WIDTH - 1 ==> final(self).u@[k + 1] == 0
                    &&& k + WIDTH < NUM_CELLS ==> final(self).v@[k + WIDTH] == 0
                },
    {
        proof {
            assert forall|i: int| 0 <= i < self.particles@.len() implies -1_000_000_000
                <= #[trigger] self.particles@[i].x <= 1_000_000_000 && -1_000_000_000
                <= self.particles@[i].y <= 1_000_000_000 by {
                assert(valid_particle(self.particles@[i]));
            }
            assert forall|i: int| 0 <= i < self.particles@.len() implies speed_bounded(
                #[trigger] self.particles@[i],
            ) by {
                assert(valid_particle(self.particles@[i]));
            }
        }
        self.prev_u = self.u;
        self.prev_v = self.v;
        scatter(&self.particles, true, &mut self.u);
        scatter(&self.particles, false, &mut self.v);
        classify_cells(&self.particles, &self.s, &mut self.cell_types);
        enforce_solid_boundaries(&self.cell_types, &mut self.u, &mut self.v);
        proof {
            assert forall|k: int|
                0 <= k < NUM_CELLS && #[trigger] self.cell_types@[k] == CellType::Solid implies {
                &&& self.u@[k] == 0
                &&& self.v@[k] == 0
                &&& col_of(k) < WIDTH - 1 ==> self.u@[k + 1] == 0
                &&& k + WIDTH < NUM_CELLS ==> self.v@[k + WIDTH] == 0
            } by {
                crate::grid::lemma_next_col(k);
                assert(u_blocked(self.cell_types@, k));
                if col_of(k) < WIDTH - 1 {
                    assert(u_blocked(self.cell_types@, k + 1));
                }
                if k + WIDTH < NUM_CELLS {
                    assert(v_blocked(self.cell_types@, k + WIDTH));
                }
            }
        }
    }

    /// Runs the relaxation solver on the grid velocities.
    pub fn apply_incompressibility_to_grid(&mut self)
        requires
            old(self).wf(),
        ensures
            final(self).wf(),
            (final(self).u@, final(self).v@, final(self).p@) == relax_iters(
                (old(self).u@, old(self).v@, Seq::new(NUM_CELLS as nat, |k: int| 0i64)),
                old(self).cell_types@,
                old(self).s@,
                INCOMPRESSIBILITY_ITERATIONS as int,
            ),
            final(self).particles == old(self).particles,
            final(self).prev_u == old(self).prev_u,
            final(self).prev_v == old(self).prev_v,
            final(self).s == old(self).s,
            final(self).cell_types == old(self).cell_types,
            final(self).display_density == old(self).display_density,
    {
        project(&mut self.u, &mut self.v, &mut self.p, &self.cell_types, &self.s);
    }

    /// Sets each particle's velocity from the grid by the PIC/FLIP blend.
    pub fn apply_grid_velocities_to_particles(&mut self)
        requires
            old(self).wf(),
        ensures
            final(self).wf(),
            forall|i: int|
                0 <= i < NUM_PARTICLES ==> #[trigger] final(self).particles@[i] == gathered(
                    old(self).particles@[i],
                    old(self).u@,
                    old(self).v@,
                    old(self).prev_u@,
                    old(self).prev_v@,
                ),
            final(self).u == old(self).u,
            final(self).v == old(self).v,
            final(self).prev_u == old(self).prev_u,
            final(self).prev_v == old(self).prev_v,
            final(self).p == old(self).p,
            final(self).s == old(self).s,
            final(self).cell_types == old(self).cell_types,
            final(self).display_density == old(self).display_density,
    {
        proof {
            assert forall|i: int| 0 <= i < self.particles@.len() implies speed_bounded(
                #[trigger] self.particles@[i],
            ) by {
                assert(valid_particle(self.particles@[i]));
            }
        }
        gather(&mut self.particles, &self.u, &self.v, &self.prev_u, &self.prev_v);
        assert forall|i: int| 0 <= i < NUM_PARTICLES implies valid_particle(#[trigger] self.particles@[i]) by {
            assert(valid_particle(old(self).particles@[i]));
            assert(speed_bounded(self.particles@[i]));
        }
    }

    /// Moves the particles along their velocities, pushes overlapping pairs
    /// apart, then clamps them inside the walls.
    pub fn advect_and_collide_particles(&mut self)
        requires
            old(self).wf(),
        ensures
            final(self).wf(),
            final(self).particles@ == advect_collide_clamp(old(self).particles@),
            final(self).u == old(self).u,
            final(self).v == old(self).v,
            final(self).prev_u == old(self).prev_u,
            final(self).prev_v == old(self).prev_v,
            final(self).p == old(self).p,
            final(self).s == old(self).s,
            final(self).cell_types == old(self).cell_types,
            final(self).display_density == old(self).display_density,
    {
        advect(&mut self.particles);
        let ghost moved = self.particles@;
        resolve_particle_collisions(&mut self.particles);
        let ghost collided = self.particles@;
        resolve_boundary_collisions(&mut self.particles);
        proof {
            assert(moved =~= advected_all(old(self).particles@));
            assert(self.particles@ =~= advect_collide_clamp(old(self).particles@));
            assert forall|i: int| 0 <= i < NUM_PARTICLES implies valid_particle(#[trigger] self.particles@[i]) by {
                assert(valid_particle(old(self).particles@[i]));
                assert(moved[i].vx == old(self).particles@[i].vx);
                assert(collided[i].vx == moved[i].vx && collided[i].vy == moved[i].vy);
                assert(self.particles@[i] == bounded(collided[i]));
            }
        }
    }

    /// Marks each cell that holds at least one particle.
    pub fn update_display_grid(&mut self)
        requires
            old(self).wf(),
        ensures
            final(self).wf(),
            forall|k: int|
                0 <= k < NUM_CELLS ==> #[trigger] final(self).display_density@[k] == occupied(
                    old(self).particles@,
                    NUM_PARTICLES as int,
                    k,
                ),
            final(self).particles == old(self).particles,
            final(self).u == old(self).u,
            final(self).v == old(self).v,
            final(self).prev_u == old(self).prev_u,
            final(self).prev_v == old(self).prev_v,
            final(self).p == old(self).p,
            final(self).s == old(self).s,
            final(self).cell_types == old(self).cell_types,
    {
        let mut dens: [bool; NUM_CELLS] = [false; NUM_CELLS];
        let mut i: usize = 0;
        while i < NUM_PARTICLES
            invariant
                self.wf(),
                i <= NUM_PARTICLES,
                dens@.len() == NUM_CELLS,
                forall|m: int| 0 <= m < NUM_CELLS ==> #[trigger] dens@[m] == occupied(self.particles@, i as int, m),
            decreases NUM_PARTICLES - i,
        {
            let p = self.particles[i];
            assert(valid_particle(self.particles@[i as int]));
            match locate_cell(&p) {
                Some(c) => {
                    dens[c] = true;
                },
                None => {},
            }
            assert forall|m: int| 0 <= m < NUM_CELLS implies occupied(self.particles@, i + 1, m) == (
            occupied(self.particles@, i as int, m) || (on_grid(p) && cell_of(p) == m)) by {
                if occupied(self.particles@, i + 1, m) {
                    let w = choose|w: int|
                        0 <= w < i + 1 && on_grid(self.particles@[w]) && #[trigger] cell_of(self.particles@[w]) == m;
                    if w < i {
                        assert(occupied(self.particles@, i as int, m));
                    }
                }
                if occupied(self.particles@, i as int, m) {
                    let w = choose|w: int|
                        0 <= w < i && on_grid(self.particles@[w]) && #[trigger] cell_of(self.particles@[w]) == m;
                    assert(occupied(self.particles@, i + 1, m));
                }
                if on_grid(p) && cell_of(p) == m {
                    assert(cell_of(self.particles@[i as int]) == m);
                }
            }
            i = i + 1;
        }
        self.display_density = dens;
    }

    /// Fills the LED frame for the interior cells: row `j`, column `i` is lit
    /// where interior cell `(i, j)` is occupied, dark otherwise.
    pub fn render(&self, leds: &mut [[u8; SIM_WIDTH]; SIM_HEIGHT])
        ensures
            forall|j: int, i: int|
                0 <= j < SIM_HEIGHT && 0 <= i < SIM_WIDTH ==> #[trigger] final(leds)@[j]@[i] == if self.display_density@[(
                j + 1) * WIDTH + i + 1] {
                    LED_ON
                } else {
                    0u8
                },
    {
        let mut j: usize = 0;
        while j < SIM_HEIGHT
            invariant
                j <= SIM_HEIGHT,
                forall|r: int, c: int|
                    0 <= r < j && 0 <= c < SIM_WIDTH ==> #[trigger] leds@[r]@[c] == if self.display_density@[(r
                        + 1) * WIDTH + c + 1] {
                        LED_ON
                    } else {
                        0u8
                    },
            decreases SIM_HEIGHT - j,
        {
            let mut i: usize = 0;
            while i < SIM_WIDTH
                invariant
                    j < SIM_HEIGHT,
                    i <= SIM_WIDTH,
                    forall|r: int, c: int|
                        0 <= r < j && 0 <= c < SIM_WIDTH ==> #[trigger] leds@[r]@[c] == if self.display_density@[(r
                            + 1) * WIDTH + c + 1] {
                            LED_ON
                        } else {
                            0u8
                        },
                    forall|c: int| 0 <= c < i ==> #[trigger] leds@[j as int]@[c] == if self.display_density@[(j + 1)
                        * WIDTH + c + 1] {
                        LED_ON
                    } else {
                        0u8
                    },
                decreases SIM_WIDTH - i,
            {
                if self.display_density[(j + 1) * WIDTH + i + 1] {
                    leds[j][i] = LED_ON;
                } else {
                    leds[j][i] = 0;
                }
                i = i + 1;
            }
            j = j + 1;
        }
    }
}

} // verus!
