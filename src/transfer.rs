//! Bilinear transfer of velocity between particles and the staggered grid.
use vstd::prelude::*;
use crate::fixed::{
    UNIT, VMAX, floor_div, clamp_vel, clamp_vel_spec, trunc_div, trunc_div_spec, lemma_trunc_bound,
};
use crate::grid::{WIDTH, HEIGHT, NUM_CELLS};
use crate::particle::{Particle, NUM_PARTICLES, speed_bounded, coords_within};

verus! {


/// Half a cell: the offset of each staggered sub-grid.
pub const HALF: i64 = 500;

/// `UNIT * UNIT`: the total of the four bilinear weights.
pub const UNIT_SQ: i64 = 1_000_000;

/// Share of the FLIP update in the blended velocity, as `FLIP_NUM / FLIP_DEN`.
pub const FLIP_NUM: i64 = 4;

pub const FLIP_DEN: i64 = 5;

/// Where a particle samples a sub-grid: horizontal samples sit half a cell
/// lower than cell centres, vertical samples half a cell further left.
pub open spec fn sample_pos(p: Particle, horizontal: bool) -> (int, int) {
    if horizontal {
        (p.x as int, p.y - HALF)
    } else {
        (p.x - HALF, p.y as int)
    }
}

/// The particle's velocity component carried by a sub-grid.
pub open spec fn sample_vel(p: Particle, horizontal: bool) -> int {
    if horizontal {
        p.vx as int
    } else {
        p.vy as int
    }
}

/// The four lattice nodes around a sample point all lie on the grid.
pub open spec fn in_lattice(sx: int, sy: int) -> bool {
    0 <= sx / UNIT as int && sx / UNIT as int + 1 < WIDTH && 0 <= sy / UNIT as int && sy / UNIT as int + 1 < HEIGHT
}

/// Index of the lower-left of the four nodes around a sample point.
pub open spec fn base_node(sx: int, sy: int) -> int {
    (sy / UNIT as int) * WIDTH + sx / UNIT as int
}

/// Bilinear weight, out of `UNIT_SQ`, that a sample point gives node `k`; zero
/// for nodes not around it and for points whose nodes leave the grid.
pub open spec fn node_weight(sx: int, sy: int, k: int) -> int {
    let dx = sx % UNIT as int;
    let dy = sy % UNIT as int;
    let b = base_node(sx, sy);
    if !in_lattice(sx, sy) {
        0
    } else if k == b {
        (UNIT - dx) * (UNIT - dy)
    } else if k == b + 1 {
        dx * (UNIT - dy)
    } else if k == b + WIDTH {
        (UNIT - dx) * dy
    } else if k == b + WIDTH + 1 {
        dx * dy
    } else {
        0
    }
}

/// Weight that particle `p` gives node `k` of a sub-grid.
pub open spec fn particle_weight(p: Particle, horizontal: bool, k: int) -> int {
    node_weight(sample_pos(p, horizontal).0, sample_pos(p, horizontal).1, k)
}

/// Total weight that the particles give node `k`.
pub open spec fn weight_sum(ps: Seq<Particle>, horizontal: bool, k: int) -> int
    decreases ps.len(),
{
    if ps.len() == 0 {
        0
    } else {
        weight_sum(ps.drop_last(), horizontal, k) + particle_weight(ps.last(), horizontal, k)
    }
}

/// Total of velocity times weight that the particles give node `k`.
pub open spec fn momentum_sum(ps: Seq<Particle>, horizontal: bool, k: int) -> int
    decreases ps.len(),
{
    if ps.len() == 0 {
        0
    } else {
        momentum_sum(ps.drop_last(), horizontal, k) + sample_vel(ps.last(), horizontal)
            * particle_weight(ps.last(), horizontal, k)
    }
}

/// Node `k`'s velocity after the transfer: the weighted mean of what reached
/// it, rounded toward zero, or zero where nothing did.
pub open spec fn transferred(ps: Seq<Particle>, horizontal: bool, k: int) -> int {
    if weight_sum(ps, horizontal, k) > 0 {
        trunc_div_spec(momentum_sum(ps, horizontal, k), weight_sum(ps, horizontal, k))
    } else {
        0
    }
}

/// The lattice cell and fractional offsets of a sample point.
struct Sample {
    cx: i64,
    cy: i64,
    dx: i64,
    dy: i64,
}

fn locate(sx: i64, sy: i64) -> (r: Sample)
    requires
        -1_000_000_500 <= sx <= 1_000_000_000,
        -1_000_000_500 <= sy <= 1_000_000_000,
    ensures
        r.cx == sx as int / UNIT as int,
        r.cy == sy as int / UNIT as int,
        r.dx == sx as int % UNIT as int,
        r.dy == sy as int % UNIT as int,
        0 <= r.dx < UNIT,
        0 <= r.dy < UNIT,
        sx == r.cx * UNIT + r.dx,
        sy == r.cy * UNIT + r.dy,
{
    let cx = floor_div(sx, UNIT);
    let cy = floor_div(sy, UNIT);
    proof {
        vstd::arithmetic::div_mod::lemma_fundamental_div_mod(sx as int, UNIT as int);
        vstd::arithmetic::div_mod::lemma_fundamental_div_mod(sy as int, UNIT as int);
    }
    Sample { cx, cy, dx: sx - cx * UNIT, dy: sy - cy * UNIT }
}

fn sample_of(p: Particle, horizontal: bool) -> (r: (i64, i64))
    requires
        -1_000_000_000 <= p.x <= 1_000_000_000,
        -1_000_000_000 <= p.y <= 1_000_000_000,
    ensures
        r.0 == sample_pos(p, horizontal).0,
        r.1 == sample_pos(p, horizontal).1,
        -1_000_000_500 <= r.0 <= 1_000_000_000,
        -1_000_000_500 <= r.1 <= 1_000_000_000,
{
    if horizontal {
        (p.x, p.y - HALF)
    } else {
        (p.x - HALF, p.y)
    }
}

/// Adds one weighted contribution to node `k`.
fn accumulate(mom: &mut [i64; NUM_CELLS], wsum: &mut [i64; NUM_CELLS], k: usize, vel: i64, wt: i64)
    requires
        k < old(mom)@.len(),
        k < old(wsum)@.len(),
        -VMAX <= vel <= VMAX,
        0 <= wt <= UNIT_SQ,
        0 <= old(wsum)@[k as int] <= 100 * UNIT_SQ,
        -VMAX * old(wsum)@[k as int] <= old(mom)@[k as int] <= VMAX * old(wsum)@[k as int],
    ensures
        final(mom)@ == old(mom)@.update(k as int, final(mom)@[k as int]),
        final(wsum)@ == old(wsum)@.update(k as int, final(wsum)@[k as int]),
        final(mom)@[k as int] == old(mom)@[k as int] + vel * wt,
        final(wsum)@[k as int] == old(wsum)@[k as int] + wt,
        -VMAX * final(wsum)@[k as int] <= final(mom)@[k as int] <= VMAX * final(wsum)@[k as int],
{
    let m = mom[k];
    let w = wsum[k];
    assert(-VMAX * wt <= vel * wt <= VMAX * wt) by (nonlinear_arith)
        requires
            -VMAX <= vel <= VMAX,
            0 <= wt,
    {}
    assert(-VMAX * 100 * UNIT_SQ <= m <= VMAX * 100 * UNIT_SQ) by (nonlinear_arith)
        requires
            0 <= w <= 100 * UNIT_SQ,
            -VMAX * w <= m <= VMAX * w,
    {}
    assert(-VMAX * (w + wt) <= m + vel * wt <= VMAX * (w + wt)) by (nonlinear_arith)
        requires
            -VMAX * wt <= vel * wt <= VMAX * wt,
            -VMAX * w <= m <= VMAX * w,
    {}
    assert(-1_000_000_000_000 <= vel * wt <= 1_000_000_000_000) by (nonlinear_arith)
        requires
            -1_000_000 <= vel <= 1_000_000,
            0 <= wt <= 1_000_000,
    {}
    assert(-100_000_000_000_000 <= m <= 100_000_000_000_000);
    let nm = m + vel * wt;
    let nw = w + wt;
    mom[k] = nm;
    wsum[k] = nw;
}

/// Transfers one velocity component of every particle onto its staggered
/// sub-grid: each node gets the weighted mean of what reached it, or zero.
pub fn scatter(ps: &[Particle; NUM_PARTICLES], horizontal: bool, grid: &mut [i64; NUM_CELLS])
    requires
        coords_within(ps@, 1_000_000_000),
        forall|i: int| 0 <= i < ps@.len() ==> speed_bounded(#[trigger] ps@[i]),
    ensures
        forall|k: int| 0 <= k < NUM_CELLS ==> #[trigger] final(grid)@[k] == transferred(ps@, horizontal, k),
        forall|k: int| 0 <= k < NUM_CELLS ==> -VMAX <= #[trigger] final(grid)@[k] <= VMAX,
{
    let mut mom: [i64; NUM_CELLS] = [0; NUM_CELLS];
    let mut wsum: [i64; NUM_CELLS] = [0; NUM_CELLS];
    let mut i: usize = 0;
    while i < NUM_PARTICLES
        invariant
            i <= NUM_PARTICLES,
            coords_within(ps@, 1_000_000_000),
            forall|m: int| 0 <= m < ps@.len() ==> speed_bounded(#[trigger] ps@[m]),
            mom@.len() == NUM_CELLS,
            wsum@.len() == NUM_CELLS,
            forall|k: int|
                0 <= k < NUM_CELLS ==> {
                    &&& #[trigger] mom@[k] == momentum_sum(ps@.take(i as int), horizontal, k)
                    &&& wsum@[k] == weight_sum(ps@.take(i as int), horizontal, k)
                    &&& 0 <= wsum@[k] <= i * UNIT_SQ
                    &&& -VMAX * wsum@[k] <= mom@[k] <= VMAX * wsum@[k]
                },
        decreases ps@.len() - i,
    {
        let p = ps[i];
        assert(speed_bounded(ps@[i as int]));
        assert(-1_000_000_000 <= p.x <= 1_000_000_000 && -1_000_000_000 <= p.y <= 1_000_000_000);
        let ghost pre = ps@.take(i as int);
        assert(ps@.take(i + 1).drop_last() =~= pre);
        assert(ps@.take(i + 1).last() == p);
        let ghost old_mom = mom@;
        let ghost old_wsum = wsum@;
        let (sx, sy) = sample_of(p, horizontal);
        let c = locate(sx, sy);
        let vel = if horizontal { p.vx } else { p.vy };
        if c.cx >= 0 && c.cx + 1 < WIDTH as i64 && c.cy >= 0 && c.cy + 1 < HEIGHT as i64 {
            let b = (c.cy * WIDTH as i64 + c.cx) as usize;
            assert(0 <= (UNIT - c.dx) * (UNIT - c.dy) <= UNIT_SQ && 0 <= c.dx * (UNIT - c.dy)
                <= UNIT_SQ && 0 <= (UNIT - c.dx) * c.dy <= UNIT_SQ && 0 <= c.dx * c.dy
                <= UNIT_SQ) by (nonlinear_arith)
                requires
                    0 <= c.dx < UNIT,
                    0 <= c.dy < UNIT,
            {}
            let w0 = (UNIT - c.dx) * (UNIT - c.dy);
            let w1 = c.dx * (UNIT - c.dy);
            let w2 = (UNIT - c.dx) * c.dy;
            let w3 = c.dx * c.dy;
            assert forall|k: int|
                b <= k <= b + WIDTH + 1 implies 0 <= #[trigger] wsum@[k] <= 100 * UNIT_SQ && -VMAX * wsum@[k]
                <= mom@[k] <= VMAX * wsum@[k] by {
                assert(mom@[k] == momentum_sum(pre, horizontal, k));
            }
            accumulate(&mut mom, &mut wsum, b, vel, w0);
            accumulate(&mut mom, &mut wsum, b + 1, vel, w1);
            accumulate(&mut mom, &mut wsum, b + WIDTH, vel, w2);
            accumulate(&mut mom, &mut wsum, b + WIDTH + 1, vel, w3);
            assert forall|k: int| 0 <= k < NUM_CELLS implies {
                &&& mom@[k] == old_mom[k] + vel * particle_weight(p, horizontal, k)
                &&& wsum@[k] == old_wsum[k] + particle_weight(p, horizontal, k)
            } by {
                assert(base_node(sx as int, sy as int) == b);
                assert(in_lattice(sx as int, sy as int));
                assert(sample_pos(p, horizontal) == (sx as int, sy as int));
                if k == b {
                    assert(particle_weight(p, horizontal, k) == w0);
                } else if k == b + 1 {
                    assert(particle_weight(p, horizontal, k) == w1);
                } else if k == b + WIDTH {
                    assert(particle_weight(p, horizontal, k) == w2);
                } else if k == b + WIDTH + 1 {
                    assert(particle_weight(p, horizontal, k) == w3);
                } else {
                    assert(particle_weight(p, horizontal, k) == 0);
                }
            }
        } else {
            assert forall|k: int| 0 <= k < NUM_CELLS implies particle_weight(p, horizontal, k) == 0 by {}
        }
        i = i + 1;
    }
    assert(ps@.take(ps@.len() as int) =~= ps@);
    let mut k: usize = 0;
    while k < NUM_CELLS
        invariant
            k <= NUM_CELLS,
            mom@.len() == NUM_CELLS,
            wsum@.len() == NUM_CELLS,
            forall|m: int|
                0 <= m < NUM_CELLS ==> {
                    &&& #[trigger] mom@[m] == momentum_sum(ps@, horizontal, m)
                    &&& wsum@[m] == weight_sum(ps@, horizontal, m)
                    &&& 0 <= wsum@[m] <= NUM_PARTICLES * UNIT_SQ
                    &&& -VMAX * wsum@[m] <= mom@[m] <= VMAX * wsum@[m]
                },
            forall|m: int| 0 <= m < k ==> #[trigger] grid@[m] == transferred(ps@, horizontal, m),
            forall|m: int| 0 <= m < k ==> -VMAX <= #[trigger] grid@[m] <= VMAX,
        decreases NUM_CELLS - k,
    {
        let w = wsum[k];
        let m = mom[k];
        assert(mom@[k as int] == momentum_sum(ps@, horizontal, k as int));
        if w > 0 {
            proof {
                lemma_trunc_bound(m as int, w as int, VMAX as int);
            }
            grid[k] = trunc_div(m, w);
        } else {
            grid[k] = 0;
        }
        k = k + 1;
    }
}

/// Bilinear interpolation of `field` at a sample point, scaled by `UNIT_SQ`.
pub open spec fn interp(field: Seq<i64>, sx: int, sy: int) -> int {
    let dx = sx % UNIT as int;
    let dy = sy % UNIT as int;
    let b = base_node(sx, sy);
    field[b] * ((UNIT - dx) * (UNIT - dy)) + field[b + 1] * (dx * (UNIT - dy)) + field[b + WIDTH] * ((
    UNIT - dx) * dy) + field[b + WIDTH + 1] * (dx * dy)
}

/// New velocity component: `(1 - r)` of the interpolated grid velocity (PIC)
/// plus `r` of the old velocity moved by the interpolated grid change (FLIP),
/// with `r = FLIP_NUM / FLIP_DEN`; `cur` and `prev` are scaled by `UNIT_SQ`.
pub open spec fn blended(vel: int, cur: int, prev: int) -> int {
    clamp_vel_spec(
        trunc_div_spec(
            (FLIP_DEN - FLIP_NUM) * cur + FLIP_NUM * (vel * UNIT_SQ + cur - prev),
            (FLIP_DEN * UNIT_SQ) as int,
        ),
    )
}

/// A particle after the grid-to-particle transfer; unchanged where either of
/// its sample points has nodes off the grid.
pub open spec fn gathered(p: Particle, u: Seq<i64>, v: Seq<i64>, pu: Seq<i64>, pv: Seq<i64>) -> Particle {
    let (ux, uy) = sample_pos(p, true);
    let (vx, vy) = sample_pos(p, false);
    if in_lattice(ux, uy) && in_lattice(vx, vy) {
        Particle {
            vx: blended(p.vx as int, interp(u, ux, uy), interp(pu, ux, uy)) as i64,
            vy: blended(p.vy as int, interp(v, vx, vy), interp(pv, vx, vy)) as i64,
            ..p
        }
    } else {
        p
    }
}

/// Every sample of the field lies within the saturation range.
pub open spec fn field_bounded(f: Seq<i64>) -> bool {
    f.len() == NUM_CELLS && forall|k: int| 0 <= k < NUM_CELLS ==> -VMAX <= #[trigger] f[k] <= VMAX
}

fn interp_exec(field: &[i64; NUM_CELLS], sx: i64, sy: i64, c: &Sample) -> (r: i64)
    requires
        field_bounded(field@),
        in_lattice(sx as int, sy as int),
        c.cx == sx as int / UNIT as int,
        c.cy == sy as int / UNIT as int,
        c.dx == sx as int % UNIT as int,
        c.dy == sy as int % UNIT as int,
        0 <= c.dx < UNIT,
        0 <= c.dy < UNIT,
    ensures
        r == interp(field@, sx as int, sy as int),
        -VMAX * UNIT_SQ <= r <= VMAX * UNIT_SQ,
{
    let b = (c.cy * WIDTH as i64 + c.cx) as usize;
    let f0 = field[b];
    let f1 = field[b + 1];
    let f2 = field[b + WIDTH];
    let f3 = field[b + WIDTH + 1];
    let (dx, dy) = (c.dx, c.dy);
    assert(0 <= (UNIT - dx) * (UNIT - dy) && 0 <= dx * (UNIT - dy) && 0 <= (UNIT - dx) * dy && 0 <= dx
        * dy && (UNIT - dx) * (UNIT - dy) + dx * (UNIT - dy) + (UNIT - dx) * dy + dx * dy == UNIT_SQ)
        by (nonlinear_arith)
        requires
            0 <= dx < UNIT,
            0 <= dy < UNIT,
    {}
    let w0 = (UNIT - dx) * (UNIT - dy);
    let w1 = dx * (UNIT - dy);
    let w2 = (UNIT - dx) * dy;
    let w3 = dx * dy;
    assert(-VMAX * UNIT_SQ <= f0 * w0 + f1 * w1 + f2 * w2 + f3 * w3 <= VMAX * UNIT_SQ)
        by (nonlinear_arith)
        requires
            -VMAX <= f0 <= VMAX,
            -VMAX <= f1 <= VMAX,
            -VMAX <= f2 <= VMAX,
            -VMAX <= f3 <= VMAX,
            0 <= w0,
            0 <= w1,
            0 <= w2,
            0 <= w3,
            w0 + w1 + w2 + w3 == UNIT_SQ,
    {}
    assert(-VMAX * UNIT_SQ <= f0 * w0 <= VMAX * UNIT_SQ && -VMAX * UNIT_SQ <= f1 * w1 <= VMAX
        * UNIT_SQ && -VMAX * UNIT_SQ <= f2 * w2 <= VMAX * UNIT_SQ && -VMAX * UNIT_SQ <= f3 * w3
        <= VMAX * UNIT_SQ) by (nonlinear_arith)
        requires
            -VMAX <= f0 <= VMAX,
            -VMAX <= f1 <= VMAX,
            -VMAX <= f2 <= VMAX,
            -VMAX <= f3 <= VMAX,
            0 <= w0 <= UNIT_SQ,
            0 <= w1 <= UNIT_SQ,
            0 <= w2 <= UNIT_SQ,
            0 <= w3 <= UNIT_SQ,
    {}
    f0 * w0 + f1 * w1 + f2 * w2 + f3 * w3
}

fn blend_exec(vel: i64, cur: i64, prev: i64) -> (r: i64)
    requires
        -VMAX <= vel <= VMAX,
        -VMAX * UNIT_SQ <= cur <= VMAX * UNIT_SQ,
        -VMAX * UNIT_SQ <= prev <= VMAX * UNIT_SQ,
    ensures
        r == blended(vel as int, cur as int, prev as int),
        -VMAX <= r <= VMAX,
{
    assert(-VMAX * UNIT_SQ <= vel * UNIT_SQ <= VMAX * UNIT_SQ) by (nonlinear_arith)
        requires
            -VMAX <= vel <= VMAX,
    {}
    let flip = vel * UNIT_SQ + cur - prev;
    assert(-13 * VMAX * UNIT_SQ <= (FLIP_DEN - FLIP_NUM) * cur + FLIP_NUM * flip <= 13 * VMAX
        * UNIT_SQ) by (nonlinear_arith)
        requires
            FLIP_DEN - FLIP_NUM == 1,
            FLIP_NUM == 4,
            -VMAX * UNIT_SQ <= cur <= VMAX * UNIT_SQ,
            -3 * VMAX * UNIT_SQ <= flip <= 3 * VMAX * UNIT_SQ,
    {}
    clamp_vel(
        trunc_div(
            (FLIP_DEN - FLIP_NUM) * cur + FLIP_NUM * (vel * UNIT_SQ + cur - prev),
            FLIP_DEN * UNIT_SQ,
        ),
    )
}

/// Sets every particle's velocity from the grid, blending the interpolated
/// velocity with the particle's own velocity moved by the interpolated change
/// since `pu` and `pv` were taken.
pub fn gather(
    ps: &mut [Particle; NUM_PARTICLES],
    u: &[i64; NUM_CELLS],
    v: &[i64; NUM_CELLS],
    pu: &[i64; NUM_CELLS],
    pv: &[i64; NUM_CELLS],
)
    requires
        coords_within(old(ps)@, 1_000_000_000),
        forall|i: int| 0 <= i < old(ps)@.len() ==> speed_bounded(#[trigger] old(ps)@[i]),
        field_bounded(u@),
        field_bounded(v@),
        field_bounded(pu@),
        field_bounded(pv@),
    ensures
        final(ps)@.len() == old(ps)@.len(),
        forall|i: int|
            0 <= i < old(ps)@.len() ==> #[trigger] final(ps)@[i] == gathered(old(ps)@[i], u@, v@, pu@, pv@),
        forall|i: int| 0 <= i < old(ps)@.len() ==> speed_bounded(#[trigger] final(ps)@[i]),
{
    let mut i: usize = 0;
    while i < NUM_PARTICLES
        invariant
            i <= NUM_PARTICLES,
            coords_within(old(ps)@, 1_000_000_000),
            forall|m: int| 0 <= m < old(ps)@.len() ==> speed_bounded(#[trigger] old(ps)@[m]),
            field_bounded(u@),
            field_bounded(v@),
            field_bounded(pu@),
            field_bounded(pv@),
            forall|m: int| 0 <= m < i ==> #[trigger] ps@[m] == gathered(old(ps)@[m], u@, v@, pu@, pv@),
            forall|m: int| 0 <= m < i ==> speed_bounded(#[trigger] ps@[m]),
            forall|m: int| i <= m < ps@.len() ==> #[trigger] ps@[m] == old(ps)@[m],
        decreases ps@.len() - i,
    {
        let p = ps[i];
        assert(speed_bounded(old(ps)@[i as int]));
        assert(-1_000_000_000 <= p.x <= 1_000_000_000 && -1_000_000_000 <= p.y <= 1_000_000_000);
        let (ux, uy) = sample_of(p, true);
        let (vx, vy) = sample_of(p, false);
        let cu = locate(ux, uy);
        let cv = locate(vx, vy);
        if cu.cx >= 0 && cu.cx + 1 < WIDTH as i64 && cu.cy >= 0 && cu.cy + 1 < HEIGHT as i64
            && cv.cx >= 0 && cv.cx + 1 < WIDTH as i64 && cv.cy >= 0 && cv.cy + 1 < HEIGHT as i64 {
            let nvx = blend_exec(p.vx, interp_exec(u, ux, uy, &cu), interp_exec(pu, ux, uy, &cu));
            let nvy = blend_exec(p.vy, interp_exec(v, vx, vy, &cv), interp_exec(pv, vx, vy, &cv));
            ps[i] = Particle { vx: nvx, vy: nvy, ..p };
        }
        i = i + 1;
    }
}

} // verus!
