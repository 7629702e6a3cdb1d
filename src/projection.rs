//! Incompressibility: Gauss-Seidel relaxation of each fluid cell's divergence.
use vstd::prelude::*;
use crate::fixed::{VMAX, clamp_vel, clamp_vel_spec, trunc_div, trunc_div_spec, lemma_trunc_bound};
use crate::grid::{
    CellType, WIDTH, NUM_CELLS, is_interior, open_indicator, cell_is_border,
    lemma_interior_neighbours,
};
use crate::transfer::field_bounded;

verus! {

/// Relaxation sweeps over the grid per frame.
pub const INCOMPRESSIBILITY_ITERATIONS: usize = 10;

/// Over-relaxation factor, as `OVER_RELAXATION_NUM / OVER_RELAXATION_DEN`.
pub const OVER_RELAXATION_NUM: i64 = 19;

pub const OVER_RELAXATION_DEN: i64 = 10;

/// Horizontal velocities, vertical velocities and pressures.
pub type Flow = (Seq<i64>, Seq<i64>, Seq<i64>);

/// Sum of the open indicators of a cell's four neighbours.
pub open spec fn open_sum(s: Seq<i64>, k: int) -> int {
    s[k - 1] + s[k + 1] + s[k - WIDTH] + s[k + WIDTH]
}

/// Net outflow of cell `k`.
pub open spec fn divergence(u: Seq<i64>, v: Seq<i64>, k: int) -> int {
    (u[k + 1] - u[k]) + (v[k + WIDTH] - v[k])
}

/// The over-relaxed pressure correction of cell `k`, rounded toward zero.
pub open spec fn correction(u: Seq<i64>, v: Seq<i64>, s: Seq<i64>, k: int) -> int {
    trunc_div_spec(-divergence(u, v, k) * OVER_RELAXATION_NUM, OVER_RELAXATION_DEN * open_sum(s, k))
}

/// Cell `k` takes part in the relaxation: an interior fluid cell with an open neighbour.
pub open spec fn relaxes(types: Seq<CellType>, s: Seq<i64>, k: int) -> bool {
    is_interior(k) && types[k] == CellType::Fluid && open_sum(s, k) != 0
}

/// One relaxation step at cell `k`: the correction goes into its pressure and
/// into its four face velocities, each weighted by the neighbour's open indicator.
pub open spec fn relax_cell(g: Flow, types: Seq<CellType>, s: Seq<i64>, k: int) -> Flow {
    if relaxes(types, s, k) {
        let (u, v, p) = g;
        let c = correction(u, v, s, k);
        (
            u.update(k, clamp_vel_spec(u[k] - c * s[k - 1]) as i64).update(
                k + 1,
                clamp_vel_spec(u[k + 1] + c * s[k + 1]) as i64,
            ),
            v.update(k, clamp_vel_spec(v[k] - c * s[k - WIDTH]) as i64).update(
                k + WIDTH,
                clamp_vel_spec(v[k + WIDTH] + c * s[k + WIDTH]) as i64,
            ),
            p.update(k, clamp_vel_spec(p[k] + c) as i64),
        )
    } else {
        g
    }
}

/// Relaxation steps at cells `0` up to `n - 1`, in row-major order.
pub open spec fn sweep(g: Flow, types: Seq<CellType>, s: Seq<i64>, n: int) -> Flow
    decreases n,
{
    if n <= 0 {
        g
    } else {
        relax_cell(sweep(g, types, s, n - 1), types, s, n - 1)
    }
}

/// `m` full sweeps over the grid.
pub open spec fn relax_iters(g: Flow, types: Seq<CellType>, s: Seq<i64>, m: int) -> Flow
    decreases m,
{
    if m <= 0 {
        g
    } else {
        sweep(relax_iters(g, types, s, m - 1), types, s, NUM_CELLS as int)
    }
}

/// The open indicators are those of the solid border.
pub open spec fn mask_ok(s: Seq<i64>) -> bool {
    s.len() == NUM_CELLS && forall|k: int| 0 <= k < NUM_CELLS ==> #[trigger] s[k] == open_indicator(k)
}

fn relax_at(
    u: &mut [i64; NUM_CELLS],
    v: &mut [i64; NUM_CELLS],
    p: &mut [i64; NUM_CELLS],
    types: &[CellType; NUM_CELLS],
    s: &[i64; NUM_CELLS],
    k: usize,
)
    requires
        k < NUM_CELLS,
        field_bounded(old(u)@),
        field_bounded(old(v)@),
        field_bounded(old(p)@),
        mask_ok(s@),
    ensures
        (final(u)@, final(v)@, final(p)@) == relax_cell((old(u)@, old(v)@, old(p)@), types@, s@, k as int),
        field_bounded(final(u)@),
        field_bounded(final(v)@),
        field_bounded(final(p)@),
{
    if cell_is_border(k) || types[k] != CellType::Fluid {
        return;
    }
    proof {
        lemma_interior_neighbours(k as int);
    }
    let sl = s[k - 1];
    let sr = s[k + 1];
    let sd = s[k - WIDTH];
    let su = s[k + WIDTH];
    let s_sum = sl + sr + sd + su;
    if s_sum == 0 {
        return;
    }
    let div = (u[k + 1] - u[k]) + (v[k + WIDTH] - v[k]);
    let c = trunc_div(-div * OVER_RELAXATION_NUM, OVER_RELAXATION_DEN * s_sum);
    proof {
        assert(-div * 19 <= 76 * VMAX && -76 * VMAX <= -div * 19);
        assert(76 * VMAX <= (76 * VMAX) * (10 * s_sum)) by (nonlinear_arith)
            requires
                s_sum >= 1,
        {}
        lemma_trunc_bound(-div * 19, 10 * s_sum as int, 76 * VMAX as int);
    }
    assert(0 <= sl <= 1 && 0 <= sr <= 1 && 0 <= sd <= 1 && 0 <= su <= 1);
    assert(-76 * VMAX <= c <= 76 * VMAX);
    assert(-76 * VMAX <= c * sl <= 76 * VMAX && -76 * VMAX <= c * sr <= 76 * VMAX && -76 * VMAX
        <= c * sd <= 76 * VMAX && -76 * VMAX <= c * su <= 76 * VMAX) by (nonlinear_arith)
        requires
            -76 * VMAX <= c <= 76 * VMAX,
            0 <= sl <= 1,
            0 <= sr <= 1,
            0 <= sd <= 1,
            0 <= su <= 1,
    {}
    let (pk, uk, ur, vk, vu) = (p[k], u[k], u[k + 1], v[k], v[k + WIDTH]);
    p[k] = clamp_vel(pk + c);
    u[k] = clamp_vel(uk - c * sl);
    u[k + 1] = clamp_vel(ur + c * sr);
    v[k] = clamp_vel(vk - c * sd);
    v[k + WIDTH] = clamp_vel(vu + c * su);
}

/// Resets the pressures to zero, then runs `INCOMPRESSIBILITY_ITERATIONS`
/// sweeps of `relax_cell` over the grid in row-major order.
pub fn project(
    u: &mut [i64; NUM_CELLS],
    v: &mut [i64; NUM_CELLS],
    p: &mut [i64; NUM_CELLS],
    types: &[CellType; NUM_CELLS],
    s: &[i64; NUM_CELLS],
)
    requires
        field_bounded(old(u)@),
        field_bounded(old(v)@),
        mask_ok(s@),
    ensures
        (final(u)@, final(v)@, final(p)@) == relax_iters(
            (old(u)@, old(v)@, Seq::new(NUM_CELLS as nat, |k: int| 0i64)),
            types@,
            s@,
            INCOMPRESSIBILITY_ITERATIONS as int,
        ),
        field_bounded(final(u)@),
        field_bounded(final(v)@),
        field_bounded(final(p)@),
{
    *p = [0; NUM_CELLS];
    let ghost g0: Flow = (u@, v@, p@);
    assert(p@ =~= Seq::new(NUM_CELLS as nat, |k: int| 0i64));
    let mut it: usize = 0;
    while it < INCOMPRESSIBILITY_ITERATIONS
        invariant
            it <= INCOMPRESSIBILITY_ITERATIONS,
            field_bounded(u@),
            field_bounded(v@),
            field_bounded(p@),
            mask_ok(s@),
            (u@, v@, p@) == relax_iters(g0, types@, s@, it as int),
        decreases INCOMPRESSIBILITY_ITERATIONS - it,
    {
        let ghost start: Flow = (u@, v@, p@);
        let mut k: usize = 0;
        while k < NUM_CELLS
            invariant
                k <= NUM_CELLS,
                field_bounded(u@),
                field_bounded(v@),
                field_bounded(p@),
                    mask_ok(s@),
                start == relax_iters(g0, types@, s@, it as int),
                (u@, v@, p@) == sweep(start, types@, s@, k as int),
            decreases NUM_CELLS - k,
        {
            relax_at(u, v, p, types, s, k);
            k = k + 1;
        }
        it = it + 1;
    }
}

} // verus!
