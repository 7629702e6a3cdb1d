//! The staggered grid: its size, its row-major indexing and the solid border.
use vstd::prelude::*;
use crate::fixed::UNIT;
use crate::particle::{Particle, NUM_PARTICLES};

verus! {

/// Interior columns, the part of the grid that fluid may occupy.
pub const SIM_WIDTH: usize = 5;

/// Interior rows.
pub const SIM_HEIGHT: usize = 5;

/// Grid columns, with a solid column on each side.
pub const WIDTH: usize = 7;

/// Grid rows, with a solid row above and below.
pub const HEIGHT: usize = 7;

/// Number of grid cells.
pub const NUM_CELLS: usize = 49;

/// Classification of a cell for one frame.
#[derive(Clone, Copy, Debug, PartialEq, Eq, Structural)]
pub enum CellType {
    Fluid,
    Air,
    Solid,
}

/// Column of the cell with row-major index `k`.
pub open spec fn col_of(k: int) -> int {
    k % (WIDTH as int)
}

/// Row of the cell with row-major index `k`.
pub open spec fn row_of(k: int) -> int {
    k / (WIDTH as int)
}

/// The cell lies in the one-cell solid border.
pub open spec fn is_border(k: int) -> bool {
    col_of(k) == 0 || col_of(k) == WIDTH - 1 || row_of(k) == 0 || row_of(k) == HEIGHT - 1
}

/// The cell and its four neighbours all lie on the grid, away from the border.
pub open spec fn is_interior(k: int) -> bool {
    0 <= k < NUM_CELLS && !is_border(k)
}

/// The static open indicator of a cell: 0 for the solid border, 1 inside.
pub open spec fn open_indicator(k: int) -> int {
    if is_border(k) {
        0
    } else {
        1
    }
}

/// Splits a cell index into its row and column.
pub proof fn lemma_cell_coords(k: int)
    requires
        0 <= k < NUM_CELLS,
    ensures
        k == row_of(k) * WIDTH + col_of(k),
        0 <= col_of(k) < WIDTH,
        0 <= row_of(k) < HEIGHT,
{
    vstd::arithmetic::div_mod::lemma_fundamental_div_mod(k, WIDTH as int);
}

/// An interior cell has all four neighbours on the grid.
pub proof fn lemma_interior_neighbours(k: int)
    requires
        is_interior(k),
    ensures
        0 <= k - WIDTH,
        k + WIDTH < NUM_CELLS,
        1 <= col_of(k) <= WIDTH - 2,
        col_of(k - 1) == col_of(k) - 1,
        col_of(k + 1) == col_of(k) + 1,
{
    lemma_cell_coords(k);
    assert(col_of(k - 1) == col_of(k) - 1) by {
        vstd::arithmetic::div_mod::lemma_fundamental_div_mod_converse_mod(
            k - 1,
            WIDTH as int,
            row_of(k),
            col_of(k) - 1,
        );
    }
    assert(col_of(k + 1) == col_of(k) + 1) by {
        vstd::arithmetic::div_mod::lemma_fundamental_div_mod_converse_mod(
            k + 1,
            WIDTH as int,
            row_of(k),
            col_of(k) + 1,
        );
    }
}

/// Tells whether the cell with index `k` is in the solid border.
pub fn cell_is_border(k: usize) -> (r: bool)
    requires
        k < NUM_CELLS,
    ensures
        r == is_border(k as int),
{
    let i = k % WIDTH;
    let j = k / WIDTH;
    i == 0 || i == WIDTH - 1 || j == 0 || j == HEIGHT - 1
}

/// The open indicators of all cells: the border solid, the interior open.
pub fn solid_mask() -> (s: [i64; NUM_CELLS])
    ensures
        forall|k: int| 0 <= k < NUM_CELLS ==> #[trigger] s@[k] == open_indicator(k),
{
    let mut s: [i64; NUM_CELLS] = [1; NUM_CELLS];
    let mut k: usize = 0;
    while k < NUM_CELLS
        invariant
            k <= NUM_CELLS,
            forall|m: int| 0 <= m < k ==> #[trigger] s@[m] == open_indicator(m),
            forall|m: int| k <= m < NUM_CELLS ==> #[trigger] s@[m] == 1,
        decreases NUM_CELLS - k,
    {
        if cell_is_border(k) {
            s[k] = 0;
        }
        k = k + 1;
    }
    s
}

/// The particle's containing cell lies on the grid.
pub open spec fn on_grid(p: Particle) -> bool {
    let (cx, cy) = (p.x as int / UNIT as int, p.y as int / UNIT as int);
    0 <= cx && cx < WIDTH && 0 <= cy && cy < HEIGHT
}

/// Index of the cell that contains the particle.
pub open spec fn cell_of(p: Particle) -> int {
    (p.y as int / UNIT as int) * WIDTH + p.x as int / UNIT as int
}

/// One of the first `n` particles lies in cell `k`.
pub open spec fn occupied(ps: Seq<Particle>, n: int, k: int) -> bool {
    exists|i: int| 0 <= i < n && on_grid(ps[i]) && #[trigger] cell_of(ps[i]) == k
}

/// A cell's type for this frame: solid where its open indicator is zero, fluid
/// where a particle lies in it, air otherwise.
pub open spec fn classify(ps: Seq<Particle>, s: Seq<i64>, k: int) -> CellType {
    if s[k] == 0 {
        CellType::Solid
    } else if occupied(ps, ps.len() as int, k) {
        CellType::Fluid
    } else {
        CellType::Air
    }
}

/// The cell containing `p`, if it lies on the grid.
pub fn locate_cell(p: &Particle) -> (r: Option<usize>)
    requires
        -1_000_000_000 <= p.x <= 1_000_000_000,
        -1_000_000_000 <= p.y <= 1_000_000_000,
    ensures
        r is Some <==> on_grid(*p),
        r is Some ==> r->0 == cell_of(*p) && r->0 < NUM_CELLS,
{
    let cx = crate::fixed::floor_div(p.x, UNIT);
    let cy = crate::fixed::floor_div(p.y, UNIT);
    if 0 <= cx && cx < WIDTH as i64 && 0 <= cy && cy < HEIGHT as i64 {
        Some((cy * WIDTH as i64 + cx) as usize)
    } else {
        None
    }
}

/// Cell types for this frame, from the open indicators and the particles.
pub fn classify_cells(ps: &[Particle; NUM_PARTICLES], s: &[i64; NUM_CELLS], types: &mut [CellType; NUM_CELLS])
    requires
        forall|i: int|
            0 <= i < NUM_PARTICLES ==> -1_000_000_000 <= #[trigger] ps@[i].x <= 1_000_000_000
                && -1_000_000_000 <= ps@[i].y <= 1_000_000_000,
    ensures
        forall|k: int| 0 <= k < NUM_CELLS ==> #[trigger] final(types)@[k] == classify(ps@, s@, k),
{
    let mut k: usize = 0;
    while k < NUM_CELLS
        invariant
            k <= NUM_CELLS,
            forall|m: int|
                0 <= m < k ==> #[trigger] types@[m] == (if s@[m] == 0 {
                    CellType::Solid
                } else {
                    CellType::Air
                }),
        decreases NUM_CELLS - k,
    {
        if s[k] == 0 {
            types[k] = CellType::Solid;
        } else {
            types[k] = CellType::Air;
        }
        k = k + 1;
    }
    let mut i: usize = 0;
    while i < NUM_PARTICLES
        invariant
            i <= NUM_PARTICLES,
            forall|m: int|
                0 <= m < ps@.len() ==> -1_000_000_000 <= #[trigger] ps@[m].x <= 1_000_000_000
                    && -1_000_000_000 <= ps@[m].y <= 1_000_000_000,
            forall|m: int|
                0 <= m < NUM_CELLS ==> #[trigger] types@[m] == (if s@[m] == 0 {
                    CellType::Solid
                } else if occupied(ps@, i as int, m) {
                    CellType::Fluid
                } else {
                    CellType::Air
                }),
        decreases ps@.len() - i,
    {
        let p = ps[i];
        assert(-1_000_000_000 <= ps@[i as int].x <= 1_000_000_000);
        let ghost before = types@;
        match locate_cell(&p) {
            Some(c) => {
                if types[c] != CellType::Solid {
                    types[c] = CellType::Fluid;
                }
            },
            None => {},
        }
        assert forall|m: int| 0 <= m < NUM_CELLS implies occupied(ps@, i + 1, m) == (occupied(
            ps@,
            i as int,
            m,
        ) || (on_grid(p) && cell_of(p) == m)) by {
            if occupied(ps@, i + 1, m) {
                let w = choose|w: int| 0 <= w < i + 1 && on_grid(ps@[w]) && #[trigger] cell_of(ps@[w]) == m;
                if w < i {
                    assert(occupied(ps@, i as int, m));
                }
            }
            if occupied(ps@, i as int, m) {
                let w = choose|w: int| 0 <= w < i && on_grid(ps@[w]) && #[trigger] cell_of(ps@[w]) == m;
                assert(occupied(ps@, i + 1, m));
            }
            if on_grid(p) && cell_of(p) == m {
                assert(cell_of(ps@[i as int]) == m);
            }
        }
        i = i + 1;
    }
}

/// A horizontal sample lies on a solid cell's face: the cell itself, or its left
/// neighbour, is solid.
pub open spec fn u_blocked(types: Seq<CellType>, k: int) -> bool {
    types[k] == CellType::Solid || (col_of(k) != 0 && types[k - 1] == CellType::Solid)
}

/// A vertical sample lies on a solid cell's face: the cell itself, or the one
/// below it, is solid.
pub open spec fn v_blocked(types: Seq<CellType>, k: int) -> bool {
    types[k] == CellType::Solid || (k >= WIDTH && types[k - WIDTH] == CellType::Solid)
}

/// The column after `k` continues the row, or wraps to column zero.
pub proof fn lemma_next_col(k: int)
    requires
        0 <= k,
    ensures
        col_of(k) < WIDTH - 1 ==> col_of(k + 1) == col_of(k) + 1,
        col_of(k) == WIDTH - 1 ==> col_of(k + 1) == 0,
{
    vstd::arithmetic::div_mod::lemma_fundamental_div_mod(k, WIDTH as int);
    if col_of(k) < WIDTH - 1 {
        vstd::arithmetic::div_mod::lemma_fundamental_div_mod_converse_mod(
            k + 1,
            WIDTH as int,
            row_of(k),
            col_of(k) + 1,
        );
    } else {
        vstd::arithmetic::div_mod::lemma_fundamental_div_mod_converse_mod(
            k + 1,
            WIDTH as int,
            row_of(k) + 1,
            0,
        );
    }
}

/// Zeroes every velocity sample on the face of a solid cell: a solid cell's
/// own samples, the horizontal one of its right neighbour and the vertical one
/// of the cell above it.
pub fn enforce_solid_boundaries(
    types: &[CellType; NUM_CELLS],
    u: &mut [i64; NUM_CELLS],
    v: &mut [i64; NUM_CELLS],
)
    ensures
        forall|k: int|
            0 <= k < NUM_CELLS ==> #[trigger] final(u)@[k] == if u_blocked(types@, k) {
                0
            } else {
                old(u)@[k]
            },
        forall|k: int|
            0 <= k < NUM_CELLS ==> #[trigger] final(v)@[k] == if v_blocked(types@, k) {
                0
            } else {
                old(v)@[k]
            },
{
    let mut k: usize = 0;
    while k < NUM_CELLS
        invariant
            k <= NUM_CELLS,
            types@.len() == NUM_CELLS,
            u@.len() == NUM_CELLS,
            v@.len() == NUM_CELLS,
            forall|m: int|
                0 <= m < NUM_CELLS ==> #[trigger] u@[m] == if (m < k && types@[m] == CellType::Solid)
                    || (col_of(m) != 0 && m - 1 < k && types@[m - 1] == CellType::Solid) {
                    0
                } else {
                    old(u)@[m]
                },
            forall|m: int|
                0 <= m < NUM_CELLS ==> #[trigger] v@[m] == if (m < k && types@[m] == CellType::Solid)
                    || (m >= WIDTH && m - WIDTH < k && types@[m - WIDTH] == CellType::Solid) {
                    0
                } else {
                    old(v)@[m]
                },
        decreases NUM_CELLS - k,
    {
        proof {
            lemma_cell_coords(k as int);
            lemma_next_col(k as int);
        }
        if types[k] == CellType::Solid {
            u[k] = 0;
            v[k] = 0;
            if k % WIDTH < WIDTH - 1 {
                u[k + 1] = 0;
            }
            if k / WIDTH < HEIGHT - 1 {
                v[k + WIDTH] = 0;
            }
        }
        k = k + 1;
    }
}

} // verus!
