//! Point particles and the stages that move them on their own.
use vstd::prelude::*;
use crate::fixed::{
    UNIT, VMAX, clamp_vel, clamp_vel_spec, isqrt, trunc_div, trunc_div_spec, lemma_trunc_bound,
    lemma_trunc_shrinks,
};

verus! {

/// Number of particles; constant for the life of a simulation.
pub const NUM_PARTICLES: usize = 25;

/// Time step, as the fraction `DT_NUM / DT_DEN`.
pub const DT_NUM: i64 = 3;

pub const DT_DEN: i64 = 5;

/// Particle radius, in thousandths of a cell.
pub const PARTICLE_RADIUS: i64 = 200;

/// Velocity damping per frame, as the fraction `DAMPING_NUM / DAMPING_DEN`.
pub const DAMPING_NUM: i64 = 99;

pub const DAMPING_DEN: i64 = 100;

/// A raw tilt reading of this size is a force of one cell per unit time squared.
pub const FORCE_SCALE: i64 = 1024;

/// Lowest coordinate a particle may take on either axis: one cell plus a radius.
pub const MIN_COORD: i64 = 1200;

/// Highest coordinate a particle may take on either axis: six cells less a radius.
pub const MAX_COORD: i64 = 5800;

/// A point particle: position in thousandths of a cell, velocity in thousandths
/// of a cell per unit time.
#[derive(Clone, Copy, Debug, PartialEq, Eq, Structural, Default)]
pub struct Particle {
    pub x: i64,
    pub y: i64,
    pub vx: i64,
    pub vy: i64,
}

/// The velocity lies within the saturation range.
pub open spec fn speed_bounded(p: Particle) -> bool {
    -VMAX <= p.vx <= VMAX && -VMAX <= p.vy <= VMAX
}

/// The position lies inside the open interior, a radius away from the walls.
pub open spec fn in_box(p: Particle) -> bool {
    MIN_COORD <= p.x <= MAX_COORD && MIN_COORD <= p.y <= MAX_COORD
}

/// A particle as it stands between frames.
pub open spec fn valid_particle(p: Particle) -> bool {
    in_box(p) && speed_bounded(p)
}

/// Velocity change over one time step for a raw tilt reading, sign flipped.
pub open spec fn force_delta(a: int) -> int {
    trunc_div_spec(-a * UNIT as int * DT_NUM as int, (FORCE_SCALE * DT_DEN) as int)
}

/// A velocity after the force step and damping.
pub open spec fn damped(vel: int, dv: int) -> int {
    clamp_vel_spec(trunc_div_spec((vel + dv) * DAMPING_NUM as int, DAMPING_DEN as int))
}

/// A particle after the force step.
pub open spec fn forced(p: Particle, ax: int, ay: int) -> Particle {
    Particle { vx: damped(p.vx as int, force_delta(ax)) as i64, vy: damped(p.vy as int, force_delta(ay)) as i64, ..p }
}

fn force_delta_exec(a: i32) -> (r: i64)
    ensures
        r == force_delta(a as int),
        -1_258_291_200 <= r <= 1_258_291_200,
{
    let n: i64 = -(a as i64) * UNIT * DT_NUM;
    let r = trunc_div(n, FORCE_SCALE * DT_DEN);
    proof {
        lemma_trunc_bound(n as int, 5120, 1_258_291_200);
    }
    r
}

fn damped_exec(vel: i64, dv: i64) -> (r: i64)
    requires
        -VMAX <= vel <= VMAX,
        -1_258_291_200 <= dv <= 1_258_291_200,
    ensures
        r == damped(vel as int, dv as int),
        -VMAX <= r <= VMAX,
{
    clamp_vel(trunc_div((vel + dv) * DAMPING_NUM, DAMPING_DEN))
}

/// Damping is isotropic and strictly shrinks a nonzero velocity when no force
/// acts: `|damped(v, 0)| < |v|` and `damped(-v, 0) == -damped(v, 0)`.
pub proof fn lemma_damping_shrinks(vel: int)
    requires
        -VMAX <= vel <= VMAX,
    ensures
        vel != 0 ==> -(if vel >= 0 { vel } else { -vel }) < damped(vel, 0) < (if vel >= 0 { vel } else { -vel }),
        vel == 0 ==> damped(vel, 0) == 0,
        damped(-vel, 0) == -damped(vel, 0),
{
    assert((vel + 0) * DAMPING_NUM == vel * 99);
    assert((-vel + 0) * DAMPING_NUM == -vel * 99);
    if vel != 0 {
        lemma_trunc_shrinks(vel, 99, 100);
    } else {
        assert(vel * 99 == 0);
        assert(-vel * 99 == 0);
    }
}

/// Adds the tilt force over one time step to every particle's velocity, then damps it.
pub fn integrate_forces(ps: &mut [Particle; NUM_PARTICLES], accel_x: i32, accel_y: i32)
    requires
        forall|i: int| 0 <= i < old(ps)@.len() ==> speed_bounded(#[trigger] old(ps)@[i]),
    ensures
        final(ps)@.len() == old(ps)@.len(),
        forall|i: int|
            0 <= i < old(ps)@.len() ==> #[trigger] final(ps)@[i] == forced(
                old(ps)@[i],
                accel_x as int,
                accel_y as int,
            ),
{
    let fx = force_delta_exec(accel_x);
    let fy = force_delta_exec(accel_y);
    let mut i: usize = 0;
    while i < NUM_PARTICLES
        invariant
            i <= ps@.len(),
            ps@.len() == old(ps)@.len(),
            forall|m: int| 0 <= m < old(ps)@.len() ==> speed_bounded(#[trigger] old(ps)@[m]),
            fx == force_delta(accel_x as int),
            fy == force_delta(accel_y as int),
            -1_258_291_200 <= fx <= 1_258_291_200,
            -1_258_291_200 <= fy <= 1_258_291_200,
            forall|m: int| 0 <= m < i ==> #[trigger] ps@[m] == forced(old(ps)@[m], accel_x as int, accel_y as int),
            forall|m: int| i <= m < ps@.len() ==> #[trigger] ps@[m] == old(ps)@[m],
        decreases ps@.len() - i,
    {
        let p = ps[i];
        assert(speed_bounded(old(ps)@[i as int]));
        let q = Particle { vx: damped_exec(p.vx, fx), vy: damped_exec(p.vy, fy), ..p };
        ps[i] = q;
        i = i + 1;
    }
}

/// A position after moving with a velocity for one time step.
pub open spec fn advected(pos: int, vel: int) -> int {
    pos + trunc_div_spec(vel * DT_NUM as int, DT_DEN as int)
}

/// Moves every particle along its velocity for one time step.
pub fn advect(ps: &mut [Particle; NUM_PARTICLES])
    requires
        forall|i: int| 0 <= i < old(ps)@.len() ==> valid_particle(#[trigger] old(ps)@[i]),
    ensures
        final(ps)@.len() == old(ps)@.len(),
        forall|i: int|
            0 <= i < old(ps)@.len() ==> {
                let (o, n) = (old(ps)@[i], #[trigger] final(ps)@[i]);
                &&& n.x == advected(o.x as int, o.vx as int)
                &&& n.y == advected(o.y as int, o.vy as int)
                &&& n.vx == o.vx
                &&& n.vy == o.vy
            },
        coords_within(final(ps)@, COLLIDE_INPUT_BOUND as int),
{
    let mut i: usize = 0;
    while i < NUM_PARTICLES
        invariant
            i <= ps@.len(),
            ps@.len() == old(ps)@.len(),
            forall|m: int| 0 <= m < ps@.len() ==> valid_particle(#[trigger] old(ps)@[m]),
            forall|m: int|
                0 <= m < i ==> {
                    let (o, n) = (old(ps)@[m], #[trigger] ps@[m]);
                    &&& n.x == advected(o.x as int, o.vx as int)
                    &&& n.y == advected(o.y as int, o.vy as int)
                    &&& n.vx == o.vx
                    &&& n.vy == o.vy
                },
            forall|m: int| 0 <= m < i ==> -COLLIDE_INPUT_BOUND <= #[trigger] ps@[m].x <= COLLIDE_INPUT_BOUND
                && -COLLIDE_INPUT_BOUND <= ps@[m].y <= COLLIDE_INPUT_BOUND,
            forall|m: int| i <= m < ps@.len() ==> #[trigger] ps@[m] == old(ps)@[m],
        decreases ps@.len() - i,
    {
        let p = ps[i];
        assert(valid_particle(old(ps)@[i as int]));
        proof {
            lemma_trunc_bound(p.vx * 3, 5, 600_000);
            lemma_trunc_bound(p.vy * 3, 5, 600_000);
        }
        let q = Particle {
            x: p.x + trunc_div(p.vx * DT_NUM, DT_DEN),
            y: p.y + trunc_div(p.vy * DT_NUM, DT_DEN),
            ..p
        };
        ps[i] = q;
        i = i + 1;
    }
}

/// One coordinate pushed back inside `[MIN_COORD, MAX_COORD]`, with its
/// velocity component stopped where the wall was reached.
pub open spec fn wall_clamped(pos: int, vel: int) -> (int, int) {
    if pos < MIN_COORD {
        (MIN_COORD as int, 0)
    } else if pos > MAX_COORD {
        (MAX_COORD as int, 0)
    } else {
        (pos, vel)
    }
}

/// A particle after the walls have been enforced on both axes.
pub open spec fn bounded(p: Particle) -> Particle {
    Particle {
        x: wall_clamped(p.x as int, p.vx as int).0 as i64,
        vx: wall_clamped(p.x as int, p.vx as int).1 as i64,
        y: wall_clamped(p.y as int, p.vy as int).0 as i64,
        vy: wall_clamped(p.y as int, p.vy as int).1 as i64,
    }
}

/// Clamps every particle inside the walls; a particle that hits a wall loses
/// its velocity along that axis.
pub fn resolve_boundary_collisions(ps: &mut [Particle; NUM_PARTICLES])
    ensures
        final(ps)@.len() == old(ps)@.len(),
        forall|i: int| 0 <= i < old(ps)@.len() ==> #[trigger] final(ps)@[i] == bounded(old(ps)@[i]),
        forall|i: int| 0 <= i < old(ps)@.len() ==> in_box(#[trigger] final(ps)@[i]),
{
    let mut i: usize = 0;
    while i < NUM_PARTICLES
        invariant
            i <= ps@.len(),
            ps@.len() == old(ps)@.len(),
            forall|m: int| 0 <= m < i ==> #[trigger] ps@[m] == bounded(old(ps)@[m]),
            forall|m: int| i <= m < ps@.len() ==> #[trigger] ps@[m] == old(ps)@[m],
        decreases ps@.len() - i,
    {
        let mut p = ps[i];
        if p.x < MIN_COORD {
            p.x = MIN_COORD;
            p.vx = 0;
        }
        if p.x > MAX_COORD {
            p.x = MAX_COORD;
            p.vx = 0;
        }
        if p.y < MIN_COORD {
            p.y = MIN_COORD;
            p.vy = 0;
        }
        if p.y > MAX_COORD {
            p.y = MAX_COORD;
            p.vy = 0;
        }
        ps[i] = p;
        i = i + 1;
    }
}

/// Relaxation passes over all particle pairs per frame.
pub const COLLISION_ITERS: usize = 8;

/// Separation that two touching particles have: twice the radius.
pub const MIN_DIST: i64 = 400;

pub const MIN_DIST_SQ: i64 = 160000;

/// Pairs whose squared distance is at most this are treated as coincident and left alone.
pub const COINCIDENT_SQ: i64 = 1;

/// Bound on every coordinate before the collision passes begin.
pub const COLLIDE_INPUT_BOUND: i64 = 610_000;

/// Bound on how far one pair step moves a coordinate.
pub const PUSH_BOUND: i64 = 160_000;

/// The integer square root of `n`.
pub open spec fn isqrt_spec(n: int) -> int {
    choose|r: int| 0 <= r && #[trigger] (r * r) <= n && n < (r + 1) * (r + 1)
}

/// Any root in range is the integer square root.
pub proof fn lemma_isqrt_unique(n: int, r: int)
    requires
        0 <= r,
        r * r <= n,
        n < (r + 1) * (r + 1),
    ensures
        isqrt_spec(n) == r,
{
    let q = isqrt_spec(n);
    assert(0 <= q && q * q <= n && n < (q + 1) * (q + 1));
    if q < r {
        assert((q + 1) * (q + 1) <= r * r) by (nonlinear_arith)
            requires
                0 <= q < r,
        {}
    } else if r < q {
        assert((r + 1) * (r + 1) <= q * q) by (nonlinear_arith)
            requires
                0 <= r < q,
        {}
    }
}

/// How far a pair closer than `MIN_DIST` moves apart along one axis, each
/// particle taking half: `d` is that axis's offset, `d2` the squared distance.
pub open spec fn push_amount(d: int, d2: int) -> int {
    trunc_div_spec(d * (MIN_DIST - isqrt_spec(d2)), 2 * isqrt_spec(d2))
}

/// The pair `(i, j)` pushed apart when `i < j` and they overlap without coinciding.
pub open spec fn pair_step(ps: Seq<Particle>, i: int, j: int) -> Seq<Particle> {
    if i < j {
        let (a, b) = (ps[i], ps[j]);
        let dx = b.x - a.x;
        let dy = b.y - a.y;
        let d2 = dx * dx + dy * dy;
        if COINCIDENT_SQ < d2 < MIN_DIST_SQ {
            let px = push_amount(dx, d2);
            let py = push_amount(dy, d2);
            ps.update(i, Particle { x: (a.x - px) as i64, y: (a.y - py) as i64, ..a }).update(
                j,
                Particle { x: (b.x + px) as i64, y: (b.y + py) as i64, ..b },
            )
        } else {
            ps
        }
    } else {
        ps
    }
}

/// Pairs `(i, 0)` up to `(i, j - 1)` in turn.
pub open spec fn row_steps(ps: Seq<Particle>, i: int, j: int) -> Seq<Particle>
    decreases j,
{
    if j <= 0 {
        ps
    } else {
        pair_step(row_steps(ps, i, j - 1), i, j - 1)
    }
}

/// Rows `0` up to `i - 1` in turn: one pass over every unordered pair once.
pub open spec fn pass_steps(ps: Seq<Particle>, i: int) -> Seq<Particle>
    decreases i,
{
    if i <= 0 {
        ps
    } else {
        row_steps(pass_steps(ps, i - 1), i - 1, ps.len() as int)
    }
}

/// `it` full passes over all pairs.
pub open spec fn collide_iters(ps: Seq<Particle>, it: int) -> Seq<Particle>
    decreases it,
{
    if it <= 0 {
        ps
    } else {
        let prev = collide_iters(ps, it - 1);
        pass_steps(prev, prev.len() as int)
    }
}

/// The two sequences are equally long and agree on every velocity.
pub open spec fn keeps_velocities(a: Seq<Particle>, b: Seq<Particle>) -> bool {
    &&& a.len() == b.len()
    &&& forall|m: int| 0 <= m < a.len() ==> #[trigger] a[m].vx == b[m].vx
    &&& forall|m: int| 0 <= m < a.len() ==> #[trigger] a[m].vy == b[m].vy
}

/// Every coordinate lies within `[-b, b]`.
pub open spec fn coords_within(ps: Seq<Particle>, b: int) -> bool {
    forall|m: int| 0 <= m < ps.len() ==> -b <= #[trigger] ps[m].x <= b && -b <= ps[m].y <= b
}

/// Pushes the pair `(i, j)` apart as `pair_step` says.
fn collide_pair(ps: &mut [Particle; NUM_PARTICLES], i: usize, j: usize, Ghost(lim): Ghost<int>)
    requires
        i < old(ps)@.len(),
        j < old(ps)@.len(),
        0 <= lim <= 800_610_000,
        coords_within(old(ps)@, lim),
    ensures
        final(ps)@ == pair_step(old(ps)@, i as int, j as int),
        coords_within(final(ps)@, lim + PUSH_BOUND),
        keeps_velocities(final(ps)@, old(ps)@),
{
    if i >= j {
        return;
    }
    let a = ps[i];
    let b = ps[j];
    assert(-lim <= a.x <= lim && -lim <= a.y <= lim);
    assert(-lim <= b.x <= lim && -lim <= b.y <= lim);
    let dx = b.x - a.x;
    let dy = b.y - a.y;
    assert(0 <= dx * dx <= 4 * 800_610_000 * 800_610_000) by (nonlinear_arith)
        requires
            -2 * 800_610_000 <= dx <= 2 * 800_610_000,
    {}
    assert(0 <= dy * dy <= 4 * 800_610_000 * 800_610_000) by (nonlinear_arith)
        requires
            -2 * 800_610_000 <= dy <= 2 * 800_610_000,
    {}
    let d2 = dx * dx + dy * dy;
    if d2 > COINCIDENT_SQ && d2 < MIN_DIST_SQ {
        let dist = isqrt(d2);
        proof {
            lemma_isqrt_unique(d2 as int, dist as int);
            assert(1 <= dist < MIN_DIST) by (nonlinear_arith)
                requires
                    0 <= dist,
                    dist * dist <= d2,
                    d2 < (dist + 1) * (dist + 1),
                    1 < d2 < 160000,
            {}
            assert(-MIN_DIST < dx < MIN_DIST && -MIN_DIST < dy < MIN_DIST) by (nonlinear_arith)
                requires
                    dx * dx + dy * dy < 160000,
            {}
            assert(-PUSH_BOUND <= dx * (MIN_DIST - dist) <= PUSH_BOUND) by (nonlinear_arith)
                requires
                    -400 < dx < 400,
                    0 < 400 - dist <= 400,
            {}
            assert(-PUSH_BOUND <= dy * (MIN_DIST - dist) <= PUSH_BOUND) by (nonlinear_arith)
                requires
                    -400 < dy < 400,
                    0 < 400 - dist <= 400,
            {}
            assert(PUSH_BOUND <= PUSH_BOUND * (2 * dist)) by (nonlinear_arith)
                requires
                    dist >= 1,
            {}
            lemma_trunc_bound((dx * (MIN_DIST - dist)) as int, 2 * dist, PUSH_BOUND as int);
            lemma_trunc_bound((dy * (MIN_DIST - dist)) as int, 2 * dist, PUSH_BOUND as int);
        }
        let px = trunc_div(dx * (MIN_DIST - dist), 2 * dist);
        let py = trunc_div(dy * (MIN_DIST - dist), 2 * dist);
        ps[i] = Particle { x: a.x - px, y: a.y - py, ..a };
        ps[j] = Particle { x: b.x + px, y: b.y + py, ..b };
    }
}

/// Runs `COLLISION_ITERS` passes over every unordered pair, pushing apart
/// each pair closer than twice the radius so that it ends exactly that far apart.
pub fn resolve_particle_collisions(ps: &mut [Particle; NUM_PARTICLES])
    requires
        coords_within(old(ps)@, COLLIDE_INPUT_BOUND as int),
    ensures
        final(ps)@.len() == old(ps)@.len(),
        final(ps)@ == collide_iters(old(ps)@, COLLISION_ITERS as int),
        keeps_velocities(final(ps)@, old(ps)@),
{
    let n: usize = NUM_PARTICLES;
    let ghost ps0 = ps@;
    let mut it: usize = 0;
    while it < COLLISION_ITERS
        invariant
            n == NUM_PARTICLES,
            ps@.len() == n,
            it <= COLLISION_ITERS,
            ps@ == collide_iters(ps0, it as int),
            coords_within(ps@, COLLIDE_INPUT_BOUND + (it * n * n) * PUSH_BOUND),
            keeps_velocities(ps@, ps0),
        decreases COLLISION_ITERS - it,
    {
        let ghost iter0 = ps@;
        let mut i: usize = 0;
        while i < n
            invariant
                n == NUM_PARTICLES,
                ps@.len() == n,
                it < COLLISION_ITERS,
                i <= n,
                iter0.len() == n,
                iter0 == collide_iters(ps0, it as int),
                ps@ == pass_steps(iter0, i as int),
                coords_within(ps@, COLLIDE_INPUT_BOUND + (it * n * n + i * n) * PUSH_BOUND),
                keeps_velocities(ps@, ps0),
            decreases n - i,
        {
            let ghost row0 = ps@;
            let mut j: usize = 0;
            while j < n
                invariant
                    n == NUM_PARTICLES,
                    ps@.len() == n,
                    it < COLLISION_ITERS,
                    i < n,
                    j <= n,
                    iter0.len() == n,
                    row0 == pass_steps(iter0, i as int),
                    ps@ == row_steps(row0, i as int, j as int),
                    coords_within(ps@, COLLIDE_INPUT_BOUND + (it * n * n + i * n + j) * PUSH_BOUND),
                    keeps_velocities(ps@, ps0),
                decreases n - j,
            {
                assert(it * n * n + i * n + j < 5000) by (nonlinear_arith)
                    requires
                        n == 25,
                        it < 8,
                        i < 25,
                        j < 25,
                {}
                collide_pair(
                    ps,
                    i,
                    j,
                    Ghost(COLLIDE_INPUT_BOUND + (it * n * n + i * n + j) * PUSH_BOUND),
                );
                j = j + 1;
            }
            i = i + 1;
        }
        it = it + 1;
    }
}

/// Every particle moved along its velocity for one time step.
pub open spec fn advected_all(ps: Seq<Particle>) -> Seq<Particle> {
    Seq::new(
        ps.len(),
        |i: int|
            Particle {
                x: advected(ps[i].x as int, ps[i].vx as int) as i64,
                y: advected(ps[i].y as int, ps[i].vy as int) as i64,
                ..ps[i]
            },
    )
}

/// The particles after advection, the collision passes and the walls.
pub open spec fn advect_collide_clamp(ps: Seq<Particle>) -> Seq<Particle> {
    let collided = collide_iters(advected_all(ps), COLLISION_ITERS as int);
    Seq::new(collided.len(), |i: int| bounded(collided[i]))
}

/// A tilt reading of at least one force unit toward `+x` (a raw value of at
/// most `-FORCE_SCALE`) leaves a particle that was at rest or moving toward
/// `+x` moving toward `+x` after the force step.
pub proof fn lemma_tilt_drives_toward_wall(vel: int, a: int)
    requires
        0 <= vel <= VMAX,
        i32::MIN <= a <= -FORCE_SCALE,
    ensures
        damped(vel, force_delta(a)) > 0,
{
    lemma_trunc_bound(-a * UNIT as int * DT_NUM as int, 5120, 1_258_291_200);
    let n = -a * 3000;
    assert(n >= 3_072_000);
    assert(force_delta(a) == n / 5120);
    vstd::arithmetic::div_mod::lemma_div_is_ordered(3_072_000, n, 5120);
    assert(3_072_000int / 5120 == 600);
    let s = (vel + force_delta(a)) * 99;
    assert(s >= 59_400);
    vstd::arithmetic::div_mod::lemma_div_is_ordered(59_400, s, 100);
    assert(59_400int / 100 == 594);
}

/// A particle that the walls stop at the far side of an axis sits on that wall
/// with no velocity along the axis.
pub proof fn lemma_wall_contact_stops(p: Particle)
    ensures
        p.x > MAX_COORD ==> bounded(p).x == MAX_COORD && bounded(p).vx == 0,
        p.x < MIN_COORD ==> bounded(p).x == MIN_COORD && bounded(p).vx == 0,
        p.y > MAX_COORD ==> bounded(p).y == MAX_COORD && bounded(p).vy == 0,
        p.y < MIN_COORD ==> bounded(p).y == MIN_COORD && bounded(p).vy == 0,
{
}

} // verus!
