//! What holds of the formats, of the edge function and of the walk, whatever
//! the triangle: each a proof function that states one law.

use crate::arith::abs;
use crate::arith::floor16;
use crate::arith::floor256;
use crate::arith::lemma_floor_is;
use crate::arith::lemma_quotient_nearest;
use crate::arith::quotient;
use crate::arith::Rounding;
use crate::q12p4::Q12p4;
use crate::q16p16::product_8p8;
use crate::q16p16::quotient_by_sixteenths;
use crate::q16p16::ratio;
use crate::q16p16::wrapped_sum;
use crate::q16p16::Q16p16;
use crate::q24p4::Q24p4;
use crate::q24p4::edge_value;
use crate::raster::can_turn;
use crate::raster::edge_passes;
use crate::raster::in_window;
use crate::raster::Fragment;
use crate::raster::Gpu;
use crate::raster::RasterError;
use crate::raster::Vertex;
use crate::raster::COORD_LIMIT;
use crate::step::at_centre;
use crate::step::at_sample;
use crate::walk::emitted_at;
use crate::walk::first_row_quads;
use crate::walk::is_walk_of;
use crate::walk::quad_count;
use crate::walk::row_quads;
use crate::walk::rows;
use vstd::prelude::*;
use vstd::std_specs::convert::FromSpec;

verus! {

// The formats.

/// A whole number of pixels survives the trip through the 12.4 format: for
/// every `n` with `|n| < 2048`, the 12.4 number `n << 4` truncates to `n`.
pub proof fn lemma_truncate_round_trip(n: int)
    requires
        -2048 < n < 2048,
    ensures
        Q12p4((n as i16) << 4u32)@ == 16 * n,
        floor16(Q12p4((n as i16) << 4u32)@) == n,
{
    let v: i16 = n as i16;
    assert((v << 4u32) == 16 * v) by (bit_vector)
        requires
            -2048 < v < 2048,
    ;
}

/// A 24.4 number that fits the 8.8 format converts without loss.
pub proof fn lemma_from_q24p4_lossless(val: Q24p4)
    requires
        Q16p16::fits(16 * val@),
    ensures
        <Q16p16 as FromSpec<Q24p4>>::from_spec(val)@ == 16 * val@,
{
    let v: i32 = val.0;
    assert(((v as i16) << 4) == 16 * v) by (bit_vector)
        requires
            -0x800 <= v <= 0x7ff,
    ;
}

/// A 12.4 number that fits the 8.8 format converts without loss.
pub proof fn lemma_from_q12p4_lossless(val: Q12p4)
    requires
        Q16p16::fits(16 * val@),
    ensures
        <Q16p16 as FromSpec<Q12p4>>::from_spec(val)@ == 16 * val@,
{
    let v: i16 = val.0;
    assert((v << 4) == 16 * v) by (bit_vector)
        requires
            -0x800 <= v <= 0x7ff,
    ;
}

/// A quotient toward zero never overshoots: it has the sign of `n / d` and
/// misses it by less than one.
pub proof fn lemma_quotient_toward_zero(n: int, d: int)
    requires
        d != 0,
    ensures
        abs(quotient(n, d, Rounding::TowardZero) * d - n) < abs(d),
        abs(quotient(n, d, Rounding::TowardZero) * d) <= abs(n),
{
    let m = abs(n) / abs(d);
    let r = abs(n) % abs(d);
    assert(abs(n) == abs(d) * m + r && 0 <= r < abs(d)) by (nonlinear_arith)
        requires
            abs(d) > 0,
            m == abs(n) / abs(d),
            r == abs(n) % abs(d),
    ;
    let q = quotient(n, d, Rounding::TowardZero);
    assert(q * d - n == -r || q * d - n == r) by (nonlinear_arith)
        requires
            abs(n) == abs(d) * m + r,
            (n < 0) == (d < 0) ==> q == m,
            (n < 0) != (d < 0) ==> q == -m,
            abs(n) == n || abs(n) == -n,
            (abs(n) == n) <==> n >= 0,
            abs(d) == d || abs(d) == -d,
            (abs(d) == d) <==> d >= 0,
            d != 0,
    ;
    assert(q * d == n + r || q * d == n - r);
    assert(abs(q * d) == abs(d) * m) by (nonlinear_arith)
        requires
            (n < 0) == (d < 0) ==> q == m,
            (n < 0) != (d < 0) ==> q == -m,
            m >= 0,
    ;
}

/// Where `d` divides `n`, both roundings give the exact quotient.
pub proof fn lemma_quotient_exact(q: int, d: int, mode: Rounding)
    requires
        d != 0,
    ensures
        quotient(q * d, d, mode) == q,
{
    let n = q * d;
    assert(abs(n) == abs(q) * abs(d)) by (nonlinear_arith)
        requires
            n == q * d,
    ;
    assert((abs(q) * abs(d)) / abs(d) == abs(q)) by (nonlinear_arith)
        requires
            abs(d) > 0,
    ;
    assert((2 * (abs(q) * abs(d)) + abs(d)) / (2 * abs(d)) == abs(q)) by (nonlinear_arith)
        requires
            abs(d) > 0,
            abs(q) >= 0,
    {
        let a = abs(q);
        let b = abs(d);
        assert(2 * (a * b) + b == (2 * b) * a + b);
        assert(0 <= b < 2 * b);
        assert(((2 * b) * a + b) / (2 * b) == a);
    }
    assert((n < 0) == (d < 0) || q <= 0) by (nonlinear_arith)
        requires
            n == q * d,
            d != 0,
    ;
    assert(!((n < 0) == (d < 0)) || q >= 0) by (nonlinear_arith)
        requires
            n == q * d,
            d != 0,
    ;
}

// The window.

/// The window takes every triangle whose corners lie within 1024 pixels of
/// zero and of whose edges none overflows in either direction of the walk:
/// the difference along x of its ends fits both ways, and a row can be
/// turned from with its increment along x and with the negative of it.
pub proof fn lemma_window_takes_edges_that_fit(a: Vertex, b: Vertex, c: Vertex)
    requires
        -COORD_LIMIT <= a.x@ <= COORD_LIMIT && -COORD_LIMIT <= a.y@ <= COORD_LIMIT,
        -COORD_LIMIT <= b.x@ <= COORD_LIMIT && -COORD_LIMIT <= b.y@ <= COORD_LIMIT,
        -COORD_LIMIT <= c.x@ <= COORD_LIMIT && -COORD_LIMIT <= c.y@ <= COORD_LIMIT,
        edge_fits_both_ways(b.y@ - a.y@, a.x@ - b.x@),
        edge_fits_both_ways(c.y@ - b.y@, b.x@ - c.x@),
        edge_fits_both_ways(a.y@ - c.y@, c.x@ - a.x@),
    ensures
        in_window(a, b, c),
        Gpu::setup_result(a, b, c) is Ok <==> a.z@ != 0 && b.z@ != 0 && c.z@ != 0,
{
}

/// Whether an edge with the increments `dx`, `dy` overflows in neither
/// direction of the walk.
pub open spec fn edge_fits_both_ways(dx: int, dy: int) -> bool {
    &&& Q12p4::fits(dy) && Q12p4::fits(-dy)
    &&& can_turn(dx, dy)
    &&& can_turn(-dx, dy)
}

/// An edge that is no longer than 16383 sixteenths, taken along x and along
/// y together, overflows in neither direction.
pub proof fn lemma_short_edge_fits(dx: int, dy: int)
    requires
        abs(dx) + abs(dy) <= 16383,
    ensures
        edge_fits_both_ways(dx, dy),
{
}

// The edge function.

/// What the product `u * v` loses when it is rounded down to a sixteenth,
/// in 256ths.
pub open spec fn lost(u: int, v: int) -> int {
    (u * v) % 16
}

/// The edge function changes sign when the edge is turned round, exactly
/// where the four roundings cancel: `edge(A, B, P) == -edge(B, A, P)` if and
/// only if the two products that are added lose as much as the two that are
/// subtracted.
pub proof fn lemma_edge_antisymmetry(ax: int, ay: int, bx: int, by: int, px: int, py: int)
    ensures
        edge_value(ax, ay, bx, by, px, py) == -edge_value(bx, by, ax, ay, px, py) <==> lost(
            px - ax,
            by - ay,
        ) + lost(px - bx, ay - by) == lost(py - ay, bx - ax) + lost(py - by, ax - bx),
{
    let m1 = (px - ax) * (by - ay);
    let m2 = (py - ay) * (bx - ax);
    let m3 = (px - bx) * (ay - by);
    let m4 = (py - by) * (ax - bx);
    assert(m1 - m2 + m3 - m4 == 0) by (nonlinear_arith)
        requires
            m1 == (px - ax) * (by - ay),
            m2 == (py - ay) * (bx - ax),
            m3 == (px - bx) * (ay - by),
            m4 == (py - by) * (ax - bx),
    ;
    assert(m1 == 16 * (m1 / 16) + m1 % 16);
    assert(m2 == 16 * (m2 / 16) + m2 % 16);
    assert(m3 == 16 * (m3 / 16) + m3 % 16);
    assert(m4 == 16 * (m4 / 16) + m4 % 16);
}

/// The product of two whole numbers of quarter pixels is a whole number of
/// sixteenths.
pub proof fn lemma_quarters(u: int, v: int)
    requires
        u % 4 == 0,
        v % 4 == 0,
    ensures
        lost(u, v) == 0,
{
    let a = u / 4;
    let b = v / 4;
    assert(u == 4 * a && v == 4 * b);
    assert(u * v == 16 * (a * b)) by (nonlinear_arith)
        requires
            u == 4 * a,
            v == 4 * b,
    ;
}

/// Between corners and a point whose coordinate differences are whole
/// quarter pixels (as between corners on whole pixels and the centre of a
/// pixel), no product loses anything and the edge function changes sign
/// with the edge.
pub proof fn lemma_edge_antisymmetry_on_grid(ax: int, ay: int, bx: int, by: int, px: int, py: int)
    requires
        (px - ax) % 4 == 0,
        (py - ay) % 4 == 0,
        (bx - ax) % 4 == 0,
        (by - ay) % 4 == 0,
    ensures
        edge_value(ax, ay, bx, by, px, py) == -edge_value(bx, by, ax, ay, px, py),
{
    lemma_edge_antisymmetry(ax, ay, bx, by, px, py);
    lemma_quarters(px - ax, by - ay);
    lemma_quarters(py - ay, bx - ax);
    assert((px - bx) % 4 == 0);
    assert((py - by) % 4 == 0);
    assert((ay - by) % 4 == 0);
    assert((ax - bx) % 4 == 0);
    lemma_quarters(px - bx, ay - by);
    lemma_quarters(py - by, ax - bx);
}

/// Whole pixels away, the edge function differs by whole increments: `k`
/// pixels along add `k` times the increment along x, `j` pixels down add `j`
/// times the increment along y, and no rounding comes in.
pub proof fn lemma_edge_value_shift(
    ax: int,
    ay: int,
    bx: int,
    by: int,
    px: int,
    py: int,
    k: int,
    j: int,
)
    ensures
        edge_value(ax, ay, bx, by, px + 16 * k, py + 16 * j) == edge_value(ax, ay, bx, by, px, py)
            + (by - ay) * k + (ax - bx) * j,
{
    let m1 = (px - ax) * (by - ay);
    let m2 = (py - ay) * (bx - ax);
    let s1 = (by - ay) * k;
    let s2 = (bx - ax) * j;
    assert((px + 16 * k - ax) * (by - ay) == m1 + 16 * s1) by (nonlinear_arith)
        requires
            m1 == (px - ax) * (by - ay),
            s1 == (by - ay) * k,
    ;
    assert((py + 16 * j - ay) * (bx - ax) == m2 + 16 * s2) by (nonlinear_arith)
        requires
            m2 == (py - ay) * (bx - ax),
            s2 == (bx - ax) * j,
    ;
    assert((ax - bx) * j == -s2) by (nonlinear_arith)
        requires
            s2 == (bx - ax) * j,
    ;
    assert((m1 + 16 * s1) / 16 == m1 / 16 + s1);
    assert((m2 + 16 * s2) / 16 == m2 / 16 + s2);
}

/// The increment `d` over `2 q` pixels and one more, one less or none.
pub proof fn lemma_sample_offset(d: int, q: int, s: int)
    requires
        -1 <= s <= 1,
    ensures
        d * (2 * q + s) == d * (2 * q) + (if s == 1 {
            d
        } else if s == -1 {
            -d
        } else {
            0
        }),
{
    assert(d * (2 * q + s) == d * (2 * q) + d * s) by (nonlinear_arith);
    assert(d * s == if s == 1 {
        d
    } else if s == -1 {
        -d
    } else {
        0
    }) by (nonlinear_arith)
        requires
            -1 <= s <= 1,
    ;
}

/// Throughout a walk the values that the fill rule tests are the edge
/// functions themselves: at each of the four samples of the current quad,
/// what the accumulators and increments give is the edge function of each
/// edge at the position of that sample.
pub proof fn lemma_samples_are_edge_functions(g: Gpu, i: int)
    requires
        g.wf(),
        0 <= i < 4,
    ensures
        at_sample(g.edge_ab@, g.edge_ab_dx@, g.edge_ab_dy@, i) == edge_value(
            g.a_x@,
            g.a_y@,
            g.b_x@,
            g.b_y@,
            g.quad_x()[i],
            g.quad_y()[i],
        ),
        at_sample(g.edge_bc@, g.edge_bc_dx@, g.edge_bc_dy@, i) == edge_value(
            g.b_x@,
            g.b_y@,
            g.c_x@,
            g.c_y@,
            g.quad_x()[i],
            g.quad_y()[i],
        ),
        at_sample(g.edge_ca@, g.edge_ca_dx@, g.edge_ca_dy@, i) == edge_value(
            g.c_x@,
            g.c_y@,
            g.a_x@,
            g.a_y@,
            g.quad_x()[i],
            g.quad_y()[i],
        ),
{
    reveal(Gpu::wf);
    let px = g.start_x@ + 8;
    let py = g.start_y@ + 8;
    let kq = (g.col() - 8) / 32;
    let jq = (g.row() - 8) / 32;
    assert(g.col() - 8 == 32 * kq);
    assert(g.row() - 8 == 32 * jq);
    let side: int = if i == 1 || i == 3 {
        if g.x_inc@ > 0 {
            1
        } else {
            -1
        }
    } else {
        0
    };
    let down: int = if i == 2 || i == 3 {
        1
    } else {
        0
    };
    let k = 2 * kq + side;
    let j = 2 * jq + down;
    assert(g.quad_x()[i] == px + 16 * k);
    assert(g.quad_y()[i] == py + 16 * j);
    lemma_edge_value_shift(g.a_x@, g.a_y@, g.b_x@, g.b_y@, px, py, k, j);
    lemma_edge_value_shift(g.b_x@, g.b_y@, g.c_x@, g.c_y@, px, py, k, j);
    lemma_edge_value_shift(g.c_x@, g.c_y@, g.a_x@, g.a_y@, px, py, k, j);
    lemma_sample_offset(g.b_y@ - g.a_y@, kq, side);
    lemma_sample_offset(g.c_y@ - g.b_y@, kq, side);
    lemma_sample_offset(g.a_y@ - g.c_y@, kq, side);
    lemma_sample_offset(g.a_x@ - g.b_x@, jq, down);
    lemma_sample_offset(g.b_x@ - g.c_x@, jq, down);
    lemma_sample_offset(g.c_x@ - g.a_x@, jq, down);
}

/// The three edge functions of a triangle at one point add up to the edge
/// function of A, B at C, before any rounding.
pub proof fn lemma_edges_sum_to_area(
    ax: int,
    ay: int,
    bx: int,
    by: int,
    cx: int,
    cy: int,
    px: int,
    py: int,
)
    ensures
        ((px - ax) * (by - ay) - (py - ay) * (bx - ax)) + ((px - bx) * (cy - by) - (py - by) * (cx
            - bx)) + ((px - cx) * (ay - cy) - (py - cy) * (ax - cx)) == (cx - ax) * (by - ay) - (cy
            - ay) * (bx - ax),
{
    let qx = px - ax;
    let qy = py - ay;
    let ux = bx - ax;
    let uy = by - ay;
    let vx = cx - ax;
    let vy = cy - ay;
    assert((qx - ux) * (vy - uy) == qx * vy - qx * uy - ux * vy + ux * uy) by (nonlinear_arith);
    assert((qy - uy) * (vx - ux) == qy * vx - qy * ux - uy * vx + uy * ux) by (nonlinear_arith);
    assert((qx - vx) * (0 - vy) == vx * vy - qx * vy) by (nonlinear_arith);
    assert((qy - vy) * (0 - vx) == vy * vx - qy * vx) by (nonlinear_arith);
    assert(ux * uy == uy * ux) by (nonlinear_arith);
    assert(vx * vy == vy * vx) by (nonlinear_arith);
    assert(ux * vy == vy * ux) by (nonlinear_arith);
    assert(uy * vx == vx * uy) by (nonlinear_arith);
    assert(px - bx == qx - ux && cy - by == vy - uy && py - by == qy - uy && cx - bx == vx - ux);
    assert(px - cx == qx - vx && ay - cy == 0 - vy && py - cy == qy - vy && ax - cx == 0 - vx);
}

// The fill rule.

/// Whether an edge with the increments `dx`, `dy` is a top edge (it runs
/// along x with the inside below) or a left edge.
pub open spec fn top_or_left(dx: int, dy: int) -> bool {
    dy < 0 || (dy == 0 && dx < 0)
}

/// A sample is covered exactly where it lies strictly inside all three
/// edges, or on one and inside the others, the edge it lies on being a top
/// or a left edge.
pub proof fn lemma_covered_inside_or_top_left(g: Gpu, i: int)
    ensures
        g.covers(i) <==> {
            let ab = at_sample(g.edge_ab@, g.edge_ab_dx@, g.edge_ab_dy@, i);
            let bc = at_sample(g.edge_bc@, g.edge_bc_dx@, g.edge_bc_dy@, i);
            let ca = at_sample(g.edge_ca@, g.edge_ca_dx@, g.edge_ca_dy@, i);
            &&& ab <= 0 && bc <= 0 && ca <= 0
            &&& ab == 0 ==> top_or_left(g.edge_ab_dx@, g.edge_ab_dy@)
            &&& bc == 0 ==> top_or_left(g.edge_bc_dx@, g.edge_bc_dy@)
            &&& ca == 0 ==> top_or_left(g.edge_ca_dx@, g.edge_ca_dy@)
        },
{
}

/// Two triangles that share an edge, each taking it in its own direction,
/// share no sample on it and leave none out: where the edge function of the
/// one is `e` with increments `dx`, `dy`, that of the other is `-e` with
/// `-dx`, `-dy`, and the fill rule passes exactly one of the two. The edge
/// must have two ends: `dx` and `dy` are not both zero.
pub proof fn lemma_shared_edge_partition(e: int, dx: int, dy: int)
    requires
        dx != 0 || dy != 0,
    ensures
        edge_passes(e, dx, dy) != edge_passes(-e, -dx, -dy),
{
}

/// A sample on neither side of an edge is decided by the increment along
/// y alone, where that is not zero: the sign of the increment along x, which
/// changes with the direction of the walk, plays no part.
pub proof fn lemma_tie_needs_no_direction(e: int, dx_there: int, dx_back: int, dy: int)
    requires
        e != 0 || dy != 0,
    ensures
        edge_passes(e, dx_there, dy) != edge_passes(-e, dx_back, -dy),
{
}

/// The edge function of an upright edge between corners on whole pixels is
/// zero at no pixel centre.
pub proof fn lemma_upright_edge_off_centres(ax: int, ay: int, by: int, px: int, py: int)
    requires
        ax % 16 == 0 && ay % 16 == 0 && by % 16 == 0,
        px % 16 == 8,
        ay != by,
    ensures
        edge_value(ax, ay, ax, by, px, py) != 0,
{
    let u = px - ax;
    let v = by - ay;
    let m = v / 16;
    assert(v == 16 * m && m != 0);
    assert(u != 0);
    assert(u * v == 16 * (u * m)) by (nonlinear_arith)
        requires
            v == 16 * m,
    ;
    assert(u * m != 0) by (nonlinear_arith)
        requires
            u != 0,
            m != 0,
    ;
    assert((py - ay) * (ax - ax) == 0) by (nonlinear_arith);
    assert((16 * (u * m)) / 16 == u * m);
}

/// Between whole pixels and pixel centres all differences are whole quarter
/// pixels.
pub proof fn lemma_grid_is_on_quarters(corner: int, other: int, centre: int)
    requires
        corner % 16 == 0,
        other % 16 == 0,
        centre % 16 == 8,
    ensures
        (centre - corner) % 4 == 0,
        (other - corner) % 4 == 0,
{
}

/// Two triangles whose corners lie on whole pixels and that share the edge
/// from A to B, each taking it in its own direction, share no pixel centre
/// on it and leave none out: of the two edge functions at a pixel centre P
/// the fill rule passes exactly one, whichever way each walk heads there
/// (`dx_there`, `dx_back` are the increments along x as the two walks hold
/// them, whatever their sign).
pub proof fn lemma_shared_edge_on_grid(
    ax: int,
    ay: int,
    bx: int,
    by: int,
    px: int,
    py: int,
    dx_there: int,
    dx_back: int,
)
    requires
        ax % 16 == 0 && ay % 16 == 0 && bx % 16 == 0 && by % 16 == 0,
        px % 16 == 8 && py % 16 == 8,
        ax != bx || ay != by,
    ensures
        edge_passes(edge_value(ax, ay, bx, by, px, py), dx_there, ax - bx) != edge_passes(
            edge_value(bx, by, ax, ay, px, py),
            dx_back,
            bx - ax,
        ),
{
    lemma_grid_is_on_quarters(ax, bx, px);
    lemma_grid_is_on_quarters(ay, by, py);
    lemma_edge_antisymmetry_on_grid(ax, ay, bx, by, px, py);
    if ax == bx {
        lemma_upright_edge_off_centres(ax, ay, by, px, py);
    }
    lemma_tie_needs_no_direction(edge_value(ax, ay, bx, by, px, py), dx_there, dx_back, ax - bx);
}

/// Sixteen times an edge function between whole quarter pixels is the
/// difference of its two products: nothing is lost to rounding.
pub proof fn lemma_edge_value_exact(ax: int, ay: int, bx: int, by: int, px: int, py: int)
    requires
        (px - ax) % 4 == 0,
        (py - ay) % 4 == 0,
        (bx - ax) % 4 == 0,
        (by - ay) % 4 == 0,
    ensures
        16 * edge_value(ax, ay, bx, by, px, py) == (px - ax) * (by - ay) - (py - ay) * (bx - ax),
{
    lemma_quarters(px - ax, by - ay);
    lemma_quarters(py - ay, bx - ax);
    let u = (px - ax) * (by - ay);
    let v = (py - ay) * (bx - ax);
    assert(u == 16 * (u / 16) + u % 16);
    assert(v == 16 * (v / 16) + v % 16);
}

/// The samples of a walk over corners on whole pixels are the centres of
/// pixels.
pub proof fn lemma_samples_on_centres(g: Gpu, i: int)
    requires
        g.wf(),
        0 <= i < 4,
        g.a_x@ % 16 == 0 && g.a_y@ % 16 == 0,
        g.b_x@ % 16 == 0 && g.b_y@ % 16 == 0,
        g.c_x@ % 16 == 0 && g.c_y@ % 16 == 0,
    ensures
        g.quad_x()[i] % 16 == 8,
        g.quad_y()[i] % 16 == 8,
{
    reveal(Gpu::wf);
    let k = (g.col() - 8) / 32;
    let j = (g.row() - 8) / 32;
    assert(g.col() - 8 == 32 * k);
    assert(g.row() - 8 == 32 * j);
    assert(g.start_x@ % 16 == 0);
    assert(g.start_y@ % 16 == 0);
    let sx = g.start_x@ / 16;
    let sy = g.start_y@ / 16;
    assert(g.x@ == 16 * (sx + 2 * k) + 8);
    assert(g.y@ == 16 * (sy + 2 * j) + 8);
    assert(g.x@ + 16 == 16 * (sx + 2 * k + 1) + 8);
    assert(g.x@ - 16 == 16 * (sx + 2 * k - 1) + 8);
    assert(g.y@ + 16 == 16 * (sy + 2 * j + 1) + 8);
}

/// A triangle of area zero whose corners lie on whole pixels covers no
/// sample: where nothing is lost to rounding, the three edge functions add
/// up to the area at every sample, so that none is above zero only where
/// all three are zero, and of three edges on one line not every one is a
/// top or a left edge.
pub proof fn lemma_flat_triangle_covers_nothing(g: Gpu, i: int)
    requires
        g.wf(),
        0 <= i < 4,
        g.total_area@ == 0,
        g.a_x@ % 16 == 0 && g.a_y@ % 16 == 0,
        g.b_x@ % 16 == 0 && g.b_y@ % 16 == 0,
        g.c_x@ % 16 == 0 && g.c_y@ % 16 == 0,
    ensures
        !g.covers(i),
{
    lemma_samples_are_edge_functions(g, i);
    lemma_samples_on_centres(g, i);
    let px = g.quad_x()[i];
    let py = g.quad_y()[i];
    let (ax, ay, bx, by, cx, cy) = (g.a_x@, g.a_y@, g.b_x@, g.b_y@, g.c_x@, g.c_y@);
    lemma_grid_is_on_quarters(ax, bx, px);
    lemma_grid_is_on_quarters(ay, by, py);
    lemma_grid_is_on_quarters(bx, cx, px);
    lemma_grid_is_on_quarters(by, cy, py);
    lemma_grid_is_on_quarters(cx, ax, px);
    lemma_grid_is_on_quarters(cy, ay, py);
    lemma_edge_value_exact(ax, ay, bx, by, px, py);
    lemma_edge_value_exact(bx, by, cx, cy, px, py);
    lemma_edge_value_exact(cx, cy, ax, ay, px, py);
    assert((cx - ax) % 4 == 0 && (cy - ay) % 4 == 0);
    lemma_edge_value_exact(ax, ay, bx, by, cx, cy);
    lemma_edges_sum_to_area(ax, ay, bx, by, cx, cy, px, py);
    reveal(Gpu::wf);
    let ab = at_sample(g.edge_ab@, g.edge_ab_dx@, g.edge_ab_dy@, i);
    let bc = at_sample(g.edge_bc@, g.edge_bc_dx@, g.edge_bc_dy@, i);
    let ca = at_sample(g.edge_ca@, g.edge_ca_dx@, g.edge_ca_dy@, i);
    assert(16 * (ab + bc + ca) == 16 * g.total_area@);
    assert(ab + bc + ca == 0);
    assert(g.edge_ab_dx@ + g.edge_bc_dx@ + g.edge_ca_dx@ == 0);
    assert(g.edge_ab_dy@ + g.edge_bc_dy@ + g.edge_ca_dy@ == 0);
}

// Weights and depth.

/// Whether the weight `raw / total` fits the 8.8 format, so that it is the
/// rounded quotient itself and no bound of the format.
pub open spec fn weight_fits(raw: int, total: int) -> bool {
    total != 0 && Q16p16::fits(quotient(256 * raw, total, Rounding::Nearest))
}

/// Three weights over one area add up to one, within less than two 256ths,
/// where the three numerators add up to the area within a 512th of it and
/// each weight fits the format.
pub proof fn lemma_weights_sum(ra: int, rb: int, rc: int, total: int)
    requires
        weight_fits(ra, total),
        weight_fits(rb, total),
        weight_fits(rc, total),
        512 * abs(ra + rb + rc - total) < abs(total),
    ensures
        abs(ratio(ra, total) + ratio(rb, total) + ratio(rc, total) - 256) < 2,
{
    let qa = quotient(256 * ra, total, Rounding::Nearest);
    let qb = quotient(256 * rb, total, Rounding::Nearest);
    let qc = quotient(256 * rc, total, Rounding::Nearest);
    lemma_quotient_nearest(256 * ra, total);
    lemma_quotient_nearest(256 * rb, total);
    lemma_quotient_nearest(256 * rc, total);
    let ea = 2 * (qa * total) - 512 * ra;
    let eb = 2 * (qb * total) - 512 * rb;
    let ec = 2 * (qc * total) - 512 * rc;
    let off = qa + qb + qc - 256;
    let miss = ra + rb + rc - total;
    assert(2 * (off * total) == ea + eb + ec + 512 * miss) by (nonlinear_arith)
        requires
            ea == 2 * (qa * total) - 512 * ra,
            eb == 2 * (qb * total) - 512 * rb,
            ec == 2 * (qc * total) - 512 * rc,
            off == qa + qb + qc - 256,
            miss == ra + rb + rc - total,
    ;
    assert(abs(off) < 2) by (nonlinear_arith)
        requires
            abs(2 * (off * total)) < 4 * abs(total),
            total != 0,
    ;
}

impl Gpu {
    /// The edge functions of the three edges at the centre of the current
    /// quad, added up.
    pub open spec fn centre_sum(&self) -> int {
        at_centre(self.edge_bc@, self.edge_bc_dx@, self.edge_bc_dy@) + at_centre(
            self.edge_ca@,
            self.edge_ca_dx@,
            self.edge_ca_dy@,
        ) + at_centre(self.edge_ab@, self.edge_ab_dx@, self.edge_ab_dy@)
    }
}

/// Three products added and three subtracted, each rounded down to a
/// sixteenth, miss the exact sum by less than three either way.
pub proof fn lemma_floors(m1: int, m2: int, m3: int, m4: int, m5: int, m6: int, m7: int, m8: int)
    requires
        m1 - m2 + m3 - m4 + m5 - m6 == m7 - m8,
    ensures
        -3 <= (floor16(m1) - floor16(m2) + floor16(m3) - floor16(m4) + floor16(m5) - floor16(m6))
            - (floor16(m7) - floor16(m8)) <= 3,
{
}

/// Half an increment, rounded down to a sixteenth.
pub proof fn lemma_half(d: int)
    ensures
        floor16(8 * d) == d / 2,
{
    let q = d / 2;
    let r = d % 2;
    assert(d == 2 * q + r);
    assert(8 * d == 16 * q + 8 * r);
    assert(0 <= 8 * r < 16);
}

/// Halves of three numbers that add up to zero, each rounded down, add up
/// to zero or to minus one.
pub proof fn lemma_halves(d1: int, d2: int, d3: int)
    requires
        d1 + d2 + d3 == 0,
    ensures
        -1 <= floor16(8 * d1) + floor16(8 * d2) + floor16(8 * d3) <= 0,
{
    lemma_half(d1);
    lemma_half(d2);
    lemma_half(d3);
    let h = d1 / 2 + d2 / 2 + d3 / 2;
    let r = d1 % 2 + d2 % 2 + d3 % 2;
    assert(d1 == 2 * (d1 / 2) + d1 % 2);
    assert(d2 == 2 * (d2 / 2) + d2 % 2);
    assert(d3 == 2 * (d3 / 2) + d3 % 2);
    assert(2 * h + r == 0);
    assert(0 <= r <= 3);
}

/// What three increments that add up to zero add over any number of pixels
/// is zero.
pub proof fn lemma_walk_cancels(d1: int, d2: int, d3: int, k: int)
    requires
        d1 + d2 + d3 == 0,
    ensures
        d1 * k + d2 * k + d3 * k == 0,
{
    assert(d1 * k + d2 * k + d3 * k == (d1 + d2 + d3) * k) by (nonlinear_arith);
}

/// Throughout a walk the three edge functions at the centre of the quad add
/// up to the area, within the roundings: at most five sixteenths below it
/// and three above.
pub proof fn lemma_centre_sum(g: Gpu)
    requires
        g.wf(),
    ensures
        -5 <= g.centre_sum() - g.total_area@ <= 3,
{
    reveal(Gpu::wf);
    let px = g.start_x@ + 8;
    let py = g.start_y@ + 8;
    let kx = 2 * ((g.col() - 8) / 32);
    let ky = 2 * ((g.row() - 8) / 32);
    lemma_walk_cancels(g.b_y@ - g.a_y@, g.c_y@ - g.b_y@, g.a_y@ - g.c_y@, kx);
    lemma_walk_cancels(g.a_x@ - g.b_x@, g.b_x@ - g.c_x@, g.c_x@ - g.a_x@, ky);
    let first_ab = edge_value(g.a_x@, g.a_y@, g.b_x@, g.b_y@, px, py);
    let first_bc = edge_value(g.b_x@, g.b_y@, g.c_x@, g.c_y@, px, py);
    let first_ca = edge_value(g.c_x@, g.c_y@, g.a_x@, g.a_y@, px, py);
    assert(g.edge_ab@ + g.edge_bc@ + g.edge_ca@ == first_ab + first_bc + first_ca);
    lemma_edges_sum_to_area(g.a_x@, g.a_y@, g.b_x@, g.b_y@, g.c_x@, g.c_y@, px, py);
    lemma_floors(
        (px - g.a_x@) * (g.b_y@ - g.a_y@),
        (py - g.a_y@) * (g.b_x@ - g.a_x@),
        (px - g.b_x@) * (g.c_y@ - g.b_y@),
        (py - g.b_y@) * (g.c_x@ - g.b_x@),
        (px - g.c_x@) * (g.a_y@ - g.c_y@),
        (py - g.c_y@) * (g.a_x@ - g.c_x@),
        (g.c_x@ - g.a_x@) * (g.b_y@ - g.a_y@),
        (g.c_y@ - g.a_y@) * (g.b_x@ - g.a_x@),
    );
    assert(-3 <= first_ab + first_bc + first_ca - g.total_area@ <= 3);
    lemma_halves(g.edge_ab_dx@, g.edge_bc_dx@, g.edge_ca_dx@);
    lemma_halves(g.edge_ab_dy@, g.edge_bc_dy@, g.edge_ca_dy@);
}

/// Throughout the walk over a triangle whose doubled area is more than 160
/// square pixels, the three weights at the centre of a quad, before the
/// perspective correction, add up to one within less than two 256ths,
/// wherever each of them fits the format.
pub proof fn lemma_barycentric_sum(g: Gpu)
    requires
        g.wf(),
        abs(g.total_area@) > 2560,
        weight_fits(at_centre(g.edge_bc@, g.edge_bc_dx@, g.edge_bc_dy@), g.total_area@),
        weight_fits(at_centre(g.edge_ca@, g.edge_ca_dx@, g.edge_ca_dy@), g.total_area@),
        weight_fits(at_centre(g.edge_ab@, g.edge_ab_dx@, g.edge_ab_dy@), g.total_area@),
    ensures
        abs(g.weight_a() + g.weight_b() + g.weight_c() - 256) < 2,
{
    lemma_centre_sum(g);
    lemma_weights_sum(
        at_centre(g.edge_bc@, g.edge_bc_dx@, g.edge_bc_dy@),
        at_centre(g.edge_ca@, g.edge_ca_dx@, g.edge_ca_dy@),
        at_centre(g.edge_ab@, g.edge_ab_dx@, g.edge_ab_dy@),
        g.total_area@,
    );
}

/// Whether the shares of the three weights in the reciprocal depth, and
/// their sums, fit the 8.8 format, so that no high bit is lost.
pub open spec fn shares_fit(g: Gpu) -> bool {
    let sa = floor256(g.weight_a() * g.a_inv_z@);
    let sb = floor256(g.weight_b() * g.b_inv_z@);
    let sc = floor256(g.weight_c() * g.c_inv_z@);
    &&& Q16p16::fits(sa) && Q16p16::fits(sb) && Q16p16::fits(sc)
    &&& Q16p16::fits(sa + sb)
    &&& Q16p16::fits(sa + sb + sc)
}

/// The weights applied to the corners' reciprocal depths, before any
/// rounding, in 65536ths.
pub open spec fn weighted_reciprocals(g: Gpu) -> int {
    g.weight_a() * g.a_inv_z@ + g.weight_b() * g.b_inv_z@ + g.weight_c() * g.c_inv_z@
}

/// The reciprocal depth at the centre of a quad is the weights applied to
/// the corners' reciprocal depths, within the three roundings: it is never
/// above, and less than three 256ths below.
pub proof fn lemma_inverse_depth_is_weighted(g: Gpu)
    requires
        shares_fit(g),
    ensures
        weighted_reciprocals(g) - 765 <= 256 * g.inverse_depth() <= weighted_reciprocals(g),
{
    let ua = g.weight_a() * g.a_inv_z@;
    let ub = g.weight_b() * g.b_inv_z@;
    let uc = g.weight_c() * g.c_inv_z@;
    assert(ua == 256 * (ua / 256) + ua % 256);
    assert(ub == 256 * (ub / 256) + ub % 256);
    assert(uc == 256 * (uc / 256) + uc % 256);
    let sa = floor256(ua);
    let sb = floor256(ub);
    let sc = floor256(uc);
    assert(product_8p8(g.weight_a(), g.a_inv_z@) == sa);
    assert(product_8p8(g.weight_b(), g.b_inv_z@) == sb);
    assert(product_8p8(g.weight_c(), g.c_inv_z@) == sc);
    assert(wrapped_sum(sa, sb) == sa + sb);
    assert(wrapped_sum(sa + sb, sc) == sa + sb + sc);
}

/// The depth is the reciprocal of the reciprocal depth, rounded down, where
/// that is above zero and large enough for the depth to fit the format.
pub proof fn lemma_depth_is_reciprocal(g: Gpu)
    requires
        g.inverse_depth() >= 3,
    ensures
        g.depth() * g.inverse_depth() <= 65536 < (g.depth() + 1) * g.inverse_depth(),
        0 < g.depth() <= 21845,
{
    let inv = g.inverse_depth();
    let q = 65536int / inv;
    let r = 65536int % inv;
    assert(inv <= 32767);
    assert(65536 == inv * q + r && 0 <= r < inv) by (nonlinear_arith)
        requires
            inv >= 3,
            q == 65536int / inv,
            r == 65536int % inv,
    ;
    assert(0 < q <= 21845) by (nonlinear_arith)
        requires
            3 <= inv <= 32767,
            65536 == inv * q + r,
            0 <= r < inv,
    ;
    assert(abs(65536) == 65536 && abs(inv) == inv);
    assert(quotient(65536int, inv, Rounding::TowardZero) == q);
    assert(g.depth() == q);
    assert(q * inv == inv * q && (q + 1) * inv == inv * q + inv) by (nonlinear_arith);
}

/// Where no weight is below zero and the three add up to one within one
/// 256th, the reciprocal depth lies between the least and the greatest of
/// the corners' reciprocal depths, within the roundings: `lo` and `hi` are
/// bounds on the three.
pub proof fn lemma_inverse_depth_between_corners(g: Gpu, lo: int, hi: int)
    requires
        shares_fit(g),
        g.weight_a() >= 0 && g.weight_b() >= 0 && g.weight_c() >= 0,
        abs(g.weight_a() + g.weight_b() + g.weight_c() - 256) < 2,
        0 <= lo <= g.a_inv_z@ <= hi,
        lo <= g.b_inv_z@ <= hi,
        lo <= g.c_inv_z@ <= hi,
    ensures
        255 * lo - 765 <= 256 * g.inverse_depth() <= 257 * hi,
{
    lemma_inverse_depth_is_weighted(g);
    let wa = g.weight_a();
    let wb = g.weight_b();
    let wc = g.weight_c();
    let (za, zb, zc) = (g.a_inv_z@, g.b_inv_z@, g.c_inv_z@);
    assert(wa * lo <= wa * za <= wa * hi) by (nonlinear_arith)
        requires
            wa >= 0,
            lo <= za <= hi,
    ;
    assert(wb * lo <= wb * zb <= wb * hi) by (nonlinear_arith)
        requires
            wb >= 0,
            lo <= zb <= hi,
    ;
    assert(wc * lo <= wc * zc <= wc * hi) by (nonlinear_arith)
        requires
            wc >= 0,
            lo <= zc <= hi,
    ;
    let sum = wa + wb + wc;
    assert(wa * lo + wb * lo + wc * lo == sum * lo && wa * hi + wb * hi + wc * hi == sum * hi)
        by (nonlinear_arith)
        requires
            sum == wa + wb + wc,
    ;
    assert(255 * lo <= sum * lo && sum * hi <= 257 * hi) by (nonlinear_arith)
        requires
            255 <= sum <= 257,
            0 <= lo <= hi,
    ;
}

/// A corner at depth one has the reciprocal depth one.
pub proof fn lemma_unit_depth()
    ensures
        quotient_by_sixteenths(256, 16) == 256,
{
    lemma_floor_is(abs(4096), abs(16), 256);
    assert(quotient(4096, 16, Rounding::TowardZero) == 256);
}

/// The share of a weight `w` in the reciprocal depth `m`, where it fits the
/// format, is `m` times the weight.
pub proof fn lemma_share(w: int, m: int)
    requires
        Q16p16::fits(m * w),
    ensures
        product_8p8(w, 256 * m) == m * w,
{
    assert(w * (256 * m) == 256 * (m * w)) by (nonlinear_arith);
    assert(floor256(256 * (m * w)) == m * w);
}

/// One over `m` times a sum that is one within a 256th, rounded down: the
/// `m`th part of one, within a 256th.
pub proof fn lemma_reciprocal_of_a_part(m: int, sum: int)
    requires
        m >= 1,
        256int % m == 0,
        255 <= sum <= 257,
    ensures
        -1 <= 65536int / (m * sum) - 256int / m <= 1,
{
    let part = 256int / m;
    assert(m * part == 256) by (nonlinear_arith)
        requires
            m >= 1,
            256int % m == 0,
            part == 256int / m,
    ;
    let d = m * sum;
    if sum == 256 {
        assert(d * part == 65536) by (nonlinear_arith)
            requires
                d == m * 256,
                m * part == 256,
        ;
        assert(d > 0) by (nonlinear_arith)
            requires
                d == m * 256,
                m >= 1,
        ;
        lemma_floor_is(65536, d, part);
    } else if sum == 257 {
        assert(d * (part - 1) == 65792 - 257 * m) by (nonlinear_arith)
            requires
                d == m * 257,
                m * part == 256,
        ;
        assert(d == 257 * m) by (nonlinear_arith)
            requires
                d == m * 257,
        ;
        lemma_floor_is(65536, d, part - 1);
    } else {
        assert(d == 255 * m) by (nonlinear_arith)
            requires
                d == m * 255,
        ;
        if m == 1 {
            lemma_floor_is(65536, d, 257);
        } else {
            assert(d * part == 65280) by (nonlinear_arith)
                requires
                    d == m * 255,
                    m * part == 256,
            ;
            lemma_floor_is(65536, d, part);
        }
    }
}

/// Over a triangle whose three corners lie at one depth, and that depth one
/// or a part of one (a half, a quarter, ...: the reciprocal depth is `m`),
/// the depth at the centre of a quad is that of the corners, within one
/// 256th, wherever the three weights add up to one within one 256th and
/// their shares of the reciprocal depth can be added in the format.
pub proof fn lemma_flat_depth(g: Gpu, m: int)
    requires
        m >= 1,
        256int % m == 0,
        g.a_inv_z@ == 256 * m,
        g.b_inv_z@ == 256 * m,
        g.c_inv_z@ == 256 * m,
        abs(g.weight_a() + g.weight_b() + g.weight_c() - 256) < 2,
        Q16p16::fits(m * g.weight_a()),
        Q16p16::fits(m * g.weight_b()),
        Q16p16::fits(m * g.weight_c()),
        Q16p16::fits(m * g.weight_a() + m * g.weight_b()),
    ensures
        abs(g.depth() - 256int / m) <= 1,
{
    let wa = g.weight_a();
    let wb = g.weight_b();
    let wc = g.weight_c();
    lemma_share(wa, m);
    lemma_share(wb, m);
    lemma_share(wc, m);
    let sum = wa + wb + wc;
    assert(m * wa + m * wb + m * wc == m * sum) by (nonlinear_arith)
        requires
            sum == wa + wb + wc,
    ;
    assert(0 < m * sum <= 32767) by (nonlinear_arith)
        requires
            255 <= sum <= 257,
            1 <= m <= 127,
    ;
    assert(wrapped_sum(m * wa, m * wb) == m * wa + m * wb);
    assert(wrapped_sum(m * wa + m * wb, m * wc) == m * sum);
    assert(g.inverse_depth() == m * sum);
    lemma_reciprocal_of_a_part(m, sum);
    assert(quotient(65536int, m * sum, Rounding::TowardZero) == 65536int / (m * sum));
    assert(0 <= 256int / m <= 256);
}

// The walk.

/// Two fragments that hold the same numbers are the same fragment.
pub proof fn lemma_view_is_faithful(f: Fragment, g: Fragment)
    requires
        f@ == g@,
    ensures
        f == g,
{
    assert forall|i: int| 0 <= i < 4 implies f.x[i] == g.x[i] by {
        assert(f@.x[i] == f.x[i]@ && g@.x[i] == g.x[i]@);
        assert(f.x[i].0 == g.x[i].0);
    }
    assert forall|i: int| 0 <= i < 4 implies f.y[i] == g.y[i] by {
        assert(f@.y[i] == f.y[i]@ && g@.y[i] == g.y[i]@);
        assert(f.y[i].0 == g.y[i].0);
    }
    assert(f.x@ =~= g.x@);
    assert(f.y@ =~= g.y@);
    assert(f.valid@ =~= g.valid@);
    assert(f.x == g.x);
    assert(f.y == g.y);
    assert(f.valid == g.valid);
}

/// Two runs over the same corners give the same: the same refusal, or the
/// same fragments in the same order, equal in positions, coverage, depth
/// and weights.
pub proof fn lemma_runs_agree(
    a: Vertex,
    b: Vertex,
    c: Vertex,
    r1: Result<Vec<Fragment>, RasterError>,
    r2: Result<Vec<Fragment>, RasterError>,
)
    requires
        is_walk_of(a, b, c, r1),
        is_walk_of(a, b, c, r2),
    ensures
        r1 is Err ==> r1 == r2,
        r1 matches Ok(f1) ==> r2 matches Ok(f2) && f1@ == f2@,
{
    match Gpu::setup_result(a, b, c) {
        Err(e) => {},
        Ok(first) => {
            let f1 = r1->Ok_0;
            let f2 = r2->Ok_0;
            assert forall|i: int| 0 <= i < f1.len() implies f1@[i] == f2@[i] by {
                assert(emitted_at(first, i, f1@[i]));
                assert(emitted_at(first, i, f2@[i]));
                lemma_view_is_faithful(f1@[i], f2@[i]);
            }
            assert(f1@ =~= f2@);
        },
    }
}

/// The number of quads, each two pixels wide, that cover `v` sixteenths.
pub open spec fn quads_across(v: int) -> int {
    (v + 31) / 32
}

/// Over a bounding box at least half a pixel wide and high, the walk emits
/// the quads of its first row in every row, and one more in every row after
/// the first.
pub proof fn lemma_quad_count_by_rows(w: int, h: int)
    requires
        w >= 8,
        h >= 8,
    ensures
        quad_count(w, h) == first_row_quads(w) * rows(h) + (rows(h) - 1),
{
    let n = first_row_quads(w);
    let r = rows(h);
    assert(row_quads(w) == n + 1);
    if r >= 2 {
        assert(n + (n + 1) + (r - 2) * (n + 1) == n * r + (r - 1)) by (nonlinear_arith);
    } else {
        assert(n * r == n) by (nonlinear_arith)
            requires
                r == 1,
        ;
    }
}

/// Over a bounding box of whole quads, the walk emits the quads that cover
/// the box, and one more for every row after the first. So it emits
/// exactly the quads that cover the box where the box is one quad high,
/// and only there.
pub proof fn lemma_quad_count_whole_quads(w: int, h: int)
    requires
        w >= 32,
        h >= 32,
        w % 32 == 0,
        h % 32 == 0,
    ensures
        quad_count(w, h) == quads_across(w) * quads_across(h) + (quads_across(h) - 1),
        quad_count(w, h) == quads_across(w) * quads_across(h) <==> h == 32,
{
    lemma_quad_count_by_rows(w, h);
    assert(first_row_quads(w) == quads_across(w));
    assert(rows(h) == quads_across(h));
}

/// Over a bounding box under two and a half pixels wide and high, and so
/// over every box of one pixel, the walk is one quad.
pub proof fn lemma_small_box_one_quad(w: int, h: int)
    requires
        0 <= w < 40,
        0 <= h < 40,
    ensures
        quad_count(w, h) == 1,
{
}

/// Over a bounding box no higher than one quad the walk emits exactly the
/// quads that cover the box if and only if the box has a width and a height
/// and, where it is lower than half a pixel, is no wider than one quad; or,
/// where it is higher, is narrower than half a pixel, or as wide as a whole
/// number of quads, or half a pixel and more beyond one.
pub proof fn lemma_quad_count_low_box(w: int, h: int)
    requires
        0 <= w,
        0 <= h <= 32,
    ensures
        quad_count(w, h) == quads_across(w) * quads_across(h) <==> w > 0 && h > 0 && (if h < 8 {
            w <= 32
        } else {
            w < 8 || w % 32 == 0 || w % 32 >= 8
        }),
{
    let n = quads_across(w);
    if h == 0 {
        assert(quads_across(h) == 0);
        assert(n * 0 == 0) by (nonlinear_arith);
    } else {
        assert(quads_across(h) == 1);
        assert(n * 1 == n) by (nonlinear_arith);
        if h >= 8 {
            assert(rows(h) == 1);
        }
    }
}

} // verus!
