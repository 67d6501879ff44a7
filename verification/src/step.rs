//! One step of the rasteriser: the quad it emits and the state it leaves.

use crate::arith::floor16;
use crate::q12p4::lemma_shl_one;
use crate::q12p4::Q12p4;
use crate::q16p16::product_8p8;
use crate::q16p16::quotient_8p8;
use crate::q16p16::ratio;
use crate::q16p16::wrapped_sum;
use crate::q16p16::Q16p16;
use crate::q24p4::edge_value;
use crate::q24p4::lemma_product_bound;
use crate::q24p4::Q24p4;
use crate::raster::edge_passes;
use crate::raster::q12;
use crate::raster::q24;
use crate::raster::Fragment;
use crate::raster::FragmentView;
use crate::raster::Gpu;
use crate::raster::can_turn;
use core::ops::Neg;
use core::ops::Shl;
use vstd::prelude::*;

verus! {

/// The value of an edge function at sample `i` of a quad, from its value `e`
/// at sample 0: one pixel along adds `dx`, one pixel down adds `dy`.
pub open spec fn at_sample(e: int, dx: int, dy: int, i: int) -> int {
    e + (if i == 1 || i == 3 {
        dx
    } else {
        0
    }) + (if i == 2 || i == 3 {
        dy
    } else {
        0
    })
}

/// The value of an edge function at the centre of a quad, half a pixel along
/// and half a pixel down from sample 0; each half increment is rounded down
/// to a sixteenth.
pub open spec fn at_centre(e: int, dx: int, dy: int) -> int {
    e + floor16(8 * dx) + floor16(8 * dy)
}

impl Gpu {
    /// Whether sample `i` of the current quad is covered: all three edges
    /// pass the fill rule there.
    pub open spec fn covers(&self, i: int) -> bool {
        &&& edge_passes(
            at_sample(self.edge_ab@, self.edge_ab_dx@, self.edge_ab_dy@, i),
            self.edge_ab_dx@,
            self.edge_ab_dy@,
        )
        &&& edge_passes(
            at_sample(self.edge_bc@, self.edge_bc_dx@, self.edge_bc_dy@, i),
            self.edge_bc_dx@,
            self.edge_bc_dy@,
        )
        &&& edge_passes(
            at_sample(self.edge_ca@, self.edge_ca_dx@, self.edge_ca_dy@, i),
            self.edge_ca_dx@,
            self.edge_ca_dy@,
        )
    }

    /// The weight of corner A at the centre of the current quad before the
    /// perspective correction: the edge function of BC there, over the area.
    pub open spec fn weight_a(&self) -> int {
        ratio(at_centre(self.edge_bc@, self.edge_bc_dx@, self.edge_bc_dy@), self.total_area@)
    }

    /// The weight of corner B: the edge function of CA over the area.
    pub open spec fn weight_b(&self) -> int {
        ratio(at_centre(self.edge_ca@, self.edge_ca_dx@, self.edge_ca_dy@), self.total_area@)
    }

    /// The weight of corner C: the edge function of AB over the area.
    pub open spec fn weight_c(&self) -> int {
        ratio(at_centre(self.edge_ab@, self.edge_ab_dx@, self.edge_ab_dy@), self.total_area@)
    }

    /// The reciprocal depth at the centre of the current quad: the weights
    /// applied to the corners' reciprocal depths.
    pub open spec fn inverse_depth(&self) -> int {
        wrapped_sum(
            wrapped_sum(
                product_8p8(self.weight_a(), self.a_inv_z@),
                product_8p8(self.weight_b(), self.b_inv_z@),
            ),
            product_8p8(self.weight_c(), self.c_inv_z@),
        )
    }

    /// The depth at the centre of the current quad.
    pub open spec fn depth(&self) -> int {
        quotient_8p8(256, self.inverse_depth())
    }

    /// The positions of the four samples of the current quad along x.
    pub open spec fn quad_x(&self) -> Seq<int> {
        seq![self.x@, self.x@ + self.x_inc@, self.x@, self.x@ + self.x_inc@]
    }

    /// The positions of the four samples of the current quad along y.
    pub open spec fn quad_y(&self) -> Seq<int> {
        seq![self.y@, self.y@, self.y@ + 16, self.y@ + 16]
    }

    /// The fragment that a step emits in this state. While the walk lasts it
    /// is the current quad with its coverage, its depth and its
    /// perspective-correct weights; after the walk it is the quad at the
    /// current position with nothing covered.
    pub open spec fn emitted(&self) -> FragmentView {
        if self.drawing {
            FragmentView {
                x: self.quad_x(),
                y: self.quad_y(),
                valid: seq![self.covers(0), self.covers(1), self.covers(2), self.covers(3)],
                depth: self.depth(),
                interp_a: product_8p8(self.weight_a(), self.depth()),
                interp_b: product_8p8(self.weight_b(), self.depth()),
                interp_c: product_8p8(self.weight_c(), self.depth()),
            }
        } else {
            FragmentView {
                x: self.quad_x(),
                y: self.quad_y(),
                valid: seq![false, false, false, false],
                depth: 0,
                interp_a: 0,
                interp_b: 0,
                interp_c: 0,
            }
        }
    }

    /// Whether the quad after this one would leave the bounding box, so that
    /// the walk turns: past the right edge while it heads right, onto or
    /// past the left edge while it heads left.
    pub open spec fn turns(&self) -> bool {
        let ahead = self.x@ + 2 * self.x_inc@;
        (self.x_inc@ > 0 && ahead > self.stop_x@) || (self.x_inc@ < 0 && ahead <= self.start_x@)
    }

    /// The state that a step leaves. After the walk nothing changes. At a
    /// turn the position moves two pixels along and two pixels down, the
    /// direction and the increments along x change sign, and the edge
    /// functions take two pixels along (in the old direction) and two down.
    /// Elsewhere the position and the edge functions move two pixels along.
    pub open spec fn advanced(&self) -> Gpu {
        if !self.drawing {
            *self
        } else if self.turns() {
            Gpu {
                x: q12(self.x@ + 2 * self.x_inc@),
                x_inc: q12(-self.x_inc@),
                y: q12(self.y@ + 32),
                edge_ab: q24(self.edge_ab@ + 2 * self.edge_ab_dx@ + 2 * self.edge_ab_dy@),
                edge_bc: q24(self.edge_bc@ + 2 * self.edge_bc_dx@ + 2 * self.edge_bc_dy@),
                edge_ca: q24(self.edge_ca@ + 2 * self.edge_ca_dx@ + 2 * self.edge_ca_dy@),
                edge_ab_dx: q12(-self.edge_ab_dx@),
                edge_bc_dx: q12(-self.edge_bc_dx@),
                edge_ca_dx: q12(-self.edge_ca_dx@),
                drawing: self.y@ + 32 <= self.stop_y@,
                ..*self
            }
        } else {
            Gpu {
                x: q12(self.x@ + 2 * self.x_inc@),
                edge_ab: q24(self.edge_ab@ + 2 * self.edge_ab_dx@),
                edge_bc: q24(self.edge_bc@ + 2 * self.edge_bc_dx@),
                edge_ca: q24(self.edge_ca@ + 2 * self.edge_ca_dx@),
                drawing: self.y@ <= self.stop_y@,
                ..*self
            }
        }
    }

    /// The state after `n` steps.
    pub open spec fn after(&self, n: nat) -> Gpu
        decreases n,
    {
        if n == 0 {
            *self
        } else {
            self.after((n - 1) as nat).advanced()
        }
    }
}

/// The bound that the edge functions keep during a walk inside the window.
pub const EDGE_LIMIT: i32 = 0x1200_0000;

/// What `pixels` steps of `d` each add up to is bounded by the extent of the
/// window.
pub proof fn lemma_walk_bound(d: int, pixels: int)
    requires
        Q12p4::fits(d),
        -2 <= pixels <= 2050,
    ensures
        -0x500_0000 <= d * pixels <= 0x500_0000,
{
    assert(-0x500_0000 <= d * pixels <= 0x500_0000) by (nonlinear_arith)
        requires
            -0x8000 <= d <= 0x7fff,
            -2 <= pixels <= 2050,
    ;
}

/// `s` quads more along or down add `2 s` times the increment.
pub proof fn lemma_walk_step(d: int, k: int, s: int)
    ensures
        d * (2 * (k + s)) == d * (2 * k) + 2 * s * d,
{
    assert(d * (2 * (k + s)) == d * (2 * k) + 2 * s * d) by (nonlinear_arith);
}

/// The value of an edge function after one quad more along (`s` is 1) or back
/// (`s` is -1) and, where `t` is 1, one quad more down.
pub proof fn lemma_walked_on(first: int, dx: int, dy: int, k: int, j: int, s: int, t: int)
    requires
        s == 1 || s == -1,
        t == 0 || t == 1,
    ensures
        first + dx * (2 * (k + s)) + dy * (2 * (j + t)) == (first + dx * (2 * k) + dy * (2 * j))
            + (if s == 1 {
            2 * dx
        } else {
            -2 * dx
        }) + (if t == 1 {
            2 * dy
        } else {
            0
        }),
{
    lemma_walk_step(dx, k, s);
    lemma_walk_step(dy, j, t);
    assert(2 * s * dx == if s == 1 {
        2 * dx
    } else {
        -2 * dx
    }) by (nonlinear_arith)
        requires
            s == 1 || s == -1,
    ;
    assert(2 * t * dy == if t == 1 {
        2 * dy
    } else {
        0
    }) by (nonlinear_arith)
        requires
            t == 0 || t == 1,
    ;
}

impl Gpu {
    /// Every number of the state is far enough from the ends of its format
    /// for a step to overflow nowhere: the position and the edge functions
    /// at any time; while the walk lasts, twice each increment along x; and
    /// at a turn, the sums that the turn takes.
    pub open spec fn has_room(&self) -> bool {
        &&& self.x_inc@ == 16 || self.x_inc@ == -16
        &&& -0x5000 <= self.x@ <= 0x5000
        &&& -0x5000 <= self.y@ <= 0x5000
        &&& -EDGE_LIMIT <= self.edge_ab@ <= EDGE_LIMIT
        &&& -EDGE_LIMIT <= self.edge_bc@ <= EDGE_LIMIT
        &&& -EDGE_LIMIT <= self.edge_ca@ <= EDGE_LIMIT
        &&& self.drawing ==> {
            &&& Q12p4::fits(2 * self.edge_ab_dx@)
            &&& Q12p4::fits(2 * self.edge_bc_dx@)
            &&& Q12p4::fits(2 * self.edge_ca_dx@)
        }
        &&& self.drawing && self.turns() ==> {
            &&& can_turn(self.edge_ab_dx@, self.edge_ab_dy@)
            &&& can_turn(self.edge_bc_dx@, self.edge_bc_dy@)
            &&& can_turn(self.edge_ca_dx@, self.edge_ca_dy@)
        }
    }

    /// The bounding box is no wider, and no higher, than the widest and
    /// highest that the window admits.
    pub proof fn lemma_box_bounded(&self)
        requires
            self.corners_ok(),
        ensures
            0 <= self.width() <= 0x7fff,
            0 <= self.height() <= 0x4000,
            -0x4000 <= self.start_x@ <= self.stop_x@ <= 0x4000,
            -0x4000 <= self.start_y@ <= self.stop_y@ <= 0x4000,
    {
    }

    /// A well-formed state has room.
    pub proof fn lemma_has_room(&self)
        requires
            self.wf(),
        ensures
            self.has_room(),
    {
        self.lemma_edges_bounded();
        reveal(Gpu::wf);
        self.lemma_box_bounded();
        let w = self.width();
        let h = self.height();
        if self.drawing {
            if self.x_inc@ > 0 {
                if self.turns() {
                    assert(crate::raster::turns_in_first_row(w, h));
                }
            } else {
                assert(self.row() >= 40 && self.row() <= h);
                assert(crate::raster::walks_back(h));
            }
        }
    }

    /// In a well-formed state the edge functions are far from the ends of
    /// the 24.4 format.
    pub proof fn lemma_edges_bounded(&self)
        requires
            self.wf(),
        ensures
            -EDGE_LIMIT <= self.edge_ab@ <= EDGE_LIMIT,
            -EDGE_LIMIT <= self.edge_bc@ <= EDGE_LIMIT,
            -EDGE_LIMIT <= self.edge_ca@ <= EDGE_LIMIT,
    {
        reveal(Gpu::wf);
        self.lemma_box_bounded();
        let px = self.start_x@ + 8;
        let py = self.start_y@ + 8;
        let kx = 2 * ((self.col() - 8) / 32);
        let ky = 2 * ((self.row() - 8) / 32);
        assert(-2 <= kx <= 2050);
        assert(-2 <= ky <= 2050);
        lemma_product_bound(px - self.a_x@, self.b_y@ - self.a_y@);
        lemma_product_bound(py - self.a_y@, self.b_x@ - self.a_x@);
        lemma_product_bound(px - self.b_x@, self.c_y@ - self.b_y@);
        lemma_product_bound(py - self.b_y@, self.c_x@ - self.b_x@);
        lemma_product_bound(px - self.c_x@, self.a_y@ - self.c_y@);
        lemma_product_bound(py - self.c_y@, self.a_x@ - self.c_x@);
        lemma_walk_bound(self.b_y@ - self.a_y@, kx);
        lemma_walk_bound(self.a_x@ - self.b_x@, ky);
        lemma_walk_bound(self.c_y@ - self.b_y@, kx);
        lemma_walk_bound(self.b_x@ - self.c_x@, ky);
        lemma_walk_bound(self.a_y@ - self.c_y@, kx);
        lemma_walk_bound(self.c_x@ - self.a_x@, ky);
    }

    /// How many quads along the state after a step lies: one further in the
    /// direction of the walk.
    pub open spec fn stride(&self) -> int {
        if self.x_inc@ > 0 {
            1
        } else {
            -1
        }
    }

    /// How many quads down the state after a step lies.
    pub open spec fn descent(&self) -> int {
        if self.turns() {
            1
        } else {
            0
        }
    }

    /// A step moves the position by whole quads.
    pub proof fn lemma_advanced_position(&self)
        requires
            self.corners_ok(),
            self.position_ok(),
            self.drawing,
        ensures
            self.advanced().corners_ok(),
            self.advanced().position_ok(),
            self.advanced().col() == self.col() + 32 * self.stride(),
            self.advanced().row() == self.row() + 32 * self.descent(),
            (self.advanced().col() - 8) / 32 == (self.col() - 8) / 32 + self.stride(),
            (self.advanced().row() - 8) / 32 == (self.row() - 8) / 32 + self.descent(),
    {
        let next = self.advanced();
        let k = (self.col() - 8) / 32;
        let j = (self.row() - 8) / 32;
        assert(self.col() - 8 == 32 * k);
        assert(self.row() - 8 == 32 * j);
        assert(-0x5000 <= self.x@ + 2 * self.x_inc@ <= 0x5000);
        assert(-0x5000 <= self.y@ + 32 <= 0x5000);
        if self.turns() {
            assert(next.x@ == self.x@ + 2 * self.x_inc@);
            assert(next.y@ == self.y@ + 32);
            assert(next.x_inc@ == -self.x_inc@);
        } else {
            assert(next.x@ == self.x@ + 2 * self.x_inc@);
            assert(next.y@ == self.y@);
            assert(next.x_inc@ == self.x_inc@);
        }
        assert(next.col() - 8 == 32 * (k + self.stride()));
        assert(next.row() - 8 == 32 * (j + self.descent()));
    }

    /// A step keeps the increments those of the edges.
    pub proof fn lemma_advanced_increments(&self)
        requires
            self.corners_ok(),
            self.position_ok(),
            self.increments_ok(),
            self.drawing,
        ensures
            self.advanced().increments_ok(),
    {
        let next = self.advanced();
        if self.turns() {
            assert(next.x_inc@ == -self.x_inc@);
            assert(next.edge_ab_dx@ == -self.edge_ab_dx@);
            assert(next.edge_bc_dx@ == -self.edge_bc_dx@);
            assert(next.edge_ca_dx@ == -self.edge_ca_dx@);
        }
    }

    /// A step keeps the accumulators on the edge functions.
    pub proof fn lemma_advanced_edges(&self)
        requires
            self.wf(),
            self.drawing,
        ensures
            self.advanced().edges_ok(),
    {
        self.lemma_edges_bounded();
        reveal(Gpu::wf);
        self.lemma_advanced_position();
        let next = self.advanced();
        let k = (self.col() - 8) / 32;
        let j = (self.row() - 8) / 32;
        let s = self.stride();
        let t = self.descent();
        let px = self.start_x@ + 8;
        let py = self.start_y@ + 8;
        let first_ab = edge_value(self.a_x@, self.a_y@, self.b_x@, self.b_y@, px, py);
        let first_bc = edge_value(self.b_x@, self.b_y@, self.c_x@, self.c_y@, px, py);
        let first_ca = edge_value(self.c_x@, self.c_y@, self.a_x@, self.a_y@, px, py);
        lemma_walked_on(first_ab, self.b_y@ - self.a_y@, self.a_x@ - self.b_x@, k, j, s, t);
        lemma_walked_on(first_bc, self.c_y@ - self.b_y@, self.b_x@ - self.c_x@, k, j, s, t);
        lemma_walked_on(first_ca, self.a_y@ - self.c_y@, self.c_x@ - self.a_x@, k, j, s, t);
        if self.turns() {
            assert(next.edge_ab@ == self.edge_ab@ + 2 * self.edge_ab_dx@ + 2 * self.edge_ab_dy@);
            assert(next.edge_bc@ == self.edge_bc@ + 2 * self.edge_bc_dx@ + 2 * self.edge_bc_dy@);
            assert(next.edge_ca@ == self.edge_ca@ + 2 * self.edge_ca_dx@ + 2 * self.edge_ca_dy@);
        } else {
            assert(next.edge_ab@ == self.edge_ab@ + 2 * self.edge_ab_dx@);
            assert(next.edge_bc@ == self.edge_bc@ + 2 * self.edge_bc_dx@);
            assert(next.edge_ca@ == self.edge_ca@ + 2 * self.edge_ca_dx@);
        }
    }

    /// A step keeps a well-formed state well-formed.
    pub proof fn lemma_advanced_wf(&self)
        requires
            self.wf(),
        ensures
            self.advanced().wf(),
    {
        if self.drawing {
            self.lemma_advanced_edges();
            reveal(Gpu::wf);
            self.lemma_advanced_position();
            self.lemma_advanced_increments();
        }
    }
}

/// Twice a 12.4 number that has room for it.
pub fn doubled(v: Q12p4) -> (r: Q12p4)
    requires
        Q12p4::fits(2 * v@),
    ensures
        r@ == 2 * v@,
{
    proof {
        lemma_shl_one(v);
    }
    v.shl(1)
}

/// Whether an edge passes the fill rule at a sample.
pub fn passes(e: Q24p4, dx: Q12p4, dy: Q12p4) -> (r: bool)
    ensures
        r == edge_passes(e@, dx@, dy@),
{
    e.is_negative() || (e.is_zero() && (dy.is_negative() || (dy.is_zero() && dx.is_negative())))
}

impl Gpu {
    /// Whether a sample at which the three edge functions have the given
    /// values is covered.
    pub fn covered(&self, edge_ab: Q24p4, edge_bc: Q24p4, edge_ca: Q24p4) -> (r: bool)
        ensures
            r == (edge_passes(edge_ab@, self.edge_ab_dx@, self.edge_ab_dy@) && edge_passes(
                edge_bc@,
                self.edge_bc_dx@,
                self.edge_bc_dy@,
            ) && edge_passes(edge_ca@, self.edge_ca_dx@, self.edge_ca_dy@)),
    {
        let ab_ok = passes(edge_ab, self.edge_ab_dx, self.edge_ab_dy);
        let bc_ok = passes(edge_bc, self.edge_bc_dx, self.edge_bc_dy);
        let ca_ok = passes(edge_ca, self.edge_ca_dx, self.edge_ca_dy);
        ab_ok && bc_ok && ca_ok
    }

    /// The coverage of the four samples of the current quad.
    pub fn coverage(&self) -> (r: [bool; 4])
        requires
            self.wf(),
        ensures
            r@ == seq![self.covers(0), self.covers(1), self.covers(2), self.covers(3)],
    {
        proof {
            self.lemma_has_room();
        }
        let v0 = self.covered(self.edge_ab, self.edge_bc, self.edge_ca);
        let v1 = self.covered(
            self.edge_ab + self.edge_ab_dx,
            self.edge_bc + self.edge_bc_dx,
            self.edge_ca + self.edge_ca_dx,
        );
        let v2 = self.covered(
            self.edge_ab + self.edge_ab_dy,
            self.edge_bc + self.edge_bc_dy,
            self.edge_ca + self.edge_ca_dy,
        );
        let v3 = self.covered(
            self.edge_ab + self.edge_ab_dx + self.edge_ab_dy,
            self.edge_bc + self.edge_bc_dx + self.edge_bc_dy,
            self.edge_ca + self.edge_ca_dx + self.edge_ca_dy,
        );
        [v0, v1, v2, v3]
    }

    /// The weights of the three corners at the centre of the current quad,
    /// before the perspective correction.
    pub fn weights(&self) -> (r: (Q16p16, Q16p16, Q16p16))
        requires
            self.wf(),
        ensures
            r.0@ == self.weight_a(),
            r.1@ == self.weight_b(),
            r.2@ == self.weight_c(),
    {
        proof {
            self.lemma_has_room();
        }
        let half = Q12p4::half();
        let centre_bc = self.edge_bc + self.edge_bc_dx * half + self.edge_bc_dy * half;
        let centre_ca = self.edge_ca + self.edge_ca_dx * half + self.edge_ca_dy * half;
        let centre_ab = self.edge_ab + self.edge_ab_dx * half + self.edge_ab_dy * half;
        (
            Q16p16::div_q24p4(centre_bc, self.total_area),
            Q16p16::div_q24p4(centre_ca, self.total_area),
            Q16p16::div_q24p4(centre_ab, self.total_area),
        )
    }

    /// The fragment of the current quad.
    pub fn quad(&self) -> (frag: Fragment)
        requires
            self.wf(),
        ensures
            frag@ == self.emitted(),
    {
        proof {
            self.lemma_has_room();
        }
        let x1 = self.x + self.x_inc;
        let y1 = self.y + Q12p4::one();
        let xs = [self.x, x1, self.x, x1];
        let ys = [self.y, self.y, y1, y1];
        if !self.drawing {
            let idle = Fragment {
                x: xs,
                y: ys,
                valid: [false, false, false, false],
                depth: Q16p16(0),
                interp_a: Q16p16(0),
                interp_b: Q16p16(0),
                interp_c: Q16p16(0),
            };
            assert(idle@ =~= self.emitted());
            return idle;
        }
        let valid = self.coverage();
        let (wa, wb, wc) = self.weights();
        let inv_depth = (wa * self.a_inv_z).wrapping_add(wb * self.b_inv_z).wrapping_add(
            wc * self.c_inv_z,
        );
        let depth = Q16p16::one() / inv_depth;
        let frag = Fragment {
            x: xs,
            y: ys,
            valid,
            depth,
            interp_a: wa * depth,
            interp_b: wb * depth,
            interp_c: wc * depth,
        };
        assert(frag@ =~= self.emitted());
        frag
    }

    /// Moves to the next quad of the walk.
    pub fn advance(&mut self)
        requires
            old(self).wf(),
            old(self).drawing,
        ensures
            *final(self) == old(self).advanced(),
            final(self).wf(),
    {
        proof {
            self.lemma_has_room();
        }
        let ghost before = *self;
        let ahead = self.x + doubled(self.x_inc);
        if (self.x_inc.is_positive() && ahead.0 > self.stop_x.0) || (self.x_inc.is_negative()
            && ahead.0 <= self.start_x.0) {
            let y = self.y + Q12p4::two();
            let next = Gpu {
                x: ahead,
                x_inc: self.x_inc.neg(),
                y,
                edge_ab: self.edge_ab + (doubled(self.edge_ab_dx) + doubled(self.edge_ab_dy)),
                edge_bc: self.edge_bc + (doubled(self.edge_bc_dx) + doubled(self.edge_bc_dy)),
                edge_ca: self.edge_ca + (doubled(self.edge_ca_dx) + doubled(self.edge_ca_dy)),
                edge_ab_dx: self.edge_ab_dx.neg(),
                edge_bc_dx: self.edge_bc_dx.neg(),
                edge_ca_dx: self.edge_ca_dx.neg(),
                drawing: y.0 <= self.stop_y.0,
                ..*self
            };
            assert(next == self.advanced());
            *self = next;
        } else {
            let next = Gpu {
                x: ahead,
                edge_ab: self.edge_ab + doubled(self.edge_ab_dx),
                edge_bc: self.edge_bc + doubled(self.edge_bc_dx),
                edge_ca: self.edge_ca + doubled(self.edge_ca_dx),
                drawing: self.y.0 <= self.stop_y.0,
                ..*self
            };
            assert(next == self.advanced());
            *self = next;
        }
        proof {
            before.lemma_advanced_wf();
        }
    }

    /// Emits the current quad and moves to the next. After the walk it
    /// emits the quad at the current position with nothing covered, and
    /// changes nothing.
    pub fn step_rasteriser(&mut self) -> (frag: Fragment)
        requires
            old(self).wf(),
        ensures
            frag@ == old(self).emitted(),
            *final(self) == old(self).advanced(),
            final(self).wf(),
    {
        let frag = self.quad();
        if self.drawing {
            self.advance();
        }
        frag
    }
}

} // verus!
