//! The rasteriser: triangle setup and the state machine that walks the
//! bounding box in 2x2 quads, one quad a step.

use crate::q12p4::Q12p4;
use crate::q16p16::quotient_by_sixteenths;
use crate::q16p16::Q16p16;
use crate::q24p4::edge_value;
use crate::q24p4::lemma_product_bound;
use crate::q24p4::Q24p4;
use vstd::prelude::*;

verus! {

/// A corner of a triangle: a position on the screen, a depth and a colour.
#[derive(Clone, Copy, Debug, PartialEq, Eq)]
pub struct Vertex {
    pub x: Q12p4,
    pub y: Q12p4,
    pub z: Q12p4,
    pub red: u8,
    pub green: u8,
    pub blue: u8,
}

/// Why a triangle is refused or flagged.
#[derive(Clone, Copy, Debug, PartialEq, Eq, Structural)]
pub enum RasterError {
    /// The three corners lie on one line: the area is zero.
    DegenerateTriangle,
    /// A corner has depth zero, which has no reciprocal.
    ZeroDepth,
    /// The corners lie outside the window in which no step overflows.
    Overflow,
}

/// One 2x2 quad of samples:
///
/// ```text
/// 0 1 -> x
/// 2 3
/// |
/// v
/// y
/// ```
#[derive(Clone, Copy, Debug, PartialEq, Eq)]
pub struct Fragment {
    pub x: [Q12p4; 4],
    pub y: [Q12p4; 4],
    pub valid: [bool; 4],
    pub depth: Q16p16,
    pub interp_a: Q16p16,
    pub interp_b: Q16p16,
    pub interp_c: Q16p16,
}

/// What a fragment holds, as numbers: positions in sixteenths, weights and
/// depth in 256ths.
#[verifier::ext_equal]
pub struct FragmentView {
    pub x: Seq<int>,
    pub y: Seq<int>,
    pub valid: Seq<bool>,
    pub depth: int,
    pub interp_a: int,
    pub interp_b: int,
    pub interp_c: int,
}

impl View for Fragment {
    type V = FragmentView;

    open spec fn view(&self) -> FragmentView {
        FragmentView {
            x: Seq::new(4, |i: int| self.x[i]@),
            y: Seq::new(4, |i: int| self.y[i]@),
            valid: self.valid@,
            depth: self.depth@,
            interp_a: self.interp_a@,
            interp_b: self.interp_b@,
            interp_c: self.interp_c@,
        }
    }
}

impl Fragment {
    /// A fragment at the origin that covers nothing.
    pub fn new() -> (r: Self)
        ensures
            r@ == (FragmentView {
                x: seq![0int, 0int, 0int, 0int],
                y: seq![0int, 0int, 0int, 0int],
                valid: seq![false, false, false, false],
                depth: 0,
                interp_a: 0,
                interp_b: 0,
                interp_c: 0,
            }),
    {
        Self {
            x: [Q12p4(0), Q12p4(0), Q12p4(0), Q12p4(0)],
            y: [Q12p4(0), Q12p4(0), Q12p4(0), Q12p4(0)],
            valid: [false, false, false, false],
            depth: Q16p16(0),
            interp_a: Q16p16(0),
            interp_b: Q16p16(0),
            interp_c: Q16p16(0),
        }
    }
}

/// The fill rule for one edge: a sample passes where the edge value `e` is
/// negative, and on the edge itself (`e == 0`) where the edge is a top edge
/// (`dy < 0`) or a left edge (`dy == 0` and `dx < 0`).
pub open spec fn edge_passes(e: int, dx: int, dy: int) -> bool {
    e < 0 || (e == 0 && (dy < 0 || (dy == 0 && dx < 0)))
}

/// The smallest of three.
pub open spec fn min3(a: int, b: int, c: int) -> int {
    if a <= b && a <= c {
        a
    } else if b <= c {
        b
    } else {
        c
    }
}

/// The largest of three.
pub open spec fn max3(a: int, b: int, c: int) -> int {
    if a >= b && a >= c {
        a
    } else if b >= c {
        b
    } else {
        c
    }
}

/// The largest coordinate, in sixteenths, that a corner may have on either
/// side of zero: 1024 pixels.
pub const COORD_LIMIT: i16 = 16384;

/// Width of the bounding box of three corners, in sixteenths.
pub open spec fn box_width(a: Vertex, b: Vertex, c: Vertex) -> int {
    max3(a.x@, b.x@, c.x@) - min3(a.x@, b.x@, c.x@)
}

/// Height of the bounding box of three corners, in sixteenths.
pub open spec fn box_height(a: Vertex, b: Vertex, c: Vertex) -> int {
    max3(a.y@, b.y@, c.y@) - min3(a.y@, b.y@, c.y@)
}

/// Whether the walk can turn at the end of a row along which an edge has
/// the increments `dx` and `dy`: a turn takes twice each, and their sum, in
/// the 12.4 format.
pub open spec fn can_turn(dx: int, dy: int) -> bool {
    &&& Q12p4::fits(2 * dx)
    &&& Q12p4::fits(2 * dy)
    &&& Q12p4::fits(2 * dx + 2 * dy)
}

/// Whether the walk over a box of `w` by `h` sixteenths turns at the end of
/// its first row. It does unless the box is lower than half a pixel, so
/// that the walk ends with its first quad, and that quad is not the last of
/// its row.
pub open spec fn turns_in_first_row(w: int, h: int) -> bool {
    h >= 8 || w < 40
}

/// Whether the walk over a box `h` sixteenths high has a second row, which
/// heads left.
pub open spec fn walks_back(h: int) -> bool {
    h >= 40
}

/// Whether every sum that the walk over a box of `w` by `h` sixteenths takes
/// of the increments of one edge fits the 12.4 format. `dx` and `dy` are the
/// increments along x and y as the first row has them. The difference
/// behind `dy` is taken both ways at setup; every step takes twice the
/// increment along x of its row; a turn takes what `can_turn` asks, in the
/// first row with `dx` and in the rows that head left with `-dx`.
pub open spec fn edge_fits(dx: int, dy: int, w: int, h: int) -> bool {
    &&& Q12p4::fits(dy) && Q12p4::fits(-dy)
    &&& Q12p4::fits(2 * dx)
    &&& turns_in_first_row(w, h) ==> can_turn(dx, dy)
    &&& walks_back(h) ==> can_turn(-dx, dy)
}

/// The window in which the rasteriser overflows nowhere, at setup or at any
/// step of the walk: every coordinate within 1024 pixels of zero, and for
/// each edge every sum of its increments that the walk takes inside the
/// 12.4 format.
pub open spec fn in_window(a: Vertex, b: Vertex, c: Vertex) -> bool {
    let w = box_width(a, b, c);
    let h = box_height(a, b, c);
    &&& -COORD_LIMIT <= a.x@ <= COORD_LIMIT
    &&& -COORD_LIMIT <= a.y@ <= COORD_LIMIT
    &&& -COORD_LIMIT <= b.x@ <= COORD_LIMIT
    &&& -COORD_LIMIT <= b.y@ <= COORD_LIMIT
    &&& -COORD_LIMIT <= c.x@ <= COORD_LIMIT
    &&& -COORD_LIMIT <= c.y@ <= COORD_LIMIT
    &&& edge_fits(b.y@ - a.y@, a.x@ - b.x@, w, h)
    &&& edge_fits(c.y@ - b.y@, b.x@ - c.x@, w, h)
    &&& edge_fits(a.y@ - c.y@, c.x@ - a.x@, w, h)
}

/// The 12.4 number of `v` sixteenths.
pub open spec fn q12(v: int) -> Q12p4 {
    Q12p4(v as i16)
}

/// The 24.4 number of `v` sixteenths.
pub open spec fn q24(v: int) -> Q24p4 {
    Q24p4(v as i32)
}

/// The 8.8 number of `v` 256ths.
pub open spec fn q8(v: int) -> Q16p16 {
    Q16p16(v as i16)
}

/// The state of the rasteriser for one triangle.
#[derive(Clone, Copy, Debug, PartialEq, Eq)]
pub struct Gpu {
    pub a_x: Q12p4,
    pub a_y: Q12p4,
    pub a_inv_z: Q16p16,
    pub b_x: Q12p4,
    pub b_y: Q12p4,
    pub b_inv_z: Q16p16,
    pub c_x: Q12p4,
    pub c_y: Q12p4,
    pub c_inv_z: Q16p16,
    /// Twice the signed area: the edge function of A, B at C.
    pub total_area: Q24p4,
    pub start_x: Q12p4,
    pub start_y: Q12p4,
    pub stop_x: Q12p4,
    pub stop_y: Q12p4,
    /// The three edge functions at sample 0 of the current quad.
    pub edge_ab: Q24p4,
    pub edge_bc: Q24p4,
    pub edge_ca: Q24p4,
    /// What one pixel along the current direction adds to each edge function.
    pub edge_ab_dx: Q12p4,
    /// What one pixel down adds to each edge function.
    pub edge_ab_dy: Q12p4,
    pub edge_bc_dx: Q12p4,
    pub edge_bc_dy: Q12p4,
    pub edge_ca_dx: Q12p4,
    pub edge_ca_dy: Q12p4,
    /// Sample 0 of the current quad.
    pub x: Q12p4,
    pub y: Q12p4,
    /// One pixel along the current direction: plus or minus one.
    pub x_inc: Q12p4,
    /// Whether quads remain.
    pub drawing: bool,
}

impl Gpu {
    /// Width of the bounding box, in sixteenths.
    pub open spec fn width(&self) -> int {
        self.stop_x@ - self.start_x@
    }

    /// Height of the bounding box, in sixteenths.
    pub open spec fn height(&self) -> int {
        self.stop_y@ - self.start_y@
    }

    /// Sample 0 of the current quad, from the left of the bounding box.
    pub open spec fn col(&self) -> int {
        self.x@ - self.start_x@
    }

    /// Sample 0 of the current quad, from the top of the bounding box.
    pub open spec fn row(&self) -> int {
        self.y@ - self.start_y@
    }

    /// `d` while the walk goes right, `-d` while it goes left.
    pub open spec fn along(&self, d: int) -> int {
        if self.x_inc@ > 0 {
            d
        } else {
            -d
        }
    }

    /// The value that the edge function of an edge has at sample 0 of the
    /// current quad: its value at the first sample, `first`, and what the
    /// pixels walked since add to it.
    pub open spec fn walked(&self, first: int, dx: int, dy: int) -> int {
        first + dx * (2 * ((self.col() - 8) / 32)) + dy * (2 * ((self.row() - 8) / 32))
    }

    /// The corners lie in the window (within 1024 pixels of zero, and no
    /// sum of an edge's increments that the walk takes overflows), the
    /// bounding box is theirs, and the area is the edge function of A, B at
    /// C.
    pub open spec fn corners_ok(&self) -> bool {
        &&& -COORD_LIMIT <= self.a_x@ <= COORD_LIMIT
        &&& -COORD_LIMIT <= self.a_y@ <= COORD_LIMIT
        &&& -COORD_LIMIT <= self.b_x@ <= COORD_LIMIT
        &&& -COORD_LIMIT <= self.b_y@ <= COORD_LIMIT
        &&& -COORD_LIMIT <= self.c_x@ <= COORD_LIMIT
        &&& -COORD_LIMIT <= self.c_y@ <= COORD_LIMIT
        &&& self.start_x@ == min3(self.a_x@, self.b_x@, self.c_x@)
        &&& self.start_y@ == min3(self.a_y@, self.b_y@, self.c_y@)
        &&& self.stop_x@ == max3(self.a_x@, self.b_x@, self.c_x@)
        &&& self.stop_y@ == max3(self.a_y@, self.b_y@, self.c_y@)
        &&& edge_fits(self.b_y@ - self.a_y@, self.a_x@ - self.b_x@, self.width(), self.height())
        &&& edge_fits(self.c_y@ - self.b_y@, self.b_x@ - self.c_x@, self.width(), self.height())
        &&& edge_fits(self.a_y@ - self.c_y@, self.c_x@ - self.a_x@, self.width(), self.height())
        &&& self.total_area@ == edge_value(
            self.a_x@,
            self.a_y@,
            self.b_x@,
            self.b_y@,
            self.c_x@,
            self.c_y@,
        )
    }

    /// The position is a quad of the walk: whole quads away from the first
    /// sample, no further than one quad outside the bounding box, below the
    /// first row where the walk heads left, and inside the box from the top
    /// while the walk lasts (but for the first quad, which is always
    /// walked).
    pub open spec fn position_ok(&self) -> bool {
        let w = self.width();
        let h = self.height();
        let right = if w >= 8 {
            w
        } else {
            8
        };
        let low = if h >= 8 {
            h
        } else {
            8
        };
        &&& self.x_inc@ == 16 || self.x_inc@ == -16
        &&& (self.col() - 8) % 32 == 0
        &&& (self.row() - 8) % 32 == 0
        &&& self.x_inc@ > 0 ==> -24 <= self.col() <= right
        &&& self.x_inc@ < 0 ==> 8 <= self.col() <= right + 32 && self.row() >= 40
        &&& 8 <= self.row() <= low + 32
        &&& self.drawing ==> self.row() <= h || (self.col() == 8 && self.row() == 8
            && self.x_inc@ > 0)
    }

    /// The increments are those of the three edges, the ones along x taken
    /// in the direction of the walk.
    pub open spec fn increments_ok(&self) -> bool {
        &&& self.edge_ab_dx@ == self.along(self.b_y@ - self.a_y@)
        &&& self.edge_bc_dx@ == self.along(self.c_y@ - self.b_y@)
        &&& self.edge_ca_dx@ == self.along(self.a_y@ - self.c_y@)
        &&& self.edge_ab_dy@ == self.a_x@ - self.b_x@
        &&& self.edge_bc_dy@ == self.b_x@ - self.c_x@
        &&& self.edge_ca_dy@ == self.c_x@ - self.a_x@
    }

    /// The three accumulators hold the edge functions at sample 0 of the
    /// current quad.
    pub open spec fn edges_ok(&self) -> bool {
        &&& self.edge_ab@ == self.walked(
            edge_value(
                self.a_x@,
                self.a_y@,
                self.b_x@,
                self.b_y@,
                self.start_x@ + 8,
                self.start_y@ + 8,
            ),
            self.b_y@ - self.a_y@,
            self.a_x@ - self.b_x@,
        )
        &&& self.edge_bc@ == self.walked(
            edge_value(
                self.b_x@,
                self.b_y@,
                self.c_x@,
                self.c_y@,
                self.start_x@ + 8,
                self.start_y@ + 8,
            ),
            self.c_y@ - self.b_y@,
            self.b_x@ - self.c_x@,
        )
        &&& self.edge_ca@ == self.walked(
            edge_value(
                self.c_x@,
                self.c_y@,
                self.a_x@,
                self.a_y@,
                self.start_x@ + 8,
                self.start_y@ + 8,
            ),
            self.a_y@ - self.c_y@,
            self.c_x@ - self.a_x@,
        )
    }

    /// The state is one that the walk over a triangle inside the window can
    /// be in.
    #[verifier::opaque]
    pub open spec fn wf(&self) -> bool {
        &&& self.corners_ok()
        &&& self.position_ok()
        &&& self.increments_ok()
        &&& self.edges_ok()
    }

    /// The state in which the walk over the triangle A, B, C begins: at the
    /// centre of the top left pixel of the bounding box, heading right.
    pub open spec fn initial(a: Vertex, b: Vertex, c: Vertex) -> Gpu {
        let start_x = min3(a.x@, b.x@, c.x@);
        let start_y = min3(a.y@, b.y@, c.y@);
        Gpu {
            a_x: a.x,
            a_y: a.y,
            a_inv_z: q8(quotient_by_sixteenths(256, a.z@)),
            b_x: b.x,
            b_y: b.y,
            b_inv_z: q8(quotient_by_sixteenths(256, b.z@)),
            c_x: c.x,
            c_y: c.y,
            c_inv_z: q8(quotient_by_sixteenths(256, c.z@)),
            total_area: q24(edge_value(a.x@, a.y@, b.x@, b.y@, c.x@, c.y@)),
            start_x: q12(start_x),
            start_y: q12(start_y),
            stop_x: q12(max3(a.x@, b.x@, c.x@)),
            stop_y: q12(max3(a.y@, b.y@, c.y@)),
            edge_ab: q24(edge_value(a.x@, a.y@, b.x@, b.y@, start_x + 8, start_y + 8)),
            edge_bc: q24(edge_value(b.x@, b.y@, c.x@, c.y@, start_x + 8, start_y + 8)),
            edge_ca: q24(edge_value(c.x@, c.y@, a.x@, a.y@, start_x + 8, start_y + 8)),
            edge_ab_dx: q12(b.y@ - a.y@),
            edge_ab_dy: q12(a.x@ - b.x@),
            edge_bc_dx: q12(c.y@ - b.y@),
            edge_bc_dy: q12(b.x@ - c.x@),
            edge_ca_dx: q12(a.y@ - c.y@),
            edge_ca_dy: q12(c.x@ - a.x@),
            x: q12(start_x + 8),
            y: q12(start_y + 8),
            x_inc: q12(16),
            drawing: true,
        }
    }

    /// What `setup` returns for the corners A, B, C.
    pub open spec fn setup_result(a: Vertex, b: Vertex, c: Vertex) -> Result<Gpu, RasterError> {
        if a.z@ == 0 || b.z@ == 0 || c.z@ == 0 {
            Err(RasterError::ZeroDepth)
        } else if !in_window(a, b, c) {
            Err(RasterError::Overflow)
        } else {
            Ok(Gpu::initial(a, b, c))
        }
    }
}

/// Before the first step an increment has been added no time.
pub proof fn lemma_no_walk(d: int)
    ensures
        d * (2 * 0int) == 0,
{
    assert(d * (2 * 0int) == 0) by (nonlinear_arith);
}

/// The smallest of three 12.4 numbers.
pub fn least(a: Q12p4, b: Q12p4, c: Q12p4) -> (r: Q12p4)
    ensures
        r@ == min3(a@, b@, c@),
{
    if a.0 <= b.0 && a.0 <= c.0 {
        a
    } else if b.0 <= c.0 {
        b
    } else {
        c
    }
}

/// The largest of three 12.4 numbers.
pub fn greatest(a: Q12p4, b: Q12p4, c: Q12p4) -> (r: Q12p4)
    ensures
        r@ == max3(a@, b@, c@),
{
    if a.0 >= b.0 && a.0 >= c.0 {
        a
    } else if b.0 >= c.0 {
        b
    } else {
        c
    }
}

/// Whether `v` sixteenths can be held by the 12.4 format.
fn fits_q12p4(v: i32) -> (r: bool)
    ensures
        r == Q12p4::fits(v as int),
{
    -0x8000 <= v && v <= 0x7fff
}

/// Whether the sums that a turn takes of the increments `dx`, `dy` fit.
fn turn_fits(dx: i32, dy: i32) -> (r: bool)
    requires
        -0x1_0000 <= dx <= 0x1_0000,
        -0x1_0000 <= dy <= 0x1_0000,
    ensures
        r == can_turn(dx as int, dy as int),
{
    fits_q12p4(2 * dx) && fits_q12p4(2 * dy) && fits_q12p4(2 * dx + 2 * dy)
}

/// Whether the sums that the walk over a box of `w` by `h` takes of the
/// increments of one edge fit.
fn edge_holds(dx: i32, dy: i32, w: i32, h: i32) -> (r: bool)
    requires
        -0x1_0000 <= dx <= 0x1_0000,
        -0x1_0000 <= dy <= 0x1_0000,
    ensures
        r == edge_fits(dx as int, dy as int, w as int, h as int),
{
    fits_q12p4(dy) && fits_q12p4(-dy) && fits_q12p4(2 * dx) && ((h < 8 && w >= 40) || turn_fits(
        dx,
        dy,
    )) && (h < 40 || turn_fits(-dx, dy))
}

/// Whether three corners lie in the window in which nothing overflows.
pub fn window_holds(a: &Vertex, b: &Vertex, c: &Vertex) -> (r: bool)
    ensures
        r == in_window(*a, *b, *c),
{
    let lo: i16 = -COORD_LIMIT;
    let hi: i16 = COORD_LIMIT;
    let inside = lo <= a.x.0 && a.x.0 <= hi && lo <= a.y.0 && a.y.0 <= hi && lo <= b.x.0 && b.x.0
        <= hi && lo <= b.y.0 && b.y.0 <= hi && lo <= c.x.0 && c.x.0 <= hi && lo <= c.y.0 && c.y.0
        <= hi;
    if !inside {
        return false;
    }
    let ax: i32 = a.x.0 as i32;
    let ay: i32 = a.y.0 as i32;
    let bx: i32 = b.x.0 as i32;
    let by: i32 = b.y.0 as i32;
    let cx: i32 = c.x.0 as i32;
    let cy: i32 = c.y.0 as i32;
    let w: i32 = greatest(a.x, b.x, c.x).0 as i32 - least(a.x, b.x, c.x).0 as i32;
    let h: i32 = greatest(a.y, b.y, c.y).0 as i32 - least(a.y, b.y, c.y).0 as i32;
    edge_holds(by - ay, ax - bx, w, h) && edge_holds(cy - by, bx - cx, w, h) && edge_holds(
        ay - cy,
        cx - ax,
        w,
        h,
    )
}

impl Gpu {
    /// Sets the rasteriser up for the triangle A, B, C.
    ///
    /// A corner of depth zero is refused as `ZeroDepth`; corners outside the
    /// window are refused as `Overflow`. A triangle of area zero is set up
    /// like any other: `area_check` tells it apart.
    pub fn setup(a: Vertex, b: Vertex, c: Vertex) -> (r: Result<Gpu, RasterError>)
        ensures
            r == Gpu::setup_result(a, b, c),
            r matches Ok(g) ==> g.wf() && g.drawing && g.total_area@ == edge_value(
                a.x@,
                a.y@,
                b.x@,
                b.y@,
                c.x@,
                c.y@,
            ),
    {
        if a.z.is_zero() || b.z.is_zero() || c.z.is_zero() {
            return Err(RasterError::ZeroDepth);
        }
        if !window_holds(&a, &b, &c) {
            return Err(RasterError::Overflow);
        }
        let start_x = least(a.x, b.x, c.x);
        let start_y = least(a.y, b.y, c.y);
        let stop_x = greatest(a.x, b.x, c.x);
        let stop_y = greatest(a.y, b.y, c.y);
        let x = start_x + Q12p4::half();
        let y = start_y + Q12p4::half();
        let g = Gpu {
            a_x: a.x,
            a_y: a.y,
            a_inv_z: Q16p16::one() / a.z,
            b_x: b.x,
            b_y: b.y,
            b_inv_z: Q16p16::one() / b.z,
            c_x: c.x,
            c_y: c.y,
            c_inv_z: Q16p16::one() / c.z,
            total_area: Q24p4::edge_function(a.x, a.y, b.x, b.y, c.x, c.y),
            start_x,
            start_y,
            stop_x,
            stop_y,
            edge_ab: Q24p4::edge_function(a.x, a.y, b.x, b.y, x, y),
            edge_bc: Q24p4::edge_function(b.x, b.y, c.x, c.y, x, y),
            edge_ca: Q24p4::edge_function(c.x, c.y, a.x, a.y, x, y),
            edge_ab_dx: b.y - a.y,
            edge_ab_dy: a.x - b.x,
            edge_bc_dx: c.y - b.y,
            edge_bc_dy: b.x - c.x,
            edge_ca_dx: a.y - c.y,
            edge_ca_dy: c.x - a.x,
            x,
            y,
            x_inc: Q12p4::one(),
            drawing: true,
        };
        proof {
            lemma_product_bound(c.x@ - a.x@, b.y@ - a.y@);
            lemma_product_bound(c.y@ - a.y@, b.x@ - a.x@);
            lemma_product_bound(x@ - a.x@, b.y@ - a.y@);
            lemma_product_bound(y@ - a.y@, b.x@ - a.x@);
            lemma_product_bound(x@ - b.x@, c.y@ - b.y@);
            lemma_product_bound(y@ - b.y@, c.x@ - b.x@);
            lemma_product_bound(x@ - c.x@, a.y@ - c.y@);
            lemma_product_bound(y@ - c.y@, a.x@ - c.x@);
            assert(g == Gpu::initial(a, b, c));
            assert(g.col() == 8 && g.row() == 8);
            assert((g.col() - 8) / 32 == 0 && (g.row() - 8) / 32 == 0);
            lemma_no_walk(b.y@ - a.y@);
            lemma_no_walk(a.x@ - b.x@);
            lemma_no_walk(c.y@ - b.y@);
            lemma_no_walk(b.x@ - c.x@);
            lemma_no_walk(a.y@ - c.y@);
            lemma_no_walk(c.x@ - a.x@);
            assert(g.corners_ok());
            assert(g.position_ok());
            assert(g.increments_ok());
            assert(g.edges_ok());
            reveal(Gpu::wf);
        }
        Ok(g)
    }

    /// Whether quads remain.
    pub fn still_drawing(&self) -> (r: bool)
        ensures
            r == self.drawing,
    {
        self.drawing
    }

    /// Tells a triangle of area zero apart: it is walked like any other and
    /// covers no pixel.
    pub fn area_check(&self) -> (r: Result<(), RasterError>)
        ensures
            r == if self.total_area@ == 0 {
                Err::<(), RasterError>(RasterError::DegenerateTriangle)
            } else {
                Ok::<(), RasterError>(())
            },
    {
        if self.total_area.is_zero() {
            Err(RasterError::DegenerateTriangle)
        } else {
            Ok(())
        }
    }

    /// Ends the walk at once; the steps that follow emit nothing.
    pub fn halt(&mut self)
        ensures
            *final(self) == (Gpu { drawing: false, ..*old(self) }),
            old(self).wf() ==> final(self).wf(),
    {
        proof {
            reveal(Gpu::wf);
        }
        self.drawing = false;
    }
}

} // verus!
