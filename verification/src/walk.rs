//! The whole walk over a triangle: how many quads it emits, and the run
//! that collects them.

use crate::raster::box_height;
use crate::raster::box_width;
use crate::raster::in_window;
use crate::raster::Fragment;
use crate::raster::Gpu;
use crate::raster::RasterError;
use crate::raster::Vertex;
use vstd::prelude::*;

verus! {

/// The number of quads in each row of the walk from the third row on, for a
/// bounding box `w` sixteenths wide: such a row starts one quad outside the
/// box and ends with the last quad that starts inside it.
pub open spec fn row_quads(w: int) -> int {
    (w + 24) / 32 + 1
}

/// The number of quads in the first row of the walk, which starts inside the
/// box.
pub open spec fn first_row_quads(w: int) -> int {
    if w >= 8 {
        (w - 8) / 32 + 1
    } else {
        1
    }
}

/// The number of rows of the walk over a bounding box `h` sixteenths high:
/// the rows whose first sample lies inside the box, and one at least.
pub open spec fn rows(h: int) -> int {
    if h >= 8 {
        (h - 8) / 32 + 1
    } else {
        1
    }
}

/// The number of quads that the walk over a bounding box of `w` by `h`
/// sixteenths emits. A box lower than half a pixel ends the walk after its
/// first quad. Otherwise the first row starts inside the box, the second is
/// one quad longer, since it starts one quad outside, and the rows after it
/// start and end one quad outside.
pub open spec fn quad_count(w: int, h: int) -> int {
    if h < 8 {
        1
    } else if rows(h) == 1 {
        first_row_quads(w)
    } else {
        first_row_quads(w) + (first_row_quads(w) + 1) + (rows(h) - 2) * row_quads(w)
    }
}

/// One row more is `row_quads` quads more.
pub proof fn lemma_rows_add(n: int, q: int)
    ensures
        (n - 1) * q + q == n * q,
{
    assert((n - 1) * q + q == n * q) by (nonlinear_arith);
}

impl Gpu {
    /// The number of quads that the walk still emits from this state.
    pub open spec fn quads_left(&self) -> int {
        let w = self.width();
        let h = self.height();
        let col = self.col();
        let row = self.row();
        if !self.drawing {
            0
        } else if row > h {
            1
        } else {
            let later = (h - row) / 32;
            if self.x_inc@ > 0 {
                let more = if w >= col {
                    (w - col) / 32
                } else {
                    0
                };
                let last = col + 32 * more;
                (more + 1) + (if later >= 1 {
                    ((last - 8) / 32 + 2) + (later - 1) * row_quads(w)
                } else {
                    0
                })
            } else {
                ((col - 8) / 32 + 1) + later * row_quads(w)
            }
        }
    }

    /// While the walk lasts at least one quad is left, and none after it.
    pub proof fn lemma_quads_left_sign(&self)
        requires
            self.wf(),
        ensures
            self.drawing ==> self.quads_left() >= 1,
            !self.drawing ==> self.quads_left() == 0,
    {
        reveal(Gpu::wf);
        if self.drawing && self.row() <= self.height() {
            let later = (self.height() - self.row()) / 32;
            let q = row_quads(self.width());
            assert(later >= 0);
            assert(q >= 1);
            assert(later * q >= 0) by (nonlinear_arith)
                requires
                    later >= 0,
                    q >= 1,
            ;
            if later >= 1 {
                assert((later - 1) * q >= 0) by (nonlinear_arith)
                    requires
                        later >= 1,
                        q >= 1,
                ;
            }
        }
    }

    /// Each step emits one of the quads that were left.
    pub proof fn lemma_quads_left_step(&self)
        requires
            self.wf(),
            self.drawing,
        ensures
            self.advanced().quads_left() == self.quads_left() - 1,
    {
        reveal(Gpu::wf);
        self.lemma_advanced_position();
        let next = self.advanced();
        let w = self.width();
        let h = self.height();
        let col = self.col();
        let row = self.row();
        let q = row_quads(w);
        assert(next.width() == w && next.height() == h);
        if row > h {
            assert(!next.drawing);
        } else {
            let later = (h - row) / 32;
            if self.turns() {
                assert(next.row() == row + 32);
                assert(next.drawing == (later >= 1));
                if later >= 1 {
                    assert((h - next.row()) / 32 == later - 1);
                    lemma_rows_add(later, q);
                    if self.x_inc@ > 0 {
                        assert(next.x_inc@ < 0);
                        assert(next.col() == col + 32);
                        let more = if w >= col {
                            (w - col) / 32
                        } else {
                            0
                        };
                        assert(more == 0);
                        assert(self.quads_left() == 1 + (((col - 8) / 32 + 2) + (later - 1) * q));
                        assert((next.col() - 8) / 32 + 1 == (col - 8) / 32 + 2);
                        assert(next.quads_left() == ((next.col() - 8) / 32 + 1) + (later - 1) * q);
                        assert(next.quads_left() == self.quads_left() - 1);
                    } else {
                        assert(next.x_inc@ > 0);
                        assert(col == 8);
                        assert(next.col() == -24);
                        assert(self.quads_left() == 1 + later * q);
                        let more = (w + 24) / 32;
                        assert((w - next.col()) / 32 == more);
                        let last = -24 + 32 * more;
                        assert((last - 8) / 32 + 2 == q);
                        assert(more + 1 == q);
                        if later - 1 >= 1 {
                            lemma_rows_add(later - 1, q);
                            assert(next.quads_left() == q + (q + (later - 2) * q));
                        } else {
                            assert(next.quads_left() == q);
                            assert(later == 1);
                            assert(later * q == q) by (nonlinear_arith)
                                requires
                                    later == 1,
                            ;
                        }
                        assert(next.quads_left() == self.quads_left() - 1);
                    }
                } else {
                    assert(!next.drawing);
                    if self.x_inc@ > 0 {
                        let more = if w >= col {
                            (w - col) / 32
                        } else {
                            0
                        };
                        assert(more == 0);
                    } else {
                        assert(col == 8);
                        assert(later * q == 0) by (nonlinear_arith)
                            requires
                                later == 0,
                        ;
                    }
                    assert(self.quads_left() == 1);
                }
            } else {
                assert(next.row() == row);
                assert(next.drawing);
                if self.x_inc@ > 0 {
                    assert(next.col() == col + 32);
                    assert(w >= col + 32);
                    assert((w - (col + 32)) / 32 == (w - col) / 32 - 1);
                    assert(next.quads_left() == self.quads_left() - 1);
                } else {
                    assert(next.col() == col - 32);
                    assert(next.quads_left() == self.quads_left() - 1);
                }
            }
        }
    }

    /// From the first state of a walk, as many quads are left as the walk
    /// over its bounding box emits.
    pub proof fn lemma_quads_left_initial(a: Vertex, b: Vertex, c: Vertex)
        requires
            in_window(a, b, c),
        ensures
            Gpu::initial(a, b, c).quads_left() == quad_count(
                box_width(a, b, c),
                box_height(a, b, c),
            ),
    {
        let g = Gpu::initial(a, b, c);
        let w = box_width(a, b, c);
        let h = box_height(a, b, c);
        assert(g.width() == w && g.height() == h);
        assert(g.col() == 8 && g.row() == 8);
        if h >= 8 {
            let more = if w >= 8 {
                (w - 8) / 32
            } else {
                0
            };
            let last = 8 + 32 * more;
            assert((last - 8) / 32 == more);
        }
    }

    /// The state after `n` steps and one more.
    pub proof fn lemma_after_step(&self, n: nat)
        ensures
            self.after(n + 1) == self.after(n).advanced(),
    {
    }
}

/// Whether `frag` is what step `i` of the walk that starts in the state
/// `first` emits, and the walk lasts until then.
pub open spec fn emitted_at(first: Gpu, i: int, frag: Fragment) -> bool {
    &&& first.after(i as nat).drawing
    &&& frag@ == first.after(i as nat).emitted()
}

/// Whether `frags` are the fragments of the first steps of the walk that
/// starts in the state `first`, each emitted while the walk lasts.
pub open spec fn emitted_by(first: Gpu, frags: Seq<Fragment>) -> bool {
    forall|i: int| 0 <= i < frags.len() ==> #[trigger] emitted_at(first, i, frags[i])
}

/// One step more emits one fragment more.
pub proof fn lemma_emitted_by_push(first: Gpu, frags: Seq<Fragment>, frag: Fragment)
    requires
        emitted_by(first, frags),
        emitted_at(first, frags.len() as int, frag),
    ensures
        emitted_by(first, frags.push(frag)),
{
    let longer = frags.push(frag);
    assert forall|i: int| 0 <= i < longer.len() implies #[trigger] emitted_at(
        first,
        i,
        longer[i],
    ) by {
        if i < frags.len() {
            assert(longer[i] == frags[i]);
            assert(emitted_at(first, i, frags[i]));
        } else {
            assert(longer[i] == frag);
        }
    }
}

/// Whether `r` is the outcome of the walk over the triangle A, B, C: the
/// refusal of the corners, or the fragments of all its steps, as many as
/// the walk over the bounding box emits.
pub open spec fn is_walk_of(a: Vertex, b: Vertex, c: Vertex, r: Result<Vec<Fragment>, RasterError>)
    -> bool {
    match Gpu::setup_result(a, b, c) {
        Err(e) => r == Err::<Vec<Fragment>, RasterError>(e),
        Ok(first) => {
            &&& r matches Ok(frags)
            &&& frags.len() == quad_count(box_width(a, b, c), box_height(a, b, c))
            &&& emitted_by(first, frags@)
            &&& !first.after(frags.len() as nat).drawing
        },
    }
}

/// The fragments that the walk over the triangle A, B, C emits, first to
/// last; or why the triangle is refused.
pub fn rasterise(a: Vertex, b: Vertex, c: Vertex) -> (r: Result<Vec<Fragment>, RasterError>)
    ensures
        is_walk_of(a, b, c, r),
{
    let mut gpu = match Gpu::setup(a, b, c) {
        Ok(g) => g,
        Err(e) => {
            return Err(e);
        },
    };
    let ghost first = gpu;
    let ghost total = quad_count(box_width(a, b, c), box_height(a, b, c));
    proof {
        Gpu::lemma_quads_left_initial(a, b, c);
    }
    let mut frags: Vec<Fragment> = Vec::new();
    while gpu.still_drawing()
        invariant
            gpu.wf(),
            gpu == first.after(frags.len() as nat),
            frags.len() + gpu.quads_left() == total,
            emitted_by(first, frags@),
        decreases gpu.quads_left(),
    {
        proof {
            gpu.lemma_quads_left_step();
            gpu.lemma_quads_left_sign();
            first.lemma_after_step(frags.len() as nat);
        }
        let ghost before = frags@;
        let frag = gpu.step_rasteriser();
        frags.push(frag);
        proof {
            lemma_emitted_by_push(first, before, frag);
        }
    }
    proof {
        gpu.lemma_quads_left_sign();
    }
    Ok(frags)
}

} // verus!
