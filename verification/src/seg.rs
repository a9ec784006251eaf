//! Segments (`Seg`s) and the segment factory.
//!
//! A `Seg` is an oriented fragment of one side of one linedef.  The factory
//! emits, for every linedef, a front seg (start to end) when the linedef has
//! a right side and a back seg (end to start, reversed to keep right-hand
//! winding) when it has a left side, and links the two segs of a two-sided
//! linedef as partners.  Segs live in an arena (a plain vector) and partners
//! are stored as indices into it, so the two-way link needs no shared
//! ownership.
//!
//! Instead of a floating-point angle and length, a seg carries its exact
//! direction `(dx, dy)` and squared length; both are always recomputed from
//! the seg's own endpoints, also for the fragments the splitter makes.

use vstd::prelude::*;

verus! {

use crate::errors::GeometryError;
use crate::geometry::{Line2D, Point2D};
use crate::map_data::{LineDef, Vertex};
use crate::rat::{Rat, add_q, mul_q, sub_q, lemma_add_props, lemma_mul_props, lemma_sub_props,
    rat_add, rat_mul, rat_sub};

/// Which side of its linedef a seg came from.
#[derive(Clone, Copy, Debug, PartialEq, Eq, Structural)]
pub enum SegmentSide {
    Front,
    Back,
}

/// An oriented fragment of one side of one linedef.
#[derive(Clone, Copy, Debug, PartialEq)]
pub struct Seg {
    /// First endpoint.
    pub start: Point2D,
    /// Second endpoint.
    pub end: Point2D,
    /// Exact direction `end - start`, the carrier of the seg's angle.
    pub dx: Rat,
    /// Exact direction `end - start`, the carrier of the seg's angle.
    pub dy: Rat,
    /// Exact squared length `dx * dx + dy * dy`.
    pub length_sq: Rat,
    /// Index of the originating linedef; fragments inherit it.
    pub linedef: usize,
    /// The linedef side this seg covers; fragments inherit it.
    pub side: SegmentSide,
    /// Index of the seg on the opposite side of the same linedef, for the
    /// two segs of a two-sided linedef in the initial pool.
    pub partner: Option<usize>,
}

impl Seg {
    /// All coordinates and derived fields are valid rationals.
    pub open spec fn wf(self) -> bool {
        &&& self.start.wf()
        &&& self.end.wf()
        &&& self.dx.wf()
        &&& self.dy.wf()
        &&& self.length_sq.wf()
    }

    /// The derived fields agree with the seg's own endpoints.
    #[verifier::opaque]
    pub open spec fn derived_ok(self) -> bool {
        &&& sub_q(self.end.x, self.start.x) == Some(self.dx)
        &&& sub_q(self.end.y, self.start.y) == Some(self.dy)
        &&& (mul_q(self.dx, self.dx) matches Some(xx) && mul_q(self.dy, self.dy) matches Some(yy)
            && add_q(xx, yy) == Some(self.length_sq))
    }
}

impl Line2D {
    /// The infinite line through a seg's endpoints.
    pub fn from_seg(seg: &Seg) -> (l: Line2D)
        ensures
            l == (Line2D { start: seg.start, end: seg.end }),
    {
        Line2D { start: seg.start, end: seg.end }
    }
}

/// A seg from its endpoints, with the derived direction and squared length
/// computed from those endpoints.
#[verifier::opaque]
pub open spec fn make_seg_q(
    start: Point2D,
    end: Point2D,
    linedef: usize,
    side: SegmentSide,
    partner: Option<usize>,
) -> Result<Seg, GeometryError> {
    match sub_q(end.x, start.x) {
        None => Err(GeometryError::Overflow),
        Some(dx) => match sub_q(end.y, start.y) {
            None => Err(GeometryError::Overflow),
            Some(dy) => match mul_q(dx, dx) {
                None => Err(GeometryError::Overflow),
                Some(xx) => match mul_q(dy, dy) {
                    None => Err(GeometryError::Overflow),
                    Some(yy) => match add_q(xx, yy) {
                        None => Err(GeometryError::Overflow),
                        Some(length_sq) => Ok(
                            Seg { start, end, dx, dy, length_sq, linedef, side, partner },
                        ),
                    },
                },
            },
        },
    }
}

/// Build a seg from its endpoints, recomputing direction and squared
/// length from exactly those endpoints.
pub fn make_seg(
    start: &Point2D,
    end: &Point2D,
    linedef: usize,
    side: SegmentSide,
    partner: Option<usize>,
) -> (r: Result<Seg, GeometryError>)
    requires
        start.wf(),
        end.wf(),
    ensures
        r == make_seg_q(*start, *end, linedef, side, partner),
        r matches Ok(s) ==> s.wf() && s.derived_ok() && s.start == *start && s.end == *end
            && s.linedef == linedef && s.side == side && s.partner == partner,
{
    proof {
        reveal(make_seg_q);
        reveal(Seg::derived_ok);
    }
    let dx = match rat_sub(&end.x, &start.x) {
        None => {
            return Err(GeometryError::Overflow);
        },
        Some(v) => v,
    };
    let dy = match rat_sub(&end.y, &start.y) {
        None => {
            return Err(GeometryError::Overflow);
        },
        Some(v) => v,
    };
    proof {
        lemma_sub_props(end.x, start.x);
        lemma_sub_props(end.y, start.y);
    }
    let xx = match rat_mul(&dx, &dx) {
        None => {
            return Err(GeometryError::Overflow);
        },
        Some(v) => v,
    };
    let yy = match rat_mul(&dy, &dy) {
        None => {
            return Err(GeometryError::Overflow);
        },
        Some(v) => v,
    };
    proof {
        lemma_mul_props(dx, dx);
        lemma_mul_props(dy, dy);
    }
    let length_sq = match rat_add(&xx, &yy) {
        None => {
            return Err(GeometryError::Overflow);
        },
        Some(v) => v,
    };
    proof {
        lemma_add_props(xx, yy);
    }
    Ok(Seg { start: *start, end: *end, dx, dy, length_sq, linedef, side, partner })
}

/// The point of an integer map vertex.
pub open spec fn vertex_point(v: Vertex) -> Point2D {
    Point2D {
        x: Rat { num: v.x as i64, den: 1int as i64 },
        y: Rat { num: v.y as i64, den: 1int as i64 },
    }
}

/// The 0, 1 or 2 segs a single linedef contributes: front seg first, then
/// back seg; mutual partner indices when both exist.  `idx` is the
/// linedef's index, `base` the position in the pool where these segs land.
pub open spec fn linedef_segs_q(verts: Seq<Vertex>, ld: LineDef, idx: usize, base: nat) -> Result<
    Seq<Seg>,
    GeometryError,
> {
    if ld.start >= verts.len() || ld.end >= verts.len() {
        Err(GeometryError::InvalidGeometry)
    } else {
        let sp = vertex_point(verts[ld.start as int]);
        let ep = vertex_point(verts[ld.end as int]);
        let both = ld.right >= 0 && ld.left >= 0;
        if ld.right >= 0 {
            let fp = if both {
                Some((base + 1) as usize)
            } else {
                None
            };
            match make_seg_q(sp, ep, idx, SegmentSide::Front, fp) {
                Err(e) => Err(e),
                Ok(front) => if ld.left >= 0 {
                    match make_seg_q(ep, sp, idx, SegmentSide::Back, Some(base as usize)) {
                        Err(e) => Err(e),
                        Ok(back) => Ok(seq![front, back]),
                    }
                } else {
                    Ok(seq![front])
                },
            }
        } else if ld.left >= 0 {
            match make_seg_q(ep, sp, idx, SegmentSide::Back, None) {
                Err(e) => Err(e),
                Ok(back) => Ok(seq![back]),
            }
        } else {
            Ok(Seq::empty())
        }
    }
}

/// The initial seg pool for the first `j` linedefs, in linedef order.
pub open spec fn initial_segs_q(verts: Seq<Vertex>, lds: Seq<LineDef>, j: int) -> Result<
    Seq<Seg>,
    GeometryError,
>
    decreases j,
{
    if j <= 0 {
        Ok(Seq::empty())
    } else {
        match initial_segs_q(verts, lds, j - 1) {
            Err(e) => Err(e),
            Ok(acc) => match linedef_segs_q(verts, lds[j - 1], (j - 1) as usize, acc.len()) {
                Err(e) => Err(e),
                Ok(more) => Ok(acc + more),
            },
        }
    }
}

/// Once some prefix fails, every longer prefix fails the same way.
pub proof fn lemma_initial_segs_err_persists(verts: Seq<Vertex>, lds: Seq<LineDef>, j: int, k: int)
    requires
        0 <= j <= k,
        initial_segs_q(verts, lds, j) is Err,
    ensures
        initial_segs_q(verts, lds, k) == initial_segs_q(verts, lds, j),
    decreases k - j,
{
    if k > j {
        lemma_initial_segs_err_persists(verts, lds, j, k - 1);
    }
}

/// Every seg of the pool is well formed, has faithfully derived fields,
/// and references a linedef that exists.
pub open spec fn all_segs_wf(s: Seq<Seg>, n_linedefs: int) -> bool {
    forall|i: int|
        0 <= i < s.len() ==> (#[trigger] s[i]).wf() && s[i].derived_ok() && s[i].linedef
            < n_linedefs
}

/// Partner links are symmetric: a seg's partner names it back, shares its
/// linedef, and covers the opposite side.
pub open spec fn partners_linked(s: Seq<Seg>) -> bool {
    forall|i: int|
        0 <= i < s.len() ==> ((#[trigger] s[i]).partner matches Some(p) ==> p < s.len()
            && s[p as int].partner == Some(i as usize) && s[p as int].linedef == s[i].linedef
            && s[p as int].side != s[i].side)
}

/// How many segs the first `j` linedefs contribute: one per existing side.
pub open spec fn side_count(lds: Seq<LineDef>, j: int) -> int
    decreases j,
{
    if j <= 0 {
        0
    } else {
        side_count(lds, j - 1) + (if lds[j - 1].right >= 0 {
            1int
        } else {
            0int
        }) + (if lds[j - 1].left >= 0 {
            1int
        } else {
            0int
        })
    }
}


/// Appending a linedef's segs to a pool preserves well-formedness and
/// partner symmetry: a lone seg carries no partner, and the two segs of a
/// two-sided linedef land at `base` and `base + 1` naming each other.
#[verifier::rlimit(100)]
#[verifier::spinoff_prover]
pub proof fn lemma_pool_extend(acc: Seq<Seg>, more: Seq<Seg>, n_linedefs: int)
    requires
        all_segs_wf(acc, n_linedefs),
        partners_linked(acc),
        more.len() == 2 ==> acc.len() + 2 <= usize::MAX,
        forall|i: int|
            0 <= i < more.len() ==> (#[trigger] more[i]).wf() && more[i].derived_ok()
                && more[i].linedef < n_linedefs,
        more.len() == 0 || (more.len() == 1 && more[0].partner is None) || (more.len() == 2
            && more[0].partner == Some((acc.len() + 1) as usize) && more[1].partner == Some(
            acc.len() as usize,
        ) && more[1].linedef == more[0].linedef && more[1].side != more[0].side),
    ensures
        all_segs_wf(acc + more, n_linedefs),
        partners_linked(acc + more),
{
    let s = acc + more;
    assert forall|k: int| 0 <= k < s.len() implies (#[trigger] s[k]).wf() && s[k].derived_ok()
        && s[k].linedef < n_linedefs by {
        if k < acc.len() {
            assert(s[k] == acc[k]);
        } else {
            assert(s[k] == more[k - acc.len()]);
        }
    }
    assert forall|k: int| 0 <= k < s.len() implies ((#[trigger] s[k]).partner matches Some(p)
        ==> p < s.len() && s[p as int].partner == Some(k as usize) && s[p as int].linedef
        == s[k].linedef && s[p as int].side != s[k].side) by {
        if k < acc.len() {
            assert(s[k] == acc[k]);
            if acc[k].partner is Some {
                let p = acc[k].partner->Some_0;
                assert(s[p as int] == acc[p as int]);
            }
        } else {
            assert(s[k] == more[k - acc.len()]);
        }
    }
}

/// Emit the segs of one linedef onto the pool: front seg first, then back
/// seg, linked as partners when both sides exist.
fn push_linedef_segs(vertices: &Vec<Vertex>, ld: &LineDef, idx: usize, segs: &mut Vec<Seg>) -> (r:
    Result<(), GeometryError>)
    ensures
        r matches Err(e) ==> linedef_segs_q(vertices@, *ld, idx, old(segs)@.len()) == Err::<
            Seq<Seg>,
            GeometryError,
        >(e) && final(segs)@ == old(segs)@,
        r is Ok ==> (linedef_segs_q(vertices@, *ld, idx, old(segs)@.len()) matches Ok(more) && {
            &&& final(segs)@ == old(segs)@ + more
            &&& forall|k: int|
                0 <= k < more.len() ==> (#[trigger] more[k]).wf() && more[k].derived_ok()
                    && more[k].linedef == idx
            &&& (more.len() == 0 || (more.len() == 1 && more[0].partner is None) || (more.len()
                == 2 && more[0].partner == Some((old(segs)@.len() + 1) as usize)
                && more[1].partner == Some(old(segs)@.len() as usize) && more[1].linedef
                == more[0].linedef && more[1].side != more[0].side))
        }),
{
    proof {
        reveal(make_seg_q);
        reveal(Seg::derived_ok);
    }
    let ghost acc = segs@;
    if ld.start >= vertices.len() || ld.end >= vertices.len() {
        return Err(GeometryError::InvalidGeometry);
    }
    let sv = &vertices[ld.start];
    let ev = &vertices[ld.end];
    let sp = Point2D { x: Rat::from_int(sv.x as i64), y: Rat::from_int(sv.y as i64) };
    let ep = Point2D { x: Rat::from_int(ev.x as i64), y: Rat::from_int(ev.y as i64) };
    proof {
        assert(sp == vertex_point(vertices@[ld.start as int]));
        assert(ep == vertex_point(vertices@[ld.end as int]));
    }
    if ld.right >= 0 {
        // The front seg; its partner index is fixed up once the back seg
        // is in place, so no index is ever computed past the pool.
        let front = match make_seg(&sp, &ep, idx, SegmentSide::Front, None) {
            Err(e) => {
                return Err(e);
            },
            Ok(s) => s,
        };
        if ld.left >= 0 {
            let base = segs.len();
            let back = match make_seg(&ep, &sp, idx, SegmentSide::Back, Some(base)) {
                Err(e) => {
                    return Err(e);
                },
                Ok(s) => s,
            };
            segs.push(front);
            segs.push(back);
            let back_idx = segs.len() - 1;
            let linked_front = Seg { partner: Some(back_idx), ..front };
            segs.set(base, linked_front);
            proof {
                let fixed = make_seg_q(sp, ep, idx, SegmentSide::Front, Some((acc.len() + 1) as usize));
                assert(fixed == Ok::<Seg, GeometryError>(linked_front));
                assert(segs@ =~= acc + seq![linked_front, back]);
            }
        } else {
            segs.push(front);
            proof {
                assert(segs@ =~= acc + seq![front]);
            }
        }
    } else if ld.left >= 0 {
        let back = match make_seg(&ep, &sp, idx, SegmentSide::Back, None) {
            Err(e) => {
                return Err(e);
            },
            Ok(s) => s,
        };
        segs.push(back);
        proof {
            assert(segs@ =~= acc + seq![back]);
        }
    } else {
        proof {
            assert(segs@ =~= acc + Seq::<Seg>::empty());
        }
    }
    Ok(())
}

/// One factory step: appending a linedef's segs to a pool that matches
/// the model keeps the pool matching the model, well formed, linked and
/// counted.
#[verifier::rlimit(100)]
#[verifier::spinoff_prover]
proof fn lemma_factory_step(
    verts: Seq<Vertex>,
    lds: Seq<LineDef>,
    i: int,
    acc: Seq<Seg>,
    more: Seq<Seg>,
)
    requires
        0 <= i < lds.len(),
        initial_segs_q(verts, lds, i) == Ok::<Seq<Seg>, GeometryError>(acc),
        linedef_segs_q(verts, lds[i], i as usize, acc.len()) == Ok::<Seq<Seg>, GeometryError>(
            more,
        ),
        all_segs_wf(acc, lds.len() as int),
        partners_linked(acc),
        acc.len() + more.len() <= usize::MAX,
        forall|k: int|
            0 <= k < more.len() ==> (#[trigger] more[k]).wf() && more[k].derived_ok()
                && more[k].linedef == i as usize,
        more.len() == 0 || (more.len() == 1 && more[0].partner is None) || (more.len() == 2
            && more[0].partner == Some((acc.len() + 1) as usize) && more[1].partner == Some(
            acc.len() as usize,
        ) && more[1].linedef == more[0].linedef && more[1].side != more[0].side),
    ensures
        initial_segs_q(verts, lds, i + 1) == Ok::<Seq<Seg>, GeometryError>(acc + more),
        all_segs_wf(acc + more, lds.len() as int),
        partners_linked(acc + more),
{
    lemma_pool_extend(acc, more, lds.len() as int);
}

/// Build the initial seg pool from the vertex and linedef lists: for each
/// linedef a front seg when it has a right side and a reversed back seg
/// when it has a left side, the two linked as partners when both exist.
/// A linedef referencing a vertex index out of range aborts the build.
#[verifier::rlimit(100)]
pub fn create_initial_segs(vertices: &Vec<Vertex>, linedefs: &Vec<LineDef>) -> (r: Result<
    Vec<Seg>,
    GeometryError,
>)
    ensures
        match r {
            Ok(segs) => initial_segs_q(vertices@, linedefs@, linedefs@.len() as int) == Ok::<
                Seq<Seg>,
                GeometryError,
            >(segs@)
                && all_segs_wf(segs@, linedefs@.len() as int) && partners_linked(segs@),
            Err(e) => initial_segs_q(vertices@, linedefs@, linedefs@.len() as int) == Err::<
                Seq<Seg>,
                GeometryError,
            >(e),
        },
{
    let mut segs: Vec<Seg> = Vec::new();
    let n = linedefs.len();
    let mut i: usize = 0;
    while i < n
        invariant
            0 <= i <= n,
            n == linedefs@.len(),
            initial_segs_q(vertices@, linedefs@, i as int) == Ok::<Seq<Seg>, GeometryError>(
                segs@,
            ),
            all_segs_wf(segs@, linedefs@.len() as int),
            partners_linked(segs@),
        decreases n - i,
    {
        let ghost acc = segs@;
        let ld = &linedefs[i];
        match push_linedef_segs(vertices, ld, i, &mut segs) {
            Err(e) => {
                proof {
                    lemma_initial_segs_err_persists(
                        vertices@,
                        linedefs@,
                        i as int + 1,
                        linedefs@.len() as int,
                    );
                }
                return Err(e);
            },
            Ok(()) => {},
        }
        let cur = segs.len();
        proof {
            let more = linedef_segs_q(vertices@, linedefs@[i as int], i, acc.len())->Ok_0;
            assert(cur as int == acc.len() + more.len());
            lemma_factory_step(vertices@, linedefs@, i as int, acc, more);
        }
        i = i + 1;
    }
    Ok(segs)
}

/// A copy of a seg vector.
pub fn copy_segs(segs: &Vec<Seg>) -> (r: Vec<Seg>)
    ensures
        r@ == segs@,
{
    let mut out: Vec<Seg> = Vec::new();
    let n = segs.len();
    let mut i: usize = 0;
    while i < n
        invariant
            0 <= i <= n,
            n == segs@.len(),
            out@ == segs@.subrange(0, i as int),
        decreases n - i,
    {
        out.push(segs[i]);
        i = i + 1;
    }
    proof {
        assert(out@ =~= segs@);
    }
    out
}

} // verus!
