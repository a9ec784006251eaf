//! Partition selection, segment classification, and segment splitting.
//!
//! The partition policy is deliberately simple: the first segment's line.
//! Classification compares the partition's signed area at a seg's two
//! endpoints against the tolerance `EPSILON = 1 / 1_000_000`, exactly:
//! strictly beyond the tolerance on both sides gives `Front` or `Back`,
//! strictly opposite sides give `Spanning`, and an endpoint within the
//! tolerance routes the seg by its other endpoint — `Coincident` only when
//! both endpoints lie within the tolerance.

use vstd::prelude::*;

verus! {

use crate::errors::GeometryError;
use crate::geometry::{Line2D, Point2D, cross_q, intersect_q, lemma_cross_wf};
use crate::rat::{Rat, lt_q, rat_lt};
use crate::seg::{Seg, make_seg, make_seg_q};

/// Where a segment lies relative to a partition line.
#[derive(Clone, Copy, Debug, PartialEq, Eq, Structural)]
pub enum SegPosition {
    Front,
    Back,
    Spanning,
    Coincident,
}

/// The classification tolerance, `1 / 1_000_000`.
pub open spec fn eps_q() -> Rat {
    Rat { num: 1int as i64, den: 1000000int as i64 }
}

/// The classification tolerance, `-1 / 1_000_000`.
pub open spec fn neg_eps_q() -> Rat {
    Rat { num: -1int as i64, den: 1000000int as i64 }
}

/// The signed area `d` lies strictly beyond the front tolerance.
pub open spec fn front_of(d: Rat) -> bool {
    lt_q(eps_q(), d)
}

/// The signed area `d` lies strictly beyond the back tolerance.
pub open spec fn back_of(d: Rat) -> bool {
    lt_q(d, neg_eps_q())
}

/// The classification of a seg from the signed areas at its two endpoints.
pub open spec fn category_q(d1: Rat, d2: Rat) -> SegPosition {
    let z1 = !front_of(d1) && !back_of(d1);
    let z2 = !front_of(d2) && !back_of(d2);
    if z1 && z2 {
        SegPosition::Coincident
    } else if (front_of(d1) || z1) && (front_of(d2) || z2) {
        SegPosition::Front
    } else if (back_of(d1) || z1) && (back_of(d2) || z2) {
        SegPosition::Back
    } else {
        SegPosition::Spanning
    }
}

/// The classification of `seg` against `line`: the signed areas at the two
/// endpoints, routed through `category_q`.
pub open spec fn classify_seg_q(seg: Seg, line: Line2D) -> Result<SegPosition, GeometryError> {
    match cross_q(line, seg.start) {
        Err(e) => Err(e),
        Ok(d1) => match cross_q(line, seg.end) {
            Err(e) => Err(e),
            Ok(d2) => Ok(category_q(d1, d2)),
        },
    }
}

/// Classify a seg as front, back, spanning or coincident relative to a
/// partition line.  Every (seg, line) pair lands in exactly one class;
/// the only failure is exhaustion of the exact coordinate range.
pub fn classify_seg(seg: &Seg, line: &Line2D) -> (r: Result<SegPosition, GeometryError>)
    requires
        seg.wf(),
        line.wf(),
    ensures
        r == classify_seg_q(*seg, *line),
{
    let d1 = match line.classify_point(&seg.start) {
        Err(e) => {
            return Err(e);
        },
        Ok(v) => v,
    };
    let d2 = match line.classify_point(&seg.end) {
        Err(e) => {
            return Err(e);
        },
        Ok(v) => v,
    };
    let eps = Rat { num: 1, den: 1000000 };
    let neg_eps = Rat { num: -1, den: 1000000 };
    let p1 = rat_lt(&eps, &d1);
    let n1 = rat_lt(&d1, &neg_eps);
    let p2 = rat_lt(&eps, &d2);
    let n2 = rat_lt(&d2, &neg_eps);
    let z1 = !p1 && !n1;
    let z2 = !p2 && !n2;
    if z1 && z2 {
        Ok(SegPosition::Coincident)
    } else if (p1 || z1) && (p2 || z2) {
        Ok(SegPosition::Front)
    } else if (n1 || z1) && (n2 || z2) {
        Ok(SegPosition::Back)
    } else {
        Ok(SegPosition::Spanning)
    }
}

/// The partition the tree builder picks for a seg list: the first
/// segment's own line.
pub open spec fn partition_of(segs: Seq<Seg>) -> Line2D {
    Line2D { start: segs[0].start, end: segs[0].end }
}

/// Pick the partition line for a non-empty segment list: the first
/// segment's line, a deliberately simple heuristic.
pub fn choose_partition(segs: &Vec<Seg>) -> (l: Line2D)
    requires
        segs@.len() > 0,
    ensures
        l == partition_of(segs@),
        segs@[0].wf() ==> l.wf(),
{
    Line2D::from_seg(&segs[0])
}

/// The front, back and spanning lists after classifying the first `j` segs
/// against `part`; a coincident seg goes to both the front and the back
/// list and is never split or dropped.
pub open spec fn split_list_q(segs: Seq<Seg>, part: Line2D, j: int) -> Result<
    (Seq<Seg>, Seq<Seg>, Seq<Seg>),
    GeometryError,
>
    decreases j,
{
    if j <= 0 {
        Ok((Seq::empty(), Seq::empty(), Seq::empty()))
    } else {
        match split_list_q(segs, part, j - 1) {
            Err(e) => Err(e),
            Ok(lists) => {
                let s = segs[j - 1];
                match classify_seg_q(s, part) {
                    Err(e) => Err(e),
                    Ok(pos) => match pos {
                        SegPosition::Front => Ok((lists.0.push(s), lists.1, lists.2)),
                        SegPosition::Back => Ok((lists.0, lists.1.push(s), lists.2)),
                        SegPosition::Spanning => Ok((lists.0, lists.1, lists.2.push(s))),
                        SegPosition::Coincident => Ok((lists.0.push(s), lists.1.push(s), lists.2)),
                    },
                }
            },
        }
    }
}

/// Once classification of some prefix fails, every longer prefix fails
/// the same way.
pub proof fn lemma_split_list_err_persists(segs: Seq<Seg>, part: Line2D, j: int, k: int)
    requires
        0 <= j <= k,
        split_list_q(segs, part, j) is Err,
    ensures
        split_list_q(segs, part, k) == split_list_q(segs, part, j),
    decreases k - j,
{
    if k > j {
        lemma_split_list_err_persists(segs, part, j, k - 1);
    }
}

/// Every seg of `s` is well formed with faithfully derived fields.
pub open spec fn segs_sound(s: Seq<Seg>) -> bool {
    forall|i: int| 0 <= i < s.len() ==> (#[trigger] s[i]).wf() && s[i].derived_ok()
}

/// Classify every seg of `segs` against `part` into front, back and
/// spanning lists; a coincident seg is placed in both the front and the
/// back list.
pub fn split_list(segs: &Vec<Seg>, part: &Line2D) -> (r: Result<
    (Vec<Seg>, Vec<Seg>, Vec<Seg>),
    GeometryError,
>)
    requires
        segs_sound(segs@),
        part.wf(),
    ensures
        match r {
            Ok(lists) => split_list_q(segs@, *part, segs@.len() as int) == Ok::<
                (Seq<Seg>, Seq<Seg>, Seq<Seg>),
                GeometryError,
            >((lists.0@, lists.1@, lists.2@)) && segs_sound(lists.0@) && segs_sound(lists.1@) && segs_sound(lists.2@),
            Err(e) => split_list_q(segs@, *part, segs@.len() as int) == Err::<
                (Seq<Seg>, Seq<Seg>, Seq<Seg>),
                GeometryError,
            >(e),
        },
{
    let mut front: Vec<Seg> = Vec::new();
    let mut back: Vec<Seg> = Vec::new();
    let mut span: Vec<Seg> = Vec::new();
    let n = segs.len();
    let mut i: usize = 0;
    while i < n
        invariant
            0 <= i <= n,
            n == segs@.len(),
            segs_sound(segs@),
            part.wf(),
            split_list_q(segs@, *part, i as int) == Ok::<
                (Seq<Seg>, Seq<Seg>, Seq<Seg>),
                GeometryError,
            >((front@, back@, span@)),
            segs_sound(front@),
            segs_sound(back@),
            segs_sound(span@),
        decreases n - i,
    {
        let s = &segs[i];
        match classify_seg(s, part) {
            Err(e) => {
                proof {
                    lemma_split_list_err_persists(segs@, *part, i as int + 1, segs@.len() as int);
                }
                return Err(e);
            },
            Ok(SegPosition::Front) => {
                front.push(*s);
            },
            Ok(SegPosition::Back) => {
                back.push(*s);
            },
            Ok(SegPosition::Spanning) => {
                span.push(*s);
            },
            Ok(SegPosition::Coincident) => {
                front.push(*s);
                back.push(*s);
            },
        }
        i = i + 1;
    }
    Ok((front, back, span))
}

/// The two fragments of splitting `seg` at the partition `line`: the
/// intersection of the seg's own line with the partition, and fragments
/// `[start, x]` and `[x, end]` inheriting the seg's linedef and side, with
/// direction and squared length recomputed from their own endpoints.
pub open spec fn split_seg_q(seg: Seg, line: Line2D) -> Result<(Seg, Seg), GeometryError> {
    let seg_line = Line2D { start: seg.start, end: seg.end };
    match intersect_q(line, seg_line) {
        Err(e) => Err(e),
        Ok(None) => Err(GeometryError::SplitFailure),
        Ok(Some(x)) => match make_seg_q(seg.start, x, seg.linedef, seg.side, None) {
            Err(e) => Err(e),
            Ok(f) => match make_seg_q(x, seg.end, seg.linedef, seg.side, None) {
                Err(e) => Err(e),
                Ok(b) => Ok((f, b)),
            },
        },
    }
}

/// Split a seg at the partition `line` into a front and a back fragment
/// meeting at the intersection point.  Fails with `SplitFailure` when the
/// seg's line and the partition have no unique intersection (they are
/// parallel), which never happens to a spanning seg.
pub fn split_seg(seg: &Seg, line: &Line2D) -> (r: Result<(Seg, Seg), GeometryError>)
    requires
        seg.wf(),
        line.wf(),
    ensures
        r == split_seg_q(*seg, *line),
        r matches Ok(pair) ==> pair.0.wf() && pair.0.derived_ok() && pair.1.wf()
            && pair.1.derived_ok() && pair.0.start == seg.start && pair.0.end == pair.1.start
            && pair.1.end == seg.end && pair.0.linedef == seg.linedef && pair.1.linedef
            == seg.linedef && pair.0.side == seg.side && pair.1.side == seg.side,
{
    let seg_line = Line2D::from_seg(seg);
    let x = match line.intersect(&seg_line) {
        Err(e) => {
            return Err(e);
        },
        Ok(None) => {
            return Err(GeometryError::SplitFailure);
        },
        Ok(Some(p)) => p,
    };
    proof {
        lemma_intersect_point_wf(*line, seg_line);
    }
    let f = match make_seg(&seg.start, &x, seg.linedef, seg.side, None) {
        Err(e) => {
            return Err(e);
        },
        Ok(s) => s,
    };
    let b = match make_seg(&x, &seg.end, seg.linedef, seg.side, None) {
        Err(e) => {
            return Err(e);
        },
        Ok(s) => s,
    };
    Ok((f, b))
}

/// A point coming out of a successful line intersection is well formed.
pub proof fn lemma_intersect_point_wf(l1: Line2D, l2: Line2D)
    requires
        l1.wf(),
        l2.wf(),
    ensures
        intersect_q(l1, l2) matches Ok(Some(p)) ==> p.wf(),
{
    crate::geometry::lemma_intersect_wf(l1, l2);
}

} // verus!
