//! Global laws of the compiler, stated and proved over the models that the
//! executable functions are verified against.

use vstd::prelude::*;

verus! {

use crate::errors::GeometryError;
use crate::rat::Rat;
use crate::geometry::Line2D;
use crate::map_data::{LineDef, Vertex};
use crate::partition::{
    SegPosition, back_of, category_q, classify_seg_q, eps_q, front_of, neg_eps_q, partition_of,
    split_list_q,
};
use crate::seg::{Seg, initial_segs_q, side_count};
use crate::tree::{BSP_DEPTH_LIMIT, BspNode, LEAF_THRESHOLD, TreeShape, build_tree_q,
    split_spanning_q};

/// How many of the first `j` linedefs have both a right and a left side.
pub open spec fn two_sided_n(lds: Seq<LineDef>, j: int) -> int
    decreases j,
{
    if j <= 0 {
        0
    } else {
        two_sided_n(lds, j - 1) + (if lds[j - 1].right >= 0 && lds[j - 1].left >= 0 {
            1int
        } else {
            0int
        })
    }
}

/// Every linedef has at least one side.
pub open spec fn every_linedef_sided(lds: Seq<LineDef>) -> bool {
    forall|i: int| 0 <= i < lds.len() ==> (#[trigger] lds[i]).right >= 0 || lds[i].left >= 0
}

/// A successful factory run emits one seg per linedef side.
pub proof fn lemma_initial_segs_len(verts: Seq<Vertex>, lds: Seq<LineDef>, j: int)
    requires
        0 <= j <= lds.len(),
    ensures
        initial_segs_q(verts, lds, j) matches Ok(pool) ==> pool.len() == side_count(lds, j),
    decreases j,
{
    if j > 0 {
        lemma_initial_segs_len(verts, lds, j - 1);
    }
}

/// Segment count: for `N` linedefs of which `T` are two-sided and the
/// rest one-sided, the initial seg pool holds exactly `(N - T) + 2 T`
/// segs.
pub proof fn lemma_segment_count(verts: Seq<Vertex>, lds: Seq<LineDef>)
    requires
        every_linedef_sided(lds),
    ensures
        initial_segs_q(verts, lds, lds.len() as int) matches Ok(pool) ==> pool.len() == (lds.len()
            - two_sided_n(lds, lds.len() as int)) + 2 * two_sided_n(lds, lds.len() as int),
{
    lemma_initial_segs_len(verts, lds, lds.len() as int);
    lemma_side_count_sided(lds, lds.len() as int);
}

/// With every linedef carrying at least one side, the side count is the
/// linedef count plus the two-sided count.
pub proof fn lemma_side_count_sided(lds: Seq<LineDef>, j: int)
    requires
        0 <= j <= lds.len(),
        every_linedef_sided(lds),
    ensures
        side_count(lds, j) == j + two_sided_n(lds, j),
    decreases j,
{
    if j > 0 {
        lemma_side_count_sided(lds, j - 1);
    }
}

/// Classification totality: the signed areas at a seg's two endpoints put
/// it in exactly one of the four classes; two endpoints strictly beyond
/// the tolerance on the same side give that side, never `Spanning`, and
/// `Spanning` arises only from endpoints strictly on opposite sides.
pub proof fn lemma_classification(d1: Rat, d2: Rat)
    requires
        d1.wf(),
        d2.wf(),
    ensures
        front_of(d1) && front_of(d2) ==> category_q(d1, d2) == SegPosition::Front,
        back_of(d1) && back_of(d2) ==> category_q(d1, d2) == SegPosition::Back,
        category_q(d1, d2) == SegPosition::Spanning ==> ((front_of(d1) && back_of(d2)) || (back_of(
            d1,
        ) && front_of(d2))),
        category_q(d1, d2) == SegPosition::Coincident ==> !front_of(d1) && !back_of(d1)
            && !front_of(d2) && !back_of(d2),
{
    assert(eps_q().num == 1 && eps_q().den == 1000000);
    assert(neg_eps_q().num == -1 && neg_eps_q().den == 1000000);
    assert(!(front_of(d1) && back_of(d1))) by {
        if front_of(d1) && back_of(d1) {
            assert(1 * d1.den < d1.num * 1000000);
            assert(d1.num * 1000000 < (-1) * d1.den);
        }
    }
    assert(!(front_of(d2) && back_of(d2))) by {
        if front_of(d2) && back_of(d2) {
            assert(1 * d2.den < d2.num * 1000000);
            assert(d2.num * 1000000 < (-1) * d2.den);
        }
    }
}

/// Classifying every seg against the first seg's own line sends a pool of
/// all-coincident segs to both sides whole: the front and back lists are
/// the pool itself and nothing spans.
pub proof fn lemma_split_all_coincident(segs: Seq<Seg>, part: Line2D, j: int)
    requires
        0 <= j <= segs.len(),
        forall|i: int|
            0 <= i < segs.len() ==> classify_seg_q(#[trigger] segs[i], part) == Ok::<
                SegPosition,
                GeometryError,
            >(SegPosition::Coincident),
    ensures
        split_list_q(segs, part, j) == Ok::<(Seq<Seg>, Seq<Seg>, Seq<Seg>), GeometryError>(
            (segs.take(j), segs.take(j), Seq::empty()),
        ),
    decreases j,
{
    if j <= 0 {
        assert(segs.take(0) =~= Seq::<Seg>::empty());
    } else {
        lemma_split_all_coincident(segs, part, j - 1);
        assert(segs.take(j - 1).push(segs[j - 1]) =~= segs.take(j));
    }
}

/// Depth-limit enforcement: an input that never reduces — every seg
/// coincident with the first seg's line, and more segs than a leaf holds —
/// fails with `DepthExceeded` once the recursion has descended
/// `BSP_DEPTH_LIMIT - depth` times, and never yields a tree.
pub proof fn lemma_depth_limit(segs: Seq<Seg>, depth: int)
    requires
        0 <= depth <= BSP_DEPTH_LIMIT,
        segs.len() > LEAF_THRESHOLD,
        forall|i: int|
            0 <= i < segs.len() ==> classify_seg_q(#[trigger] segs[i], partition_of(segs)) == Ok::<
                SegPosition,
                GeometryError,
            >(SegPosition::Coincident),
    ensures
        build_tree_q(segs, depth) == Err::<TreeShape, GeometryError>(
            GeometryError::DepthExceeded,
        ),
    decreases BSP_DEPTH_LIMIT - depth,
{
    if depth < BSP_DEPTH_LIMIT {
        let part = partition_of(segs);
        lemma_split_all_coincident(segs, part, segs.len() as int);
        assert(segs.take(segs.len() as int) =~= segs);
        assert(split_spanning_q(Seq::empty(), part, 0, segs, segs) == Ok::<
            (Seq<Seg>, Seq<Seg>),
            GeometryError,
        >((segs, segs)));
        lemma_depth_limit(segs, depth + 1);
    }
}

/// Idempotence: building twice from one unmodified snapshot gives the
/// same seg pool and structurally identical trees — the same partitions
/// and the same leaf seg lists.
pub proof fn lemma_build_idempotent(
    verts: Seq<Vertex>,
    lds: Seq<LineDef>,
    pool1: Seq<Seg>,
    pool2: Seq<Seg>,
    n1: BspNode,
    n2: BspNode,
)
    requires
        initial_segs_q(verts, lds, lds.len() as int) == Ok::<Seq<Seg>, GeometryError>(pool1),
        initial_segs_q(verts, lds, lds.len() as int) == Ok::<Seq<Seg>, GeometryError>(pool2),
        build_tree_q(pool1, 0) == Ok::<TreeShape, GeometryError>(n1.model()),
        build_tree_q(pool2, 0) == Ok::<TreeShape, GeometryError>(n2.model()),
    ensures
        pool1 == pool2,
        n1.model() == n2.model(),
{
}

} // verus!
