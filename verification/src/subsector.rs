//! Subsectors: leaf-level groupings of segs.
//!
//! For every non-empty leaf of the BSP tree, in traversal order (front
//! subtree before back subtree), the extractor collects the leaf's segs,
//! computes the bounding box of their endpoints, and resolves the
//! enclosing sector by walking the segs' linedefs and reading the sector
//! on whichever side matches the seg's own side tag.  An empty leaf
//! produces no subsector.

use vstd::prelude::*;

verus! {

use crate::geometry::{BoundingBox, expand_q};
use crate::map_data::{LineDef, Sector, SideDef};
use crate::partition::segs_sound;
use crate::seg::{Seg, SegmentSide, copy_segs};
use crate::tree::{BspNode, TreeShape};

/// A leaf-level grouping of segs with its bounding box and enclosing
/// sector (an index into the map's sector list), when one resolves.
#[derive(Debug)]
pub struct Subsector {
    /// The leaf's segs.
    pub segs: Vec<Seg>,
    /// The bounding box of the segs' endpoints.
    pub bbox: BoundingBox,
    /// The enclosing sector, resolved from the segs' linedef sides.
    pub sector: Option<usize>,
}

/// The bounding box of the endpoints of the first `j` segs (`j >= 1`).
pub open spec fn segs_bounds_q(segs: Seq<Seg>, j: int) -> BoundingBox
    decreases j,
{
    if j <= 1 {
        let p = segs[0].start;
        let b0 = BoundingBox { min_x: p.x, min_y: p.y, max_x: p.x, max_y: p.y };
        expand_q(b0, segs[0].end.x, segs[0].end.y)
    } else {
        let prev = segs_bounds_q(segs, j - 1);
        expand_q(
            expand_q(prev, segs[j - 1].start.x, segs[j - 1].start.y),
            segs[j - 1].end.x,
            segs[j - 1].end.y,
        )
    }
}

impl BoundingBox {
    /// The bounding box of all seg endpoints, or `None` for no segs.
    pub fn from_segs(segs: &Vec<Seg>) -> (r: Option<BoundingBox>)
        requires
            segs_sound(segs@),
        ensures
            segs@.len() == 0 ==> r is None,
            segs@.len() > 0 ==> r == Some(segs_bounds_q(segs@, segs@.len() as int))
                && segs_bounds_q(segs@, segs@.len() as int).wf(),
    {
        if segs.len() == 0 {
            return None;
        }
        let first = &segs[0];
        let mut bb = BoundingBox::of_point(&first.start);
        bb.expand_point(&first.end.x, &first.end.y);
        let n = segs.len();
        let mut i: usize = 1;
        while i < n
            invariant
                1 <= i <= n,
                n == segs@.len(),
                segs_sound(segs@),
                bb == segs_bounds_q(segs@, i as int),
                bb.wf(),
            decreases n - i,
        {
            let s = &segs[i];
            bb.expand_point(&s.start.x, &s.start.y);
            bb.expand_point(&s.end.x, &s.end.y);
            i = i + 1;
        }
        Some(bb)
    }
}

/// The sector a single seg resolves to: the sidedef on the seg's own side
/// of its linedef, and that sidedef's sector — `None` whenever a link in
/// that chain is missing or out of range.
pub open spec fn seg_sector_q(
    seg: Seg,
    lds: Seq<LineDef>,
    sds: Seq<SideDef>,
    n_sectors: int,
) -> Option<usize> {
    if seg.linedef >= lds.len() {
        None
    } else {
        let ld = lds[seg.linedef as int];
        let si = if seg.side == SegmentSide::Front {
            ld.right
        } else {
            ld.left
        };
        if si < 0 || si >= sds.len() {
            None
        } else {
            let sec = sds[si as int].sector;
            if 0 <= sec < n_sectors {
                Some(sec as usize)
            } else {
                None
            }
        }
    }
}

/// The sector of the first seg among the first `j` that resolves to one.
pub open spec fn resolve_sector_q(
    segs: Seq<Seg>,
    lds: Seq<LineDef>,
    sds: Seq<SideDef>,
    n_sectors: int,
    j: int,
) -> Option<usize>
    decreases j,
{
    if j <= 0 {
        None
    } else {
        match resolve_sector_q(segs, lds, sds, n_sectors, j - 1) {
            Some(s) => Some(s),
            None => seg_sector_q(segs[j - 1], lds, sds, n_sectors),
        }
    }
}

/// Resolve the enclosing sector of a leaf: the first seg whose linedef has
/// a sidedef on the seg's own side naming an existing sector.
pub fn resolve_sector(
    segs: &Vec<Seg>,
    linedefs: &Vec<LineDef>,
    sidedefs: &Vec<SideDef>,
    sectors: &Vec<Sector>,
) -> (r: Option<usize>)
    ensures
        r == resolve_sector_q(
            segs@,
            linedefs@,
            sidedefs@,
            sectors@.len() as int,
            segs@.len() as int,
        ),
{
    let n = segs.len();
    let mut i: usize = 0;
    let mut found: Option<usize> = None;
    while i < n
        invariant
            0 <= i <= n,
            n == segs@.len(),
            found == resolve_sector_q(
                segs@,
                linedefs@,
                sidedefs@,
                sectors@.len() as int,
                i as int,
            ),
        decreases n - i,
    {
        if found.is_none() {
            let seg = &segs[i];
            if seg.linedef < linedefs.len() {
                let ld = &linedefs[seg.linedef];
                let si = match seg.side {
                    SegmentSide::Front => ld.right,
                    SegmentSide::Back => ld.left,
                };
                if si >= 0 && (si as usize) < sidedefs.len() {
                    let sec = sidedefs[si as usize].sector;
                    if sec >= 0 && (sec as usize) < sectors.len() {
                        found = Some(sec as usize);
                    }
                }
            }
        }
        i = i + 1;
    }
    found
}

/// The seg lists of the non-empty leaves of `t`, front subtree first.
pub open spec fn leaves_q(t: TreeShape) -> Seq<Seq<Seg>>
    decreases t,
{
    match t {
        TreeShape::Leaf { segs } => if segs.len() == 0 {
            Seq::empty()
        } else {
            seq![segs]
        },
        TreeShape::Branch { partition, front, back } => leaves_q(*front) + leaves_q(*back),
    }
}

/// `ss` is the subsector of the leaf `leaf`: the leaf's segs, the
/// bounding box of their endpoints, and the resolved enclosing sector.
pub open spec fn subsector_matches(
    ss: Subsector,
    leaf: Seq<Seg>,
    lds: Seq<LineDef>,
    sds: Seq<SideDef>,
    n_sectors: int,
) -> bool {
    &&& ss.segs@ == leaf
    &&& ss.bbox == segs_bounds_q(leaf, leaf.len() as int)
    &&& ss.sector == resolve_sector_q(leaf, lds, sds, n_sectors, leaf.len() as int)
}

/// Every subsector of `out` matches the leaf at its position.
pub open spec fn subsectors_match(
    out: Seq<Subsector>,
    leaves: Seq<Seq<Seg>>,
    lds: Seq<LineDef>,
    sds: Seq<SideDef>,
    n_sectors: int,
) -> bool {
    &&& out.len() == leaves.len()
    &&& forall|i: int|
        0 <= i < out.len() ==> subsector_matches(#[trigger] out[i], leaves[i], lds, sds, n_sectors)
}

/// Append the subsectors of every non-empty leaf under `node`, front
/// subtree before back subtree.
pub fn collect_subsectors(
    node: &BspNode,
    linedefs: &Vec<LineDef>,
    sidedefs: &Vec<SideDef>,
    sectors: &Vec<Sector>,
    out: &mut Vec<Subsector>,
)
    requires
        node.shape_wf(),
        node.segs_sound_deep(),
    ensures
        final(out)@.len() == old(out)@.len() + leaves_q(node.model()).len(),
        forall|i: int| 0 <= i < old(out)@.len() ==> #[trigger] final(out)@[i] == old(out)@[i],
        forall|i: int|
            0 <= i < leaves_q(node.model()).len() ==> subsector_matches(
                #[trigger] final(out)@[old(out)@.len() + i],
                leaves_q(node.model())[i],
                linedefs@,
                sidedefs@,
                sectors@.len() as int,
            ),
    decreases *node,
{
    if node.partition.is_none() {
        if node.segs.len() == 0 {
            return ;
        }
        let segs = copy_segs(&node.segs);
        let bbox = match BoundingBox::from_segs(&segs) {
            None => {
                proof {
                    assert(false);
                }
                return ;
            },
            Some(b) => b,
        };
        let sector = resolve_sector(&segs, linedefs, sidedefs, sectors);
        out.push(Subsector { segs, bbox, sector });
        proof {
            assert(leaves_q(node.model()) =~= seq![node.segs@]);
        }
        return ;
    }
    let ghost mid = out@;
    match &node.front {
        Some(f) => {
            collect_subsectors(f, linedefs, sidedefs, sectors, out);
        },
        None => {
            proof {
                assert(false);
            }
        },
    }
    let ghost after_front = out@;
    match &node.back {
        Some(b) => {
            collect_subsectors(b, linedefs, sidedefs, sectors, out);
        },
        None => {
            proof {
                assert(false);
            }
        },
    }
    proof {
        let fl = leaves_q((*node.front->Some_0).model());
        let bl = leaves_q((*node.back->Some_0).model());
        assert(leaves_q(node.model()) =~= fl + bl);
        assert(after_front.len() == mid.len() + fl.len());
        assert forall|i: int| 0 <= i < leaves_q(node.model()).len() implies subsector_matches(
            #[trigger] out@[mid.len() + i],
            leaves_q(node.model())[i],
            linedefs@,
            sidedefs@,
            sectors@.len() as int,
        ) by {
            if i < fl.len() {
                assert(subsector_matches(
                    after_front[mid.len() + i],
                    fl[i],
                    linedefs@,
                    sidedefs@,
                    sectors@.len() as int,
                ));
                assert(out@[mid.len() + i] == after_front[mid.len() + i]);
                assert(leaves_q(node.model())[i] == fl[i]);
            } else {
                assert(subsector_matches(
                    out@[after_front.len() + (i - fl.len())],
                    bl[i - fl.len()],
                    linedefs@,
                    sidedefs@,
                    sectors@.len() as int,
                ));
                assert(leaves_q(node.model())[i] == bl[i - fl.len()]);
            }
        }
    }
}

} // verus!
