//! The BSP tree: nodes and the recursive builder.
//!
//! `build_bsp_tree(segs, depth)` either stops — past the depth limit with
//! `DepthExceeded`, at an empty list with an empty leaf, at a list of at
//! most `LEAF_THRESHOLD` segs with a leaf — or picks the first seg's line
//! as partition, classifies every seg, splits each spanning seg into a
//! front and a back fragment, and recurses on the two lists.  A child's
//! error aborts the whole build; no partial tree is ever returned.

use vstd::prelude::*;

verus! {

use crate::errors::GeometryError;
use crate::geometry::Line2D;
use crate::partition::{
    SegPosition, choose_partition, classify_seg_q, split_list, split_list_q, split_seg,
    split_seg_q, partition_of, segs_sound, lemma_split_list_err_persists,
};
use crate::seg::Seg;

/// The hard bound on recursion depth; exceeding it is a build failure.
pub const BSP_DEPTH_LIMIT: i32 = 64;

/// Lists of at most this many segs become leaves.
pub const LEAF_THRESHOLD: usize = 3;

/// A node of the BSP tree: a branch carries a partition line and exactly
/// two children and no segs; a leaf carries segs (possibly none, for the
/// explicit empty leaf) and no partition or children.
#[derive(Debug)]
pub struct BspNode {
    /// The splitting line; `None` exactly for leaves.
    pub partition: Option<Line2D>,
    /// The child covering the partition's front half-plane.
    pub front: Option<Box<BspNode>>,
    /// The child covering the partition's back half-plane.
    pub back: Option<Box<BspNode>>,
    /// The segs of a leaf; empty for a branch.
    pub segs: Vec<Seg>,
}

/// The mathematical shape of a BSP tree: a leaf with its seg sequence, or
/// a branch with a partition line and two subtrees.
pub enum TreeShape {
    Leaf { segs: Seq<Seg> },
    Branch { partition: Line2D, front: Box<TreeShape>, back: Box<TreeShape> },
}

impl BspNode {
    /// Structural soundness: a node is a leaf (no partition, no children)
    /// or a branch (a partition, exactly two children, no own segs).
    pub open spec fn shape_wf(self) -> bool
        decreases self,
    {
        match self.partition {
            None => self.front is None && self.back is None,
            Some(_) => {
                &&& self.segs@.len() == 0
                &&& (self.front matches Some(f) && f.shape_wf())
                &&& (self.back matches Some(b) && b.shape_wf())
            },
        }
    }

    /// Every seg stored in the tree's leaves is well formed, with its
    /// direction and squared length derived from its own endpoints.
    pub open spec fn segs_sound_deep(self) -> bool
        decreases self,
    {
        match self.partition {
            None => segs_sound(self.segs@),
            Some(_) => {
                &&& (self.front matches Some(f) ==> f.segs_sound_deep())
                &&& (self.back matches Some(b) ==> b.segs_sound_deep())
            },
        }
    }

    /// The mathematical shape of this node.
    pub open spec fn model(self) -> TreeShape
        decreases self,
    {
        if self.partition is Some && self.front is Some && self.back is Some {
            TreeShape::Branch {
                partition: self.partition->Some_0,
                front: Box::new((*self.front->Some_0).model()),
                back: Box::new((*self.back->Some_0).model()),
            }
        } else {
            TreeShape::Leaf { segs: self.segs@ }
        }
    }

    /// A leaf node holding exactly the given segs.
    pub fn create_leaf(segs: Vec<Seg>) -> (n: BspNode)
        ensures
            n == (BspNode { partition: None, front: None, back: None, segs }),
            n.model() == (TreeShape::Leaf { segs: segs@ }),
            n.shape_wf(),
    {
        BspNode { partition: None, front: None, back: None, segs }
    }

    /// The explicit empty leaf: the terminal case for a side of the
    /// partition that no seg reaches.
    pub fn empty_leaf() -> (n: BspNode)
        ensures
            n.partition is None && n.front is None && n.back is None && n.segs@.len() == 0,
            n.model() == (TreeShape::Leaf { segs: Seq::<Seg>::empty() }),
            n.shape_wf(),
    {
        let n = BspNode { partition: None, front: None, back: None, segs: Vec::new() };
        proof {
            assert(n.segs@ =~= Seq::<Seg>::empty());
        }
        n
    }

    /// A branch node from its partition and two children; a branch holds
    /// no segs of its own.
    pub fn create_node(partition: Line2D, front: BspNode, back: BspNode) -> (n: BspNode)
        ensures
            n.partition == Some(partition),
            n.front matches Some(f) && *f == front,
            n.back matches Some(b) && *b == back,
            n.segs@.len() == 0,
            n.model() == (TreeShape::Branch {
                partition,
                front: Box::new(front.model()),
                back: Box::new(back.model()),
            }),
            front.shape_wf() && back.shape_wf() ==> n.shape_wf(),
            front.segs_sound_deep() && back.segs_sound_deep() ==> n.segs_sound_deep(),
    {
        let n = BspNode {
            partition: Some(partition),
            front: Some(Box::new(front)),
            back: Some(Box::new(back)),
            segs: Vec::new(),
        };
        proof {
            assert(n.segs@ =~= Seq::<Seg>::empty());
        }
        n
    }

    /// Whether this node is a leaf, i.e. has no partition line.
    pub fn is_leaf(&self) -> (r: bool)
        ensures
            r == (self.partition is None),
    {
        self.partition.is_none()
    }
}

/// The front and back lists extended with the fragments of the first `j`
/// spanning segs, split against `part`.
pub open spec fn split_spanning_q(
    span: Seq<Seg>,
    part: Line2D,
    j: int,
    front: Seq<Seg>,
    back: Seq<Seg>,
) -> Result<(Seq<Seg>, Seq<Seg>), GeometryError>
    decreases j,
{
    if j <= 0 {
        Ok((front, back))
    } else {
        match split_spanning_q(span, part, j - 1, front, back) {
            Err(e) => Err(e),
            Ok(lists) => match split_seg_q(span[j - 1], part) {
                Err(e) => Err(e),
                Ok(pair) => Ok((lists.0.push(pair.0), lists.1.push(pair.1))),
            },
        }
    }
}

/// Once splitting some prefix of the spanning list fails, every longer
/// prefix fails the same way.
pub proof fn lemma_split_spanning_err_persists(
    span: Seq<Seg>,
    part: Line2D,
    j: int,
    k: int,
    front: Seq<Seg>,
    back: Seq<Seg>,
)
    requires
        0 <= j <= k,
        split_spanning_q(span, part, j, front, back) is Err,
    ensures
        split_spanning_q(span, part, k, front, back) == split_spanning_q(
            span,
            part,
            j,
            front,
            back,
        ),
    decreases k - j,
{
    if k > j {
        lemma_split_spanning_err_persists(span, part, j, k - 1, front, back);
    }
}

/// The tree that `segs` builds at recursion depth `depth`, or the error
/// that aborts the build: `DepthExceeded` at the depth limit, an (empty)
/// leaf for a list of at most `LEAF_THRESHOLD` segs, and otherwise a
/// branch over the classified and split front and back lists.
pub open spec fn build_tree_q(segs: Seq<Seg>, depth: int) -> Result<TreeShape, GeometryError>
    decreases BSP_DEPTH_LIMIT - depth,
{
    if depth >= BSP_DEPTH_LIMIT {
        Err(GeometryError::DepthExceeded)
    } else if segs.len() <= LEAF_THRESHOLD {
        Ok(TreeShape::Leaf { segs })
    } else {
        let part = partition_of(segs);
        match split_list_q(segs, part, segs.len() as int) {
            Err(e) => Err(e),
            Ok(lists) => match split_spanning_q(
                lists.2,
                part,
                lists.2.len() as int,
                lists.0,
                lists.1,
            ) {
                Err(e) => Err(e),
                Ok(fb) => match build_tree_q(fb.0, depth + 1) {
                    Err(e) => Err(e),
                    Ok(front_tree) => match build_tree_q(fb.1, depth + 1) {
                        Err(e) => Err(e),
                        Ok(back_tree) => Ok(
                            TreeShape::Branch {
                                partition: part,
                                front: Box::new(front_tree),
                                back: Box::new(back_tree),
                            },
                        ),
                    },
                },
            },
        }
    }
}

/// Build the BSP tree for `segs` at recursion depth `depth`.  The result
/// is exactly the tree of `build_tree_q`: structurally sound, with every
/// leaf seg well formed; any failure of a stage or a child aborts the
/// whole build with that error.
pub fn build_bsp_tree(segs: Vec<Seg>, depth: i32) -> (r: Result<BspNode, GeometryError>)
    requires
        0 <= depth,
        segs_sound(segs@),
    ensures
        match r {
            Ok(node) => build_tree_q(segs@, depth as int) == Ok::<TreeShape, GeometryError>(
                node.model(),
            ) && node.shape_wf() && node.segs_sound_deep(),
            Err(e) => build_tree_q(segs@, depth as int) == Err::<TreeShape, GeometryError>(e),
        },
    decreases BSP_DEPTH_LIMIT - depth,
{
    if depth >= BSP_DEPTH_LIMIT {
        return Err(GeometryError::DepthExceeded);
    }
    if segs.len() <= LEAF_THRESHOLD {
        return Ok(BspNode::create_leaf(segs));
    }
    let part = choose_partition(&segs);
    let (mut front_list, mut back_list, span) = match split_list(&segs, &part) {
        Err(e) => {
            return Err(e);
        },
        Ok(lists) => lists,
    };
    let ghost front0 = front_list@;
    let ghost back0 = back_list@;
    let n = span.len();
    let mut i: usize = 0;
    while i < n
        invariant
            0 <= i <= n,
            n == span@.len(),
            part.wf(),
            segs_sound(span@),
            0 <= depth < BSP_DEPTH_LIMIT,
            segs@.len() > LEAF_THRESHOLD,
            part == partition_of(segs@),
            split_list_q(segs@, part, segs@.len() as int) == Ok::<
                (Seq<Seg>, Seq<Seg>, Seq<Seg>),
                GeometryError,
            >((front0, back0, span@)),
            split_spanning_q(span@, part, i as int, front0, back0) == Ok::<
                (Seq<Seg>, Seq<Seg>),
                GeometryError,
            >((front_list@, back_list@)),
            segs_sound(front_list@),
            segs_sound(back_list@),
        decreases n - i,
    {
        let pair = match split_seg(&span[i], &part) {
            Err(e) => {
                proof {
                    lemma_split_spanning_err_persists(
                        span@,
                        part,
                        i as int + 1,
                        span@.len() as int,
                        front0,
                        back0,
                    );
                }
                return Err(e);
            },
            Ok(p) => p,
        };
        front_list.push(pair.0);
        back_list.push(pair.1);
        i = i + 1;
    }
    let front_node = match build_bsp_tree(front_list, depth + 1) {
        Err(e) => {
            return Err(e);
        },
        Ok(nd) => nd,
    };
    let back_node = match build_bsp_tree(back_list, depth + 1) {
        Err(e) => {
            return Err(e);
        },
        Ok(nd) => nd,
    };
    Ok(BspNode::create_node(part, front_node, back_node))
}

} // verus!
