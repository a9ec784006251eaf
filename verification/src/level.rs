//! The BSP level facade: owns the snapshot and the compiled artifacts,
//! and runs the whole pipeline in order.
//!
//! `build` derives the initial segs from the linedefs, builds the tree,
//! builds the blockmap, and extracts the subsectors.  The four artifacts
//! are published together, only after every stage has succeeded; on any
//! error the previously published state is left untouched and the first
//! failing stage's error is returned.

use vstd::prelude::*;

verus! {

use crate::blockmap::{
    Block, blockmap_matches, bounds_q, build_blockmap, grid_h_q, grid_w_q, lds_valid,
};
use crate::errors::GeometryError;
use crate::map_data::MapSnapshot;
use crate::partition::segs_sound;
use crate::seg::{Seg, all_segs_wf, copy_segs, create_initial_segs, initial_segs_q, partners_linked};
use crate::subsector::{Subsector, collect_subsectors, leaves_q, subsector_matches, subsectors_match};
use crate::tree::{BspNode, TreeShape, build_bsp_tree, build_tree_q};

/// The error (if any) that building a given snapshot runs into: the
/// factory's, else the tree builder's, else the blockmap builder's, in
/// pipeline order.  `None` means the build succeeds.
pub open spec fn build_err_q(m: MapSnapshot) -> Option<GeometryError> {
    match initial_segs_q(m.vertices@, m.linedefs@, m.linedefs@.len() as int) {
        Err(e) => Some(e),
        Ok(pool) => match build_tree_q(pool, 0) {
            Err(e) => Some(e),
            Ok(t) => if !lds_valid(m.linedefs@, m.vertices@.len() as int) {
                Some(GeometryError::InvalidGeometry)
            } else if m.vertices@.len() > 0 && grid_w_q(
                bounds_q(m.vertices@, m.vertices@.len() as int),
            ) * grid_h_q(bounds_q(m.vertices@, m.vertices@.len() as int)) > usize::MAX {
                Some(GeometryError::Overflow)
            } else {
                None
            },
        },
    }
}

/// A built level: the compiled artifacts all agree with the snapshot.
/// The seg pool is the factory's, the root's shape is the tree the pool
/// builds, the blockmap covers the snapshot's linedefs, and there is one
/// subsector per non-empty leaf, in traversal order.
pub open spec fn level_built(l: BspLevel) -> bool {
    &&& initial_segs_q(l.map.vertices@, l.map.linedefs@, l.map.linedefs@.len() as int)
        == Ok::<Seq<Seg>, GeometryError>(l.segs@)
    &&& all_segs_wf(l.segs@, l.map.linedefs@.len() as int)
    &&& partners_linked(l.segs@)
    &&& (l.root matches Some(n) && build_tree_q(l.segs@, 0) == Ok::<TreeShape, GeometryError>(
        n.model(),
    ) && n.shape_wf() && n.segs_sound_deep())
    &&& blockmap_matches(l.map.vertices@, l.map.linedefs@, l.blocks)
    &&& (l.root matches Some(n) && subsectors_match(
        l.subsectors@,
        leaves_q(n.model()),
        l.map.linedefs@,
        l.map.sidedefs@,
        l.map.sectors@.len() as int,
    ))
}

/// The BSP compiler for one map snapshot: the snapshot, and the artifacts
/// of the last successful build.
pub struct BspLevel {
    /// The read-only map snapshot the compiler consumes.
    pub map: MapSnapshot,
    /// The root of the BSP tree, once built.
    pub root: Option<BspNode>,
    /// One subsector per non-empty tree leaf, in traversal order.
    pub subsectors: Vec<Subsector>,
    /// The blockmap grid over the snapshot's linedefs.
    pub blocks: Block,
    /// The initial seg pool derived from the snapshot's linedefs.
    pub segs: Vec<Seg>,
}

impl BspLevel {
    /// A fresh, unbuilt level over the given snapshot: no tree, no
    /// subsectors, no segs, and an empty blockmap grid.
    pub fn new(map: MapSnapshot) -> (l: BspLevel)
        ensures
            l.map == map,
            l.root is None,
            l.subsectors@.len() == 0,
            l.segs@.len() == 0,
            l.blocks.x == 0 && l.blocks.y == 0 && l.blocks.width == 0 && l.blocks.height == 0
                && l.blocks.cells@.len() == 0,
    {
        BspLevel {
            map,
            root: None,
            subsectors: Vec::new(),
            blocks: Block { x: 0, y: 0, width: 0, height: 0, cells: Vec::new() },
            segs: Vec::new(),
        }
    }

    /// Run the whole pipeline: initial segs from the linedefs, the BSP
    /// tree, the blockmap, and the subsectors.  On success all four
    /// artifacts are replaced together; on any failure the error of the
    /// first failing stage is returned and nothing is published.
    pub fn build(&mut self) -> (r: Result<(), GeometryError>)
        ensures
            final(self).map == old(self).map,
            match r {
                Ok(()) => build_err_q(old(self).map) is None && level_built(*final(self)),
                Err(e) => build_err_q(old(self).map) == Some(e) && *final(self) == *old(self),
            },
    {
        let initial = match create_initial_segs(&self.map.vertices, &self.map.linedefs) {
            Err(e) => {
                return Err(e);
            },
            Ok(s) => s,
        };
        proof {
            assert(segs_sound(initial@));
        }
        let for_tree = copy_segs(&initial);
        let root_node = match build_bsp_tree(for_tree, 0) {
            Err(e) => {
                return Err(e);
            },
            Ok(n) => n,
        };
        let blocks = match build_blockmap(&self.map.vertices, &self.map.linedefs) {
            Err(e) => {
                return Err(e);
            },
            Ok(b) => b,
        };
        let mut subsectors: Vec<Subsector> = Vec::new();
        collect_subsectors(
            &root_node,
            &self.map.linedefs,
            &self.map.sidedefs,
            &self.map.sectors,
            &mut subsectors,
        );
        self.segs = initial;
        self.root = Some(root_node);
        self.blocks = blocks;
        self.subsectors = subsectors;
        proof {
            assert(build_err_q(old(self).map) is None);
            let n = self.root->Some_0;
            assert(subsectors_match(
                self.subsectors@,
                leaves_q(n.model()),
                self.map.linedefs@,
                self.map.sidedefs@,
                self.map.sectors@.len() as int,
            )) by {
                assert forall|i: int| 0 <= i < self.subsectors@.len() implies subsector_matches(
                    #[trigger] self.subsectors@[i],
                    leaves_q(n.model())[i],
                    self.map.linedefs@,
                    self.map.sidedefs@,
                    self.map.sectors@.len() as int,
                ) by {
                    assert(self.subsectors@[0 + i] == self.subsectors@[i]);
                }
            }
            assert(level_built(*self));
        }
        Ok(())
    }

    /// The root BSP node, once a build has succeeded.
    pub fn root_node(&self) -> (r: &Option<BspNode>)
        ensures
            r == &self.root,
    {
        &self.root
    }

    /// The subsectors of the last successful build.
    pub fn subsectors(&self) -> (r: &Vec<Subsector>)
        ensures
            r == &self.subsectors,
    {
        &self.subsectors
    }

    /// The blockmap of the last successful build.
    pub fn blockmap(&self) -> (r: &Block)
        ensures
            r == &self.blocks,
    {
        &self.blocks
    }

    /// The initial seg pool of the last successful build.
    pub fn segments(&self) -> (r: &Vec<Seg>)
        ensures
            r == &self.segs,
    {
        &self.segs
    }
}

} // verus!
