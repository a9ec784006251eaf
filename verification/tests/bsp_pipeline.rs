//! Tests of the BSP pipeline: factory, classifier, splitter, tree,
//! blockmap, subsectors and the facade.

use rust_ed::blockmap::build_blockmap;
use rust_ed::geometry::Line2D;
use rust_ed::level::BspLevel;
use rust_ed::map_data::{LineDef, MapSnapshot, Sector, SideDef, Vertex};
use rust_ed::partition::{classify_seg, split_seg, SegPosition};
use rust_ed::seg::{create_initial_segs, SegmentSide};
use rust_ed::tree::{build_bsp_tree, BspNode};
use rust_ed::GeometryError;

fn sector() -> Sector {
    Sector::new(0, 64, "FLOOR4_8".to_string(), "CEIL3_5".to_string(), 160, 0, 0)
}

fn sidedef(sec: i32) -> SideDef {
    SideDef::new(0, 0, "-".to_string(), "-".to_string(), "STARTAN2".to_string(), sec)
}

/// One-sided linedef with right sidedef `sd`.
fn one_sided(start: usize, end: usize, sd: i32) -> LineDef {
    LineDef::new(start, end, 0x0001, 0, 0, sd, -1)
}

fn square_snapshot() -> MapSnapshot {
    let vertices = vec![
        Vertex::new(0, 0),
        Vertex::new(128, 0),
        Vertex::new(128, 128),
        Vertex::new(0, 128),
    ];
    let linedefs = vec![
        one_sided(0, 1, 0),
        one_sided(1, 2, 0),
        one_sided(2, 3, 0),
        one_sided(3, 0, 0),
    ];
    MapSnapshot::new(vertices, linedefs, vec![sidedef(0)], vec![sector()])
}

#[test]
fn square_room_initial_segs() {
    let m = square_snapshot();
    let segs = create_initial_segs(&m.vertices, &m.linedefs).unwrap();
    assert_eq!(segs.len(), 4);
    for s in segs.iter() {
        assert!(s.partner.is_none());
        assert_eq!(s.side, SegmentSide::Front);
    }
    // Direction and squared length are derived from the endpoints.
    assert_eq!((segs[0].dx.num, segs[0].dx.den), (128, 1));
    assert_eq!((segs[0].dy.num, segs[0].dy.den), (0, 1));
    assert_eq!((segs[0].length_sq.num, segs[0].length_sq.den), (16384, 1));
    // Segs follow linedef order, each from its linedef's start vertex.
    assert_eq!((segs[1].start.x.num, segs[1].start.y.num), (128, 0));
    assert_eq!((segs[1].end.x.num, segs[1].end.y.num), (128, 128));
}

#[test]
fn two_sided_linedef_yields_partnered_pair() {
    let vertices = vec![Vertex::new(0, 0), Vertex::new(128, 0)];
    let linedefs = vec![LineDef::new(0, 1, 0x0004, 0, 0, 0, 1)];
    let segs = create_initial_segs(&vertices, &linedefs).unwrap();
    assert_eq!(segs.len(), 2);
    assert_eq!(segs[0].partner, Some(1));
    assert_eq!(segs[1].partner, Some(0));
    assert_eq!(segs[0].side, SegmentSide::Front);
    assert_eq!(segs[1].side, SegmentSide::Back);
    assert_eq!(segs[0].linedef, segs[1].linedef);
    // The back seg is reversed, preserving right-hand winding.
    assert_eq!(segs[0].start.x.num, segs[1].end.x.num);
    assert_eq!(segs[0].end.x.num, segs[1].start.x.num);
}

#[test]
fn invalid_vertex_reference_aborts_factory() {
    let vertices = vec![
        Vertex::new(0, 0),
        Vertex::new(128, 0),
        Vertex::new(128, 128),
        Vertex::new(0, 128),
    ];
    let linedefs = vec![one_sided(0, 99, 0)];
    let r = create_initial_segs(&vertices, &linedefs);
    assert_eq!(r.unwrap_err(), GeometryError::InvalidGeometry);
}

#[test]
fn degenerate_reference_publishes_nothing() {
    let vertices = vec![
        Vertex::new(0, 0),
        Vertex::new(128, 0),
        Vertex::new(128, 128),
        Vertex::new(0, 128),
    ];
    let linedefs = vec![one_sided(0, 99, 0)];
    let m = MapSnapshot::new(vertices, linedefs, vec![sidedef(0)], vec![sector()]);
    let mut level = BspLevel::new(m);
    let r = level.build();
    assert_eq!(r.unwrap_err(), GeometryError::InvalidGeometry);
    assert!(level.root_node().is_none());
    assert!(level.subsectors().is_empty());
    assert!(level.segments().is_empty());
    assert_eq!(level.blockmap().width, 0);
}

fn seg_of(v1: (i32, i32), v2: (i32, i32)) -> rust_ed::Seg {
    let vertices = vec![Vertex::new(v1.0, v1.1), Vertex::new(v2.0, v2.1)];
    let linedefs = vec![one_sided(0, 1, 0)];
    let segs = create_initial_segs(&vertices, &linedefs).unwrap();
    segs[0]
}

#[test]
fn classification_covers_all_four_classes() {
    // Partition along the x axis; the front side has negative y.
    let part = Line2D::from_seg(&seg_of((0, 0), (128, 0)));
    let front = seg_of((0, -64), (128, -64));
    let back = seg_of((0, 64), (128, 64));
    let spanning = seg_of((64, -32), (64, 32));
    let coincident = seg_of((32, 0), (96, 0));
    assert_eq!(classify_seg(&front, &part), Ok(SegPosition::Front));
    assert_eq!(classify_seg(&back, &part), Ok(SegPosition::Back));
    assert_eq!(classify_seg(&spanning, &part), Ok(SegPosition::Spanning));
    assert_eq!(classify_seg(&coincident, &part), Ok(SegPosition::Coincident));
    // One endpoint on the line routes the seg by the other endpoint.
    let touching_front = seg_of((0, 0), (64, -64));
    assert_eq!(classify_seg(&touching_front, &part), Ok(SegPosition::Front));
    let touching_back = seg_of((0, 0), (64, 64));
    assert_eq!(classify_seg(&touching_back, &part), Ok(SegPosition::Back));
}

#[test]
fn split_spanning_seg_at_intersection() {
    let part = Line2D::from_seg(&seg_of((-64, 0), (64, 0)));
    let spanning = seg_of((0, -64), (0, 64));
    assert_eq!(classify_seg(&spanning, &part), Ok(SegPosition::Spanning));
    let (f, b) = split_seg(&spanning, &part).unwrap();
    // The fragments' endpoint union is the original endpoints plus the
    // intersection point (0, 0).
    assert_eq!((f.start.x.num, f.start.y.num), (0, -64));
    assert_eq!((f.end.x.num, f.end.x.den), (0, 1));
    assert_eq!((f.end.y.num, f.end.y.den), (0, 1));
    assert_eq!((b.start.x.num, b.start.y.num), (0, 0));
    assert_eq!((b.end.x.num, b.end.y.num), (0, 64));
    // Fragments inherit linedef and side, with fields recomputed.
    assert_eq!(f.linedef, spanning.linedef);
    assert_eq!(f.side, spanning.side);
    assert_eq!((f.length_sq.num, f.length_sq.den), (4096, 1));
    assert_eq!((b.length_sq.num, b.length_sq.den), (4096, 1));
    // Each fragment reclassifies as non-spanning against the partition.
    assert_ne!(classify_seg(&f, &part), Ok(SegPosition::Spanning));
    assert_ne!(classify_seg(&b, &part), Ok(SegPosition::Spanning));
}

#[test]
fn split_without_unique_intersection_fails() {
    let part = Line2D::from_seg(&seg_of((0, 0), (128, 0)));
    let parallel = seg_of((0, -64), (128, -64));
    assert_eq!(split_seg(&parallel, &part), Err(GeometryError::SplitFailure));
}

#[test]
fn small_lists_become_leaves() {
    let vertices = vec![Vertex::new(0, 0), Vertex::new(128, 0), Vertex::new(64, 64)];
    let linedefs = vec![one_sided(0, 1, 0), one_sided(1, 2, 0), one_sided(2, 0, 0)];
    let segs = create_initial_segs(&vertices, &linedefs).unwrap();
    let node = build_bsp_tree(segs, 0).unwrap();
    assert!(node.is_leaf());
    assert!(node.partition.is_none());
    assert!(node.front.is_none());
    assert!(node.back.is_none());
    assert_eq!(node.segs.len(), 3);
    let empty = build_bsp_tree(Vec::new(), 0).unwrap();
    assert!(empty.is_leaf());
    assert!(empty.segs.is_empty());
}

#[test]
fn depth_limit_stops_non_reducing_input() {
    // Five coincident walls on one line: every recursion level sees the
    // same list on both sides, so the build must fail at the depth bound
    // instead of looping.
    let vertices = vec![Vertex::new(0, 0), Vertex::new(128, 0)];
    let linedefs = vec![
        one_sided(0, 1, 0),
        one_sided(0, 1, 0),
        one_sided(0, 1, 0),
        one_sided(0, 1, 0),
        one_sided(0, 1, 0),
    ];
    let segs = create_initial_segs(&vertices, &linedefs).unwrap();
    let r = build_bsp_tree(segs, 0);
    assert_eq!(r.unwrap_err(), GeometryError::DepthExceeded);
}

fn count_leaf_segs(node: &BspNode) -> usize {
    if node.is_leaf() {
        node.segs.len()
    } else {
        count_leaf_segs(node.front.as_ref().unwrap())
            + count_leaf_segs(node.back.as_ref().unwrap())
    }
}

fn assert_same_shape(a: &BspNode, b: &BspNode) {
    assert_eq!(a.partition, b.partition);
    assert_eq!(a.segs.len(), b.segs.len());
    for (x, y) in a.segs.iter().zip(b.segs.iter()) {
        assert_eq!(x.start, y.start);
        assert_eq!(x.end, y.end);
        assert_eq!(x.linedef, y.linedef);
        assert_eq!(x.side, y.side);
    }
    assert_eq!(a.front.is_some(), b.front.is_some());
    assert_eq!(a.back.is_some(), b.back.is_some());
    if let (Some(af), Some(bf)) = (&a.front, &b.front) {
        assert_same_shape(af, bf);
    }
    if let (Some(ab), Some(bb)) = (&a.back, &b.back) {
        assert_same_shape(ab, bb);
    }
}

/// A map that builds successfully with one genuine split: a partition
/// wall, one wall on each side, and one wall spanning the partition.
fn splitting_snapshot() -> MapSnapshot {
    let vertices = vec![
        Vertex::new(0, 0),
        Vertex::new(128, 0),
        Vertex::new(0, -64),
        Vertex::new(128, -64),
        Vertex::new(0, 64),
        Vertex::new(128, 64),
        Vertex::new(64, -32),
        Vertex::new(64, 32),
    ];
    let linedefs = vec![
        // The partition wall's sidedef reference dangles on purpose, so
        // sector resolution falls through to the later segs of each leaf.
        one_sided(0, 1, 99),
        one_sided(2, 3, 0),
        one_sided(4, 5, 1),
        one_sided(6, 7, 0),
    ];
    MapSnapshot::new(
        vertices,
        linedefs,
        vec![sidedef(0), sidedef(1)],
        vec![sector(), sector()],
    )
}

#[test]
fn build_with_split_yields_branch_and_subsectors() {
    let mut level = BspLevel::new(splitting_snapshot());
    assert!(level.build().is_ok());
    assert_eq!(level.segments().len(), 4);
    let root = level.root_node().as_ref().unwrap();
    assert!(!root.is_leaf());
    assert!(root.partition.is_some());
    let front = root.front.as_ref().unwrap();
    let back = root.back.as_ref().unwrap();
    assert!(front.is_leaf());
    assert!(back.is_leaf());
    // Coincident partition wall in both leaves, one plain wall each, and
    // one fragment of the split wall each.
    assert_eq!(front.segs.len(), 3);
    assert_eq!(back.segs.len(), 3);
    assert!(count_leaf_segs(root) >= 4);
    // One subsector per non-empty leaf, resolving to different sectors.
    let subs = level.subsectors();
    assert_eq!(subs.len(), 2);
    assert_eq!(subs[0].sector, Some(0));
    assert_eq!(subs[1].sector, Some(1));
    assert_eq!(subs[0].segs.len(), 3);
    assert_eq!(subs[1].segs.len(), 3);
}

#[test]
fn build_twice_gives_identical_trees() {
    let mut level1 = BspLevel::new(splitting_snapshot());
    let mut level2 = BspLevel::new(splitting_snapshot());
    assert!(level1.build().is_ok());
    assert!(level2.build().is_ok());
    let r1 = level1.root_node().as_ref().unwrap();
    let r2 = level2.root_node().as_ref().unwrap();
    assert_same_shape(r1, r2);
}

#[test]
fn blockmap_grid_and_cells() {
    let m = splitting_snapshot();
    let block = build_blockmap(&m.vertices, &m.linedefs).unwrap();
    // Bounds: x in [0, 128], y in [-64, 64]; anchored at the floor in
    // block units, one column and one row covering each 128-unit band.
    assert_eq!(block.x, 0);
    assert_eq!(block.y, -1);
    assert_eq!(block.width, 1);
    assert_eq!(block.height, 1);
    assert_eq!(block.cells.len(), 1);
    // Every linedef touches the single cell (its square spans y in
    // [-128, 0]); walls strictly above it do not.
    let cell = block.cell_at(0, -1).unwrap();
    assert_eq!(cell.as_slice(), &[0, 1, 3]);
    assert!(block.cell_at(1, -1).is_none());
    assert!(block.cell_at(0, 0).is_none());
}

#[test]
fn blockmap_empty_map() {
    let block = build_blockmap(&Vec::new(), &Vec::new()).unwrap();
    assert_eq!(block.width, 0);
    assert_eq!(block.height, 0);
    assert!(block.cells.is_empty());
}

#[test]
fn get_cell_mut_edits_one_cell() {
    let m = splitting_snapshot();
    let mut block = build_blockmap(&m.vertices, &m.linedefs).unwrap();
    assert!(block.get_cell_mut(2, 2).is_none());
    let cell = block.get_cell_mut(0, -1).unwrap();
    cell.push(77);
    assert_eq!(block.cell_at(0, -1).unwrap().as_slice(), &[0, 1, 3, 77]);
}

#[test]
fn square_room_exhausts_depth() {
    // The first-segment partition keeps the coincident partition wall on
    // both sides, so a four-wall room never reduces below the leaf
    // threshold on its back side and the depth guard fires.
    let mut level = BspLevel::new(square_snapshot());
    let r = level.build();
    assert_eq!(r.unwrap_err(), GeometryError::DepthExceeded);
    assert!(level.root_node().is_none());
}

#[test]
fn error_messages_name_the_failure() {
    assert_eq!(
        GeometryError::DepthExceeded.message(),
        "reached the BSP depth limit"
    );
    assert_eq!(
        GeometryError::SplitFailure.message(),
        "cannot split seg: no single intersection found"
    );
    assert_eq!(
        GeometryError::InvalidGeometry.message(),
        "linedef references an invalid vertex index"
    );
}
