//! The blockmap: a uniform spatial grid over the map's linedefs.
//!
//! The grid covers the map bounding box at `BLOCK_SIZE` resolution,
//! anchored at the floor of the minimum corner in block units, with
//! `ceil(width / BLOCK_SIZE) * ceil(height / BLOCK_SIZE)` cells stored
//! row-major from the anchor.  Each cell lists, in order, the indices of
//! the linedefs whose segment meets the cell's closed square.

use vstd::prelude::*;

verus! {

use vstd::arithmetic::div_mod::{
    lemma_div_is_ordered,
    lemma_div_nonincreasing,
    lemma_div_pos_is_pos,
    lemma_fundamental_div_mod,
    lemma_fundamental_div_mod_converse,
};
use crate::errors::GeometryError;
use crate::geometry::{BoundingBox, expand_q};
use crate::map_data::{LineDef, Vertex};
use crate::rat::{Rat, le_q};
use crate::seg::vertex_point;

/// Side of a blockmap grid cell, in map units.
pub const BLOCK_SIZE: i32 = 128;

/// The blockmap grid.
#[derive(Debug)]
pub struct Block {
    /// Grid anchor in block units: the floor of the minimum x in blocks.
    pub x: i32,
    /// Grid anchor in block units: the floor of the minimum y in blocks.
    pub y: i32,
    /// Number of grid columns.
    pub width: i32,
    /// Number of grid rows.
    pub height: i32,
    /// Row-major cells; each holds the indices of the linedefs meeting it.
    pub cells: Vec<Vec<usize>>,
}

/// The bounds are integer-valued rationals within the 32-bit coordinate
/// range, ordered corner to corner — exactly what a bounding box of map
/// vertices looks like.
pub open spec fn integer_bounds(b: BoundingBox) -> bool {
    &&& b.wf()
    &&& b.min_x.den == 1 && b.min_y.den == 1 && b.max_x.den == 1 && b.max_y.den == 1
    &&& -0x8000_0000 <= b.min_x.num <= 0x7fff_ffff
    &&& -0x8000_0000 <= b.min_y.num <= 0x7fff_ffff
    &&& -0x8000_0000 <= b.max_x.num <= 0x7fff_ffff
    &&& -0x8000_0000 <= b.max_y.num <= 0x7fff_ffff
    &&& b.min_x.num <= b.max_x.num
    &&& b.min_y.num <= b.max_y.num
}

/// The grid anchor: the floor of the minimum x in block units.
pub open spec fn grid_x_q(b: BoundingBox) -> int {
    b.min_x.num as int / 128
}

/// The grid anchor: the floor of the minimum y in block units.
pub open spec fn grid_y_q(b: BoundingBox) -> int {
    b.min_y.num as int / 128
}

/// The number of grid columns: the width in map units, divided by the
/// block size and rounded up.
pub open spec fn grid_w_q(b: BoundingBox) -> int {
    -((-(b.max_x.num - b.min_x.num)) / 128)
}

/// The number of grid rows: the height in map units, divided by the
/// block size and rounded up.
pub open spec fn grid_h_q(b: BoundingBox) -> int {
    -((-(b.max_y.num - b.min_y.num)) / 128)
}

/// Floor division of `n` by a positive divisor.
fn floor_div_i64(n: i64, d: i64) -> (q: i64)
    requires
        1 <= d <= 0x4000_0000_0000_0000,
        -0x4000_0000_0000_0000 <= n <= 0x4000_0000_0000_0000,
    ensures
        q == n as int / d as int,
        -0x4000_0000_0000_0000 <= q <= 0x4000_0000_0000_0000,
{
    if n >= 0 {
        let q0 = (n as u64) / (d as u64);
        proof {
            lemma_div_nonincreasing(n as int, d as int);
            lemma_div_pos_is_pos(n as int, d as int);
        }
        q0 as i64
    } else {
        let m = (-n) as u64;
        let q0 = (m + (d as u64) - 1) / (d as u64);
        proof {
            let mi = m as int;
            let di = d as int;
            let qi = (mi + di - 1) / di;
            let ri = (mi + di - 1) % di;
            lemma_fundamental_div_mod(mi + di - 1, di);
            lemma_div_pos_is_pos(mi + di - 1, di);
            assert(qi <= mi) by (nonlinear_arith)
                requires
                    di >= 1,
                    mi >= 1,
                    qi >= 0,
                    mi + di - 1 == di * qi + ri,
                    0 <= ri < di,
            ;
            assert(di * (-qi) == -(di * qi)) by (nonlinear_arith);
            assert(n as int == di * (-qi) + (di - 1 - ri));
            lemma_fundamental_div_mod_converse(n as int, di, -qi, di - 1 - ri);
        }
        -(q0 as i64)
    }
}

/// Ceiling division of `n` by a positive divisor, as `-((-n) / d)`.
fn ceil_div_i64(n: i64, d: i64) -> (q: i64)
    requires
        1 <= d <= 0x4000_0000_0000_0000,
        -0x4000_0000_0000_0000 <= n <= 0x4000_0000_0000_0000,
    ensures
        q == -((-(n as int)) / d as int),
        -0x4000_0000_0000_0000 <= q <= 0x4000_0000_0000_0000,
{
    let f = floor_div_i64(-n, d);
    -f
}

/// The signed area of the corner `(cx, cy)` against the directed line
/// through `(x1, y1)` and `(x2, y2)`.
pub open spec fn corner_side(x1: int, y1: int, x2: int, y2: int, cx: int, cy: int) -> int {
    (x2 - x1) * (cy - y1) - (y2 - y1) * (cx - x1)
}

/// Whether the closed segment from `(x1, y1)` to `(x2, y2)` meets the
/// closed square with corners `(bx0, by0)` and `(bx0 + 128, by0 + 128)`:
/// the extents overlap on both axes, and the four square corners do not
/// all lie strictly on one side of the segment's line.
pub open spec fn seg_box_overlap(
    x1: int,
    y1: int,
    x2: int,
    y2: int,
    bx0: int,
    by0: int,
) -> bool {
    let bx1 = bx0 + 128;
    let by1 = by0 + 128;
    let s1 = corner_side(x1, y1, x2, y2, bx0, by0);
    let s2 = corner_side(x1, y1, x2, y2, bx1, by0);
    let s3 = corner_side(x1, y1, x2, y2, bx0, by1);
    let s4 = corner_side(x1, y1, x2, y2, bx1, by1);
    &&& (if x1 <= x2 {
        x1 <= bx1 && x2 >= bx0
    } else {
        x2 <= bx1 && x1 >= bx0
    })
    &&& (if y1 <= y2 {
        y1 <= by1 && y2 >= by0
    } else {
        y2 <= by1 && y1 >= by0
    })
    &&& !(s1 > 0 && s2 > 0 && s3 > 0 && s4 > 0)
    &&& !(s1 < 0 && s2 < 0 && s3 < 0 && s4 < 0)
}

/// Whether linedef `ld` meets the cell square anchored at `(bx0, by0)`.
pub open spec fn linedef_in_cell(verts: Seq<Vertex>, ld: LineDef, bx0: int, by0: int) -> bool {
    let sv = verts[ld.start as int];
    let ev = verts[ld.end as int];
    seg_box_overlap(sv.x as int, sv.y as int, ev.x as int, ev.y as int, bx0, by0)
}

/// The indices, in order, of the first `j` linedefs meeting the cell
/// square anchored at `(bx0, by0)`.
pub open spec fn cell_lds_q(
    verts: Seq<Vertex>,
    lds: Seq<LineDef>,
    bx0: int,
    by0: int,
    j: int,
) -> Seq<usize>
    decreases j,
{
    if j <= 0 {
        Seq::empty()
    } else {
        let prefix = cell_lds_q(verts, lds, bx0, by0, j - 1);
        if linedef_in_cell(verts, lds[j - 1], bx0, by0) {
            prefix.push((j - 1) as usize)
        } else {
            prefix
        }
    }
}

/// Every linedef's vertex indices are in range.
pub open spec fn lds_valid(lds: Seq<LineDef>, n_vertices: int) -> bool {
    forall|i: int|
        0 <= i < lds.len() ==> (#[trigger] lds[i]).start < n_vertices && lds[i].end < n_vertices
}

/// Whether linedef endpoints are in range, checked one by one.
fn check_linedefs(vertices: &Vec<Vertex>, linedefs: &Vec<LineDef>) -> (ok: bool)
    ensures
        ok == lds_valid(linedefs@, vertices@.len() as int),
{
    let n = linedefs.len();
    let mut i: usize = 0;
    while i < n
        invariant
            0 <= i <= n,
            n == linedefs@.len(),
            forall|k: int|
                0 <= k < i ==> (#[trigger] linedefs@[k]).start < vertices@.len()
                    && linedefs@[k].end < vertices@.len(),
        decreases n - i,
    {
        if linedefs[i].start >= vertices.len() || linedefs[i].end >= vertices.len() {
            return false;
        }
        i = i + 1;
    }
    true
}

/// The bounding box of the first `j` vertices (`j >= 1`).
pub open spec fn bounds_q(verts: Seq<Vertex>, j: int) -> BoundingBox
    decreases j,
{
    if j <= 1 {
        let p = vertex_point(verts[0]);
        BoundingBox { min_x: p.x, min_y: p.y, max_x: p.x, max_y: p.y }
    } else {
        let p = vertex_point(verts[j - 1]);
        expand_q(bounds_q(verts, j - 1), p.x, p.y)
    }
}

/// The bounding box of all map vertices, or `None` for an empty map.
pub fn compute_map_bounds(vertices: &Vec<Vertex>) -> (r: Option<BoundingBox>)
    ensures
        vertices@.len() == 0 ==> r is None,
        vertices@.len() > 0 ==> r == Some(bounds_q(vertices@, vertices@.len() as int))
            && integer_bounds(bounds_q(vertices@, vertices@.len() as int)),
{
    if vertices.len() == 0 {
        return None;
    }
    let v0 = &vertices[0];
    let p0 = crate::geometry::Point2D {
        x: Rat::from_int(v0.x as i64),
        y: Rat::from_int(v0.y as i64),
    };
    let mut bb = BoundingBox::of_point(&p0);
    let n = vertices.len();
    let mut i: usize = 1;
    while i < n
        invariant
            1 <= i <= n,
            n == vertices@.len(),
            bb == bounds_q(vertices@, i as int),
            integer_bounds(bb),
        decreases n - i,
    {
        let v = &vertices[i];
        let x = Rat::from_int(v.x as i64);
        let y = Rat::from_int(v.y as i64);
        bb.expand_point(&x, &y);
        i = i + 1;
    }
    Some(bb)
}

/// The grid the blockmap builder produces: anchor and dimensions from the
/// vertex bounding box, and each row-major cell holding exactly the
/// indices of the linedefs that meet its square, in index order.  An
/// empty map gets the empty grid.
pub open spec fn blockmap_cells_ok(verts: Seq<Vertex>, lds: Seq<LineDef>, b: Block) -> bool {
    forall|k: int|
        0 <= k < b.cells@.len() ==> (#[trigger] b.cells@[k])@ == cell_lds_q(
            verts,
            lds,
            (b.x + k % (b.width as int)) * 128,
            (b.y + k / (b.width as int)) * 128,
            lds.len() as int,
        )
}

pub open spec fn blockmap_matches(verts: Seq<Vertex>, lds: Seq<LineDef>, b: Block) -> bool {
    if verts.len() == 0 {
        b.x == 0 && b.y == 0 && b.width == 0 && b.height == 0 && b.cells@.len() == 0
    } else {
        &&& b.x == grid_x_q(bounds_q(verts, verts.len() as int))
        &&& b.y == grid_y_q(bounds_q(verts, verts.len() as int))
        &&& b.width == grid_w_q(bounds_q(verts, verts.len() as int))
        &&& b.height == grid_h_q(bounds_q(verts, verts.len() as int))
        &&& b.cells@.len() == grid_w_q(bounds_q(verts, verts.len() as int)) * grid_h_q(
            bounds_q(verts, verts.len() as int),
        )
        &&& blockmap_cells_ok(verts, lds, b)
    }
}

/// Whether the linedef from `sv` to `ev` meets the cell square anchored
/// at `(bx0, by0)`.
fn linedef_cell_overlap(sv: &Vertex, ev: &Vertex, bx0: i64, by0: i64) -> (r: bool)
    requires
        -0x40_0000_0000 <= bx0 <= 0x40_0000_0000,
        -0x40_0000_0000 <= by0 <= 0x40_0000_0000,
    ensures
        r == seg_box_overlap(sv.x as int, sv.y as int, ev.x as int, ev.y as int, bx0 as int, by0 as int),
{
    let x1 = sv.x as i64;
    let y1 = sv.y as i64;
    let x2 = ev.x as i64;
    let y2 = ev.y as i64;
    let bx1 = bx0 + 128;
    let by1 = by0 + 128;
    let x_overlap = if x1 <= x2 {
        x1 <= bx1 && x2 >= bx0
    } else {
        x2 <= bx1 && x1 >= bx0
    };
    let y_overlap = if y1 <= y2 {
        y1 <= by1 && y2 >= by0
    } else {
        y2 <= by1 && y1 >= by0
    };
    if !x_overlap || !y_overlap {
        return false;
    }
    proof {
        crate::rat::lemma_mul_bound((x2 - x1) as int, (by0 - y1) as int, 0x1_0000_0000, 0x10_0000_0000);
        crate::rat::lemma_mul_bound((x2 - x1) as int, (by1 - y1) as int, 0x1_0000_0000, 0x10_0000_0000);
        crate::rat::lemma_mul_bound((y2 - y1) as int, (bx0 - x1) as int, 0x1_0000_0000, 0x10_0000_0000);
        crate::rat::lemma_mul_bound((y2 - y1) as int, (bx1 - x1) as int, 0x1_0000_0000, 0x10_0000_0000);
    }
    let dx = (x2 - x1) as i128;
    let dy = (y2 - y1) as i128;
    let s1 = dx * ((by0 - y1) as i128) - dy * ((bx0 - x1) as i128);
    let s2 = dx * ((by0 - y1) as i128) - dy * ((bx1 - x1) as i128);
    let s3 = dx * ((by1 - y1) as i128) - dy * ((bx0 - x1) as i128);
    let s4 = dx * ((by1 - y1) as i128) - dy * ((bx1 - x1) as i128);
    let all_pos = s1 > 0 && s2 > 0 && s3 > 0 && s4 > 0;
    let all_neg = s1 < 0 && s2 < 0 && s3 < 0 && s4 < 0;
    !all_pos && !all_neg
}

/// Build the blockmap: the grid over the vertex bounding box, each cell
/// listing the linedefs that meet it.  Fails with `InvalidGeometry` when
/// a linedef references a missing vertex, and with `Overflow` when the
/// grid would not fit in memory's index range.
pub fn build_blockmap(vertices: &Vec<Vertex>, linedefs: &Vec<LineDef>) -> (r: Result<
    Block,
    GeometryError,
>)
    ensures
        match r {
            Ok(b) => lds_valid(linedefs@, vertices@.len() as int) && blockmap_matches(
                vertices@,
                linedefs@,
                b,
            ) && (vertices@.len() > 0 ==> grid_w_q(bounds_q(vertices@, vertices@.len() as int))
                * grid_h_q(bounds_q(vertices@, vertices@.len() as int)) <= usize::MAX),
            Err(e) => {
                ||| (e == GeometryError::InvalidGeometry && !lds_valid(
                    linedefs@,
                    vertices@.len() as int,
                ))
                ||| (e == GeometryError::Overflow && lds_valid(linedefs@, vertices@.len() as int)
                    && vertices@.len() > 0 && grid_w_q(
                    bounds_q(vertices@, vertices@.len() as int),
                ) * grid_h_q(bounds_q(vertices@, vertices@.len() as int)) > usize::MAX)
            },
        },
{
    if !check_linedefs(vertices, linedefs) {
        return Err(GeometryError::InvalidGeometry);
    }
    let bounds = match compute_map_bounds(vertices) {
        None => {
            let b = Block { x: 0, y: 0, width: 0, height: 0, cells: Vec::new() };
            proof {
                assert(b.cells@ =~= Seq::<Vec<usize>>::empty());
            }
            return Ok(b);
        },
        Some(bb) => bb,
    };
    let w64 = ceil_div_i64(bounds.max_x.num - bounds.min_x.num, 128);
    let h64 = ceil_div_i64(bounds.max_y.num - bounds.min_y.num, 128);
    proof {
        crate::rat::lemma_mul_bound(w64 as int, h64 as int, 0x2000_0001, 0x2000_0001);
        lemma_div_is_ordered(
            -(bounds.max_x.num - bounds.min_x.num) as int,
            0,
            128,
        );
        lemma_div_is_ordered(
            -0x1_0000_0000,
            -(bounds.max_x.num - bounds.min_x.num) as int,
            128,
        );
        lemma_div_is_ordered(
            -(bounds.max_y.num - bounds.min_y.num) as int,
            0,
            128,
        );
        lemma_div_is_ordered(
            -0x1_0000_0000,
            -(bounds.max_y.num - bounds.min_y.num) as int,
            128,
        );
        assert(0int / 128 == 0) by {
            lemma_fundamental_div_mod_converse(0, 128, 0, 0);
        }
        assert((-0x1_0000_0000) / 128int == -0x200_0000) by {
            lemma_fundamental_div_mod_converse(-0x1_0000_0000, 128, -0x200_0000, 0);
        }
    }
    if (w64 as u64) * (h64 as u64) > (usize::MAX as u64) {
        return Err(GeometryError::Overflow);
    }
    let mut block = Block::new(&bounds);
    let ghost bb = bounds;
    let w: usize = block.width as usize;
    let h: usize = block.height as usize;
    let gx = block.x;
    let gy = block.y;
    let n_lds = linedefs.len();
    let mut built: Vec<Vec<usize>> = Vec::new();
    let mut cy: usize = 0;
    while cy < h
        invariant
            0 <= cy <= h,
            w == grid_w_q(bb),
            h == grid_h_q(bb),
            gx == grid_x_q(bb),
            gy == grid_y_q(bb),
            integer_bounds(bb),
            n_lds == linedefs@.len(),
            lds_valid(linedefs@, vertices@.len() as int),
            built@.len() == cy * w,
            cy * w <= w * h,
            forall|k: int|
                0 <= k < built@.len() ==> (#[trigger] built@[k])@ == cell_lds_q(
                    vertices@,
                    linedefs@,
                    (gx + k % (w as int)) * 128,
                    (gy + k / (w as int)) * 128,
                    n_lds as int,
                ),
        decreases h - cy,
    {
        let mut cx: usize = 0;
        proof {
            assert((cy + 1) * w == cy * w + w) by (nonlinear_arith);
            assert((cy + 1) * w <= h * w) by (nonlinear_arith)
                requires
                    cy + 1 <= h,
                    w >= 0,
            ;
            assert(h * w == w * h) by (nonlinear_arith);
        }
        while cx < w
            invariant
                0 <= cx <= w,
                0 <= cy < h,
                w == grid_w_q(bb),
                h == grid_h_q(bb),
                gx == grid_x_q(bb),
                gy == grid_y_q(bb),
                integer_bounds(bb),
                n_lds == linedefs@.len(),
                lds_valid(linedefs@, vertices@.len() as int),
                built@.len() == cy * w + cx,
                cy * w + w <= w * h,
                forall|k: int|
                    0 <= k < built@.len() ==> (#[trigger] built@[k])@ == cell_lds_q(
                        vertices@,
                        linedefs@,
                        (gx + k % (w as int)) * 128,
                        (gy + k / (w as int)) * 128,
                        n_lds as int,
                    ),
            decreases w - cx,
        {
            let bx0 = ((gx as i64) + (cx as i64)) * 128;
            let by0 = ((gy as i64) + (cy as i64)) * 128;
            let mut cell: Vec<usize> = Vec::new();
            let mut l: usize = 0;
            while l < n_lds
                invariant
                    0 <= l <= n_lds,
                    n_lds == linedefs@.len(),
                    lds_valid(linedefs@, vertices@.len() as int),
                    -0x40_0000_0000 <= bx0 <= 0x40_0000_0000,
                    -0x40_0000_0000 <= by0 <= 0x40_0000_0000,
                    cell@ == cell_lds_q(vertices@, linedefs@, bx0 as int, by0 as int, l as int),
                decreases n_lds - l,
            {
                let ld = &linedefs[l];
                let sv = &vertices[ld.start];
                let ev = &vertices[ld.end];
                if linedef_cell_overlap(sv, ev, bx0, by0) {
                    cell.push(l);
                }
                l = l + 1;
            }
            built.push(cell);
            proof {
                let k = cy * w + cx;
                lemma_fundamental_div_mod_converse(k as int, w as int, cy as int, cx as int);
                assert forall|j: int| 0 <= j < built@.len() implies (#[trigger] built@[j])@
                    == cell_lds_q(
                    vertices@,
                    linedefs@,
                    (gx + j % (w as int)) * 128,
                    (gy + j / (w as int)) * 128,
                    n_lds as int,
                ) by {
                    if j < built@.len() - 1 {
                        assert(built@[j] == built@.subrange(0, built@.len() - 1)[j]);
                    }
                }
            }
            cx = cx + 1;
        }
        cy = cy + 1;
        proof {
            assert(cy * w == (cy - 1) * w + w) by (nonlinear_arith);
        }
    }
    block.cells = built;
    proof {
        assert(built@.len() == h * w) by {
            assert(h * w == w * h) by (nonlinear_arith);
        }
        assert(blockmap_cells_ok(vertices@, linedefs@, block)) by {
            assert forall|k: int| 0 <= k < block.cells@.len() implies (
            #[trigger] block.cells@[k])@ == cell_lds_q(
                vertices@,
                linedefs@,
                (block.x + k % (block.width as int)) * 128,
                (block.y + k / (block.width as int)) * 128,
                linedefs@.len() as int,
            ) by {
                assert(built@[k]@ == cell_lds_q(
                    vertices@,
                    linedefs@,
                    (gx + k % (w as int)) * 128,
                    (gy + k / (w as int)) * 128,
                    n_lds as int,
                ));
            }
        }
        let bbq = bounds_q(vertices@, vertices@.len() as int);
        assert(bbq == bb);
        assert(block.cells@.len() == grid_w_q(bbq) * grid_h_q(bbq)) by {
            assert(built@.len() == (h as int) * (w as int));
            assert((h as int) * (w as int) == (w as int) * (h as int)) by (nonlinear_arith);
        }
        assert(blockmap_matches(vertices@, linedefs@, block));
    }
    Ok(block)
}

impl Block {
    /// An empty grid with the anchor and dimensions of the given bounds
    /// and all cells empty.
    pub fn new(bounds: &BoundingBox) -> (b: Block)
        requires
            integer_bounds(*bounds),
            grid_w_q(*bounds) * grid_h_q(*bounds) <= usize::MAX,
        ensures
            b.x == grid_x_q(*bounds),
            b.y == grid_y_q(*bounds),
            b.width == grid_w_q(*bounds),
            b.height == grid_h_q(*bounds),
            b.cells@.len() == grid_w_q(*bounds) * grid_h_q(*bounds),
            forall|k: int| 0 <= k < b.cells@.len() ==> (#[trigger] b.cells@[k])@ =~= Seq::<
                usize,
            >::empty(),
    {
        proof {
            lemma_div_is_ordered(-0x8000_0000, bounds.min_x.num as int, 128);
            lemma_div_is_ordered(bounds.min_x.num as int, 0x7fff_ffff, 128);
            lemma_div_is_ordered(-0x8000_0000, bounds.min_y.num as int, 128);
            lemma_div_is_ordered(bounds.min_y.num as int, 0x7fff_ffff, 128);
            lemma_div_is_ordered(
                -(bounds.max_x.num - bounds.min_x.num) as int,
                0,
                128,
            );
            lemma_div_is_ordered(
                -0x1_0000_0000,
                -(bounds.max_x.num - bounds.min_x.num) as int,
                128,
            );
            lemma_div_is_ordered(
                -(bounds.max_y.num - bounds.min_y.num) as int,
                0,
                128,
            );
            lemma_div_is_ordered(
                -0x1_0000_0000,
                -(bounds.max_y.num - bounds.min_y.num) as int,
                128,
            );
            assert(0int / 128 == 0) by {
                lemma_fundamental_div_mod_converse(0, 128, 0, 0);
            }
            assert((-0x1_0000_0000) / 128int == -0x200_0000) by {
                lemma_fundamental_div_mod_converse(-0x1_0000_0000, 128, -0x200_0000, 0);
            }
        }
        let x = floor_div_i64(bounds.min_x.num, 128) as i32;
        let y = floor_div_i64(bounds.min_y.num, 128) as i32;
        let w = ceil_div_i64(bounds.max_x.num - bounds.min_x.num, 128) as i32;
        let h = ceil_div_i64(bounds.max_y.num - bounds.min_y.num, 128) as i32;
        let size = (w as usize) * (h as usize);
        let mut cells: Vec<Vec<usize>> = Vec::new();
        let mut k: usize = 0;
        while k < size
            invariant
                0 <= k <= size,
                cells@.len() == k,
                forall|j: int| 0 <= j < k ==> (#[trigger] cells@[j])@ =~= Seq::<usize>::empty(),
            decreases size - k,
        {
            cells.push(Vec::new());
            k = k + 1;
        }
        Block { x, y, width: w, height: h, cells }
    }

    /// The model of cell lookup: the row-major index of `(cx, cy)` in
    /// grid coordinates, or nothing when it falls outside the grid or
    /// past the cell vector.
    pub open spec fn cell_index_q(self, cx: int, cy: int) -> Option<int> {
        let rel_x = cx - self.x;
        let rel_y = cy - self.y;
        if 0 <= rel_x < self.width && 0 <= rel_y < self.height && rel_y * self.width + rel_x
            < self.cells@.len() {
            Some(rel_y * self.width + rel_x)
        } else {
            None
        }
    }

    /// The cell at grid coordinates `(cx, cy)`, or `None` out of range.
    pub fn cell_at(&self, cx: i32, cy: i32) -> (r: Option<&Vec<usize>>)
        ensures
            match r {
                Some(c) => self.cell_index_q(cx as int, cy as int) matches Some(k) && *c
                    == self.cells@[k],
                None => self.cell_index_q(cx as int, cy as int) is None,
            },
    {
        let rel_x = (cx as i64) - (self.x as i64);
        let rel_y = (cy as i64) - (self.y as i64);
        if rel_x >= 0 && rel_x < self.width as i64 && rel_y >= 0 && rel_y < self.height as i64 {
            proof {
                crate::rat::lemma_mul_bound(rel_y as int, self.width as int, 0x8000_0000, 0x8000_0000);
            }
            let idx64 = (rel_y as u64) * (self.width as u64) + (rel_x as u64);
            if idx64 < self.cells.len() as u64 {
                Some(&self.cells[idx64 as usize])
            } else {
                None
            }
        } else {
            None
        }
    }

    /// A mutable borrow of the cell at grid coordinates `(cx, cy)`, or
    /// `None` out of range; the grid itself is otherwise unchanged.
    pub fn get_cell_mut(&mut self, cx: i32, cy: i32) -> (r: Option<&mut Vec<usize>>)
        ensures
            old(self).cell_index_q(cx as int, cy as int) is None ==> r.is_none() && *final(self)
                == *old(self),
            old(self).cell_index_q(cx as int, cy as int) matches Some(k) ==> r.is_some() && *r.unwrap()
                == old(self).cells@[k] && final(self).cells@ == old(self).cells@.update(
                k,
                *final(r.unwrap()),
            ) && final(self).x == old(self).x && final(self).y == old(self).y && final(self).width
                == old(self).width && final(self).height == old(self).height,
    {
        let rel_x = (cx as i64) - (self.x as i64);
        let rel_y = (cy as i64) - (self.y as i64);
        if rel_x >= 0 && rel_x < self.width as i64 && rel_y >= 0 && rel_y < self.height as i64 {
            proof {
                crate::rat::lemma_mul_bound(rel_y as int, self.width as int, 0x8000_0000, 0x8000_0000);
            }
            let idx64 = (rel_y as u64) * (self.width as u64) + (rel_x as u64);
            if idx64 < self.cells.len() as u64 {
                let idx = idx64 as usize;
                Some(&mut self.cells[idx])
            } else {
                None
            }
        } else {
            None
        }
    }
}

} // verus!
