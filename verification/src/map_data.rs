//! The map model: vertices, linedefs, sidedefs, sectors and things, plus
//! the read-only snapshot the compiler consumes.
//!
//! Coordinates and indices are plain integers, exactly as a classic level
//! file stores them.  The compiler never mutates a snapshot; it only reads
//! vertices, linedefs, sidedefs and sectors.

use vstd::prelude::*;

verus! {

use vstd::arithmetic::div_mod::{lemma_mod_add_multiples_vanish, lemma_mod_bound};
use vstd::string::StringExecFns;

/// A map vertex: a point with integer coordinates.
#[derive(Debug, Clone, PartialEq, Eq, Structural)]
pub struct Vertex {
    /// X coordinate in map units.
    pub x: i32,
    /// Y coordinate in map units.
    pub y: i32,
}

impl Vertex {
    /// A new vertex at `(x, y)`.
    pub fn new(x: i32, y: i32) -> (v: Vertex)
        ensures
            v == (Vertex { x, y }),
    {
        Vertex { x, y }
    }

    /// The squared distance between this vertex and `other`, exact in
    /// map units squared.
    pub fn dist_squared(&self, other: &Vertex) -> (d: i32)
        requires
            (self.x - other.x) * (self.x - other.x) + (self.y - other.y) * (self.y - other.y)
                <= i32::MAX,
        ensures
            d == (self.x - other.x) * (self.x - other.x) + (self.y - other.y) * (self.y
                - other.y),
    {
        proof {
            let dxi = self.x - other.x;
            let dyi = self.y - other.y;
            assert(dxi * dxi >= 0 && dyi * dyi >= 0) by (nonlinear_arith);
            assert(-46341 < dxi < 46341) by (nonlinear_arith)
                requires
                    dxi * dxi <= i32::MAX,
            ;
            assert(-46341 < dyi < 46341) by (nonlinear_arith)
                requires
                    dyi * dyi <= i32::MAX,
            ;
        }
        let dx = self.x - other.x;
        let dy = self.y - other.y;
        dx * dx + dy * dy
    }

    /// Place the vertex at `(x, y)`.
    pub fn set_defaults(&mut self, x: i32, y: i32)
        ensures
            *final(self) == (Vertex { x, y }),
    {
        self.x = x;
        self.y = y;
    }
}

/// The "two-sided" bit of a linedef's flag word.
pub open spec fn two_sided_flag(flags: i32) -> bool {
    flags & 0x0004 != 0
}

/// A directed wall segment referencing two vertices and up to two sides.
#[derive(Debug, Clone, PartialEq, Eq, Structural)]
pub struct LineDef {
    /// Index of the start vertex.
    pub start: usize,
    /// Index of the end vertex.
    pub end: usize,
    /// Engine line flags.
    pub flags: i32,
    /// The line's special type (action).
    pub line_type: i32,
    /// Sector tag used by many actions.
    pub tag: i32,
    /// Index into the sidedef list for the right (front) side, `-1` for none.
    pub right: i32,
    /// Index into the sidedef list for the left (back) side, `-1` for none.
    pub left: i32,
}

impl LineDef {
    /// A new linedef with the given field values.
    pub fn new(start: usize, end: usize, flags: i32, line_type: i32, tag: i32, right: i32, left: i32) -> (l: LineDef)
        ensures
            l == (LineDef { start, end, flags, line_type, tag, right, left }),
    {
        LineDef { start, end, flags, line_type, tag, right, left }
    }

    /// Whether the "two-sided" flag bit is set.
    pub fn is_two_sided(&self) -> (r: bool)
        ensures
            r == two_sided_flag(self.flags),
    {
        (self.flags & 0x0004) != 0
    }

    /// Set or clear the "two-sided" flag bit, leaving every other bit alone.
    pub fn set_two_sided(&mut self, two_sided: bool)
        ensures
            two_sided_flag(final(self).flags) == two_sided,
            final(self).flags & !0x0004 == old(self).flags & !0x0004,
            *final(self) == (LineDef { flags: final(self).flags, ..*old(self) }),
    {
        let f = self.flags;
        if two_sided {
            self.flags = f | 0x0004;
            proof {
                assert((f | 0x0004) & 0x0004 != 0 && (f | 0x0004) & !0x0004 == f & !0x0004)
                    by (bit_vector);
            }
        } else {
            self.flags = f & !0x0004;
            proof {
                assert((f & !0x0004) & 0x0004 == 0 && (f & !0x0004) & !0x0004 == f & !0x0004)
                    by (bit_vector);
            }
        }
    }
}

/// Per-side wall data for a linedef, referencing the sector seen on
/// that side.
#[derive(Debug, Clone, PartialEq, Eq)]
pub struct SideDef {
    /// Horizontal texture offset.
    pub x_offset: i32,
    /// Vertical texture offset.
    pub y_offset: i32,
    /// Upper texture name.
    pub upper_tex: String,
    /// Lower texture name.
    pub lower_tex: String,
    /// Middle texture name.
    pub mid_tex: String,
    /// Index into the sector list.
    pub sector: i32,
}

impl SideDef {
    /// A new sidedef with the given field values.
    pub fn new(x_offset: i32, y_offset: i32, upper_tex: String, lower_tex: String, mid_tex: String, sector: i32) -> (s: SideDef)
        ensures
            s == (SideDef { x_offset, y_offset, upper_tex, lower_tex, mid_tex, sector }),
    {
        SideDef { x_offset, y_offset, upper_tex, lower_tex, mid_tex, sector }
    }

    /// Reset to conventional defaults: zero offsets, sector 0, and the
    /// uppercased `default_tex` on the visible surfaces — upper and lower
    /// for a two-sided line, the middle otherwise; `"-"` elsewhere.
    pub fn set_defaults(&mut self, default_tex: &str, is_two_sided: bool)
        ensures
            final(self).x_offset == 0,
            final(self).y_offset == 0,
            final(self).sector == 0,
            is_two_sided ==> final(self).upper_tex@ == upper_of(default_tex@)
                && final(self).lower_tex@ == upper_of(default_tex@)
                && final(self).mid_tex@ == "-"@,
            !is_two_sided ==> final(self).upper_tex@ == "-"@
                && final(self).lower_tex@ == "-"@
                && final(self).mid_tex@ == upper_of(default_tex@),
    {
        self.x_offset = 0;
        self.y_offset = 0;
        if is_two_sided {
            self.upper_tex = to_uppercase_str(default_tex);
            self.lower_tex = to_uppercase_str(default_tex);
            self.mid_tex = String::from_str("-");
        } else {
            self.upper_tex = String::from_str("-");
            self.lower_tex = String::from_str("-");
            self.mid_tex = to_uppercase_str(default_tex);
        }
        self.sector = 0;
    }
}

/// A 2-D region with floor and ceiling heights and a light level.
#[derive(Debug, Clone, PartialEq, Eq)]
pub struct Sector {
    /// Floor height in map units.
    pub floor_height: i32,
    /// Ceiling height in map units.
    pub ceiling_height: i32,
    /// Name of the floor flat.
    pub floor_tex: String,
    /// Name of the ceiling flat.
    pub ceiling_tex: String,
    /// Light level.
    pub light: i32,
    /// The sector's special type (effect).
    pub special: i32,
    /// Sector tag linking linedefs to this sector.
    pub tag: i32,
}

impl Sector {
    /// A new sector with the given field values.
    pub fn new(floor_height: i32, ceiling_height: i32, floor_tex: String, ceiling_tex: String, light: i32, special: i32, tag: i32) -> (s: Sector)
        ensures
            s == (Sector { floor_height, ceiling_height, floor_tex, ceiling_tex, light, special, tag }),
    {
        Sector { floor_height, ceiling_height, floor_tex, ceiling_tex, light, special, tag }
    }

    /// The headroom: ceiling height minus floor height.
    pub fn headroom(&self) -> (h: i32)
        requires
            i32::MIN <= self.ceiling_height - self.floor_height <= i32::MAX,
        ensures
            h == self.ceiling_height - self.floor_height,
    {
        self.ceiling_height - self.floor_height
    }

    /// Reset to conventional defaults: floor 0, ceiling 64, uppercased
    /// texture names, and the given light, special type and tag.
    pub fn set_defaults(&mut self, floor_tex: &str, ceiling_tex: &str, light: i32, special: i32, tag: i32)
        ensures
            final(self).floor_height == 0,
            final(self).ceiling_height == 64,
            final(self).floor_tex@ == upper_of(floor_tex@),
            final(self).ceiling_tex@ == upper_of(ceiling_tex@),
            final(self).light == light,
            final(self).special == special,
            final(self).tag == tag,
    {
        self.floor_height = 0;
        self.ceiling_height = 64;
        self.floor_tex = to_uppercase_str(floor_tex);
        self.ceiling_tex = to_uppercase_str(ceiling_tex);
        self.light = light;
        self.special = special;
        self.tag = tag;
    }
}

/// The uppercased form of a character sequence.  The result depends on the
/// characters alone.
pub uninterp spec fn upper_of(s: Seq<char>) -> Seq<char>;

/// Relies on `str::to_uppercase` from std: a pure function of the input
/// characters, named `upper_of` here.
#[verifier::external_body]
fn to_uppercase_str(s: &str) -> (r: String)
    ensures
        r@ == upper_of(s@),
{
    s.to_uppercase()
}

/// A map object: position, facing angle, type number and flags.
#[derive(Debug, Clone, PartialEq, Eq, Structural)]
pub struct Thing {
    /// X coordinate in map units.
    pub x: i32,
    /// Y coordinate in map units.
    pub y: i32,
    /// Facing angle in degrees.
    pub angle: i32,
    /// The object's type number.
    pub doom_type: i32,
    /// Flags bitmask.
    pub flags: i32,
}

/// Rust's truncating remainder by 360.
pub open spec fn trunc_rem_360(a: int) -> int {
    if a >= 0 {
        a % 360
    } else {
        -((-a) % 360)
    }
}

impl Thing {
    /// A new thing with the given field values.
    pub fn new(x: i32, y: i32, angle: i32, doom_type: i32, flags: i32) -> (t: Thing)
        ensures
            t == (Thing { x, y, angle, doom_type, flags }),
    {
        Thing { x, y, angle, doom_type, flags }
    }

    /// Set the type, angle (reduced by a truncating remainder of 360)
    /// and flags, leaving the position alone.
    pub fn set_defaults(&mut self, doom_type: i32, angle: i32, flags: i32)
        ensures
            final(self).x == old(self).x,
            final(self).y == old(self).y,
            final(self).doom_type == doom_type,
            final(self).flags == flags,
            final(self).angle == trunc_rem_360(angle as int),
    {
        self.doom_type = doom_type;
        let a: i64 = angle as i64;
        proof {
            lemma_mod_bound(a as int, 360);
            lemma_mod_bound(-(a as int), 360);
        }
        let r: i64 = if a >= 0 {
            a % 360
        } else {
            -((-a) % 360)
        };
        self.angle = r as i32;
        self.flags = flags;
    }
}

/// The new facing after rotating `angle` by `delta_degrees`, wrapped into
/// `0 .. 360`.
pub fn calc_new_angle(angle: i32, delta_degrees: i32) -> (r: i32)
    requires
        i32::MIN <= angle + delta_degrees <= i32::MAX,
    ensures
        r == (angle + delta_degrees) % 360,
        0 <= r < 360,
{
    proof {
        lemma_mod_bound(angle + delta_degrees, 360);
    }
    let mut new_angle = angle + delta_degrees;
    while new_angle < 0
        invariant
            new_angle % 360 == (angle + delta_degrees) % 360,
        decreases (if new_angle < 0 { 0 - new_angle } else { 0int }),
    {
        proof {
            lemma_mod_add_multiples_vanish(new_angle as int, 360);
        }
        new_angle = new_angle + 360;
    }
    proof {
        lemma_mod_bound(new_angle as int, 360);
    }
    new_angle % 360
}

/// A read-only snapshot of the map geometry the compiler consumes.
#[derive(Debug, Clone)]
pub struct MapSnapshot {
    /// The vertex list, indexed by linedefs.
    pub vertices: Vec<Vertex>,
    /// The linedef list.
    pub linedefs: Vec<LineDef>,
    /// The sidedef list, indexed by linedef sides.
    pub sidedefs: Vec<SideDef>,
    /// The sector list, indexed by sidedefs.
    pub sectors: Vec<Sector>,
}

impl MapSnapshot {
    /// A snapshot from its four object lists.
    pub fn new(vertices: Vec<Vertex>, linedefs: Vec<LineDef>, sidedefs: Vec<SideDef>, sectors: Vec<Sector>) -> (m: MapSnapshot)
        ensures
            m.vertices == vertices,
            m.linedefs == linedefs,
            m.sidedefs == sidedefs,
            m.sectors == sectors,
    {
        MapSnapshot { vertices, linedefs, sidedefs, sectors }
    }

    /// An empty snapshot.
    pub fn empty() -> (m: MapSnapshot)
        ensures
            m.vertices@ =~= Seq::<Vertex>::empty(),
            m.linedefs@ =~= Seq::<LineDef>::empty(),
            m.sidedefs@ =~= Seq::<SideDef>::empty(),
            m.sectors@ =~= Seq::<Sector>::empty(),
    {
        MapSnapshot { vertices: Vec::new(), linedefs: Vec::new(), sidedefs: Vec::new(), sectors: Vec::new() }
    }
}

} // verus!
