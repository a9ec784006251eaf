//! Geometry primitives: points, directed partition lines, bounding boxes.
//!
//! A `Line2D` is an infinite directed line fixed by two points; only the
//! direction matters for classification.  `classify_point` returns the
//! signed area `dy * (px - sx) - dx * (py - sy)`: positive on the front
//! side, negative on the back side, zero on the line.

use vstd::prelude::*;

verus! {

use crate::errors::GeometryError;
use crate::rat::{
    Rat, add_q, sub_q, mul_q, div_q, min_q, max_q, le_q,
    rat_add, rat_sub, rat_mul, rat_div, rat_le, rat_min, rat_max,
    lemma_add_props, lemma_sub_props, lemma_mul_props, lemma_div_props,
};

/// A point in map units, with exact rational coordinates.
#[derive(Clone, Copy, Debug, PartialEq, Eq)]
pub struct Point2D {
    pub x: Rat,
    pub y: Rat,
}

impl Point2D {
    /// Both coordinates are valid rationals.
    pub open spec fn wf(self) -> bool {
        self.x.wf() && self.y.wf()
    }

    /// A point from its coordinates.
    pub fn new(x: Rat, y: Rat) -> (p: Point2D)
        ensures
            p == (Point2D { x, y }),
    {
        Point2D { x, y }
    }
}

/// An infinite directed line through `start` and `end`; the endpoints fix
/// the direction only.
#[derive(Clone, Copy, Debug, PartialEq, Eq)]
pub struct Line2D {
    pub start: Point2D,
    pub end: Point2D,
}

/// The signed area of `p` against the line `l`, or an error when exact
/// arithmetic leaves the representable range.
pub open spec fn cross_q(l: Line2D, p: Point2D) -> Result<Rat, GeometryError> {
    match sub_q(l.end.x, l.start.x) {
        None => Err(GeometryError::Overflow),
        Some(dx) => match sub_q(l.end.y, l.start.y) {
            None => Err(GeometryError::Overflow),
            Some(dy) => match sub_q(p.x, l.start.x) {
                None => Err(GeometryError::Overflow),
                Some(ex) => match sub_q(p.y, l.start.y) {
                    None => Err(GeometryError::Overflow),
                    Some(ey) => match mul_q(dy, ex) {
                        None => Err(GeometryError::Overflow),
                        Some(t1) => match mul_q(dx, ey) {
                            None => Err(GeometryError::Overflow),
                            Some(t2) => match sub_q(t1, t2) {
                                None => Err(GeometryError::Overflow),
                                Some(c) => Ok(c),
                            },
                        },
                    },
                },
            },
        },
    }
}

/// A successful signed area is a valid rational.
pub proof fn lemma_cross_wf(l: Line2D, p: Point2D)
    requires
        l.wf(),
        p.wf(),
    ensures
        cross_q(l, p) matches Ok(c) ==> c.wf(),
{
    lemma_sub_props(l.end.x, l.start.x);
    lemma_sub_props(l.end.y, l.start.y);
    lemma_sub_props(p.x, l.start.x);
    lemma_sub_props(p.y, l.start.y);
    if sub_q(l.end.x, l.start.x) is Some && sub_q(l.end.y, l.start.y) is Some && sub_q(
        p.x,
        l.start.x,
    ) is Some && sub_q(p.y, l.start.y) is Some {
        let dx = sub_q(l.end.x, l.start.x)->Some_0;
        let dy = sub_q(l.end.y, l.start.y)->Some_0;
        let ex = sub_q(p.x, l.start.x)->Some_0;
        let ey = sub_q(p.y, l.start.y)->Some_0;
        lemma_mul_props(dy, ex);
        lemma_mul_props(dx, ey);
        if mul_q(dy, ex) is Some && mul_q(dx, ey) is Some {
            lemma_sub_props(mul_q(dy, ex)->Some_0, mul_q(dx, ey)->Some_0);
        }
    }
}

/// The outcome of intersecting two infinite lines: a unique point,
/// or `None` when the lines are parallel (or coincident).
pub open spec fn intersect_q(l1: Line2D, l2: Line2D) -> Result<
    Option<Point2D>,
    GeometryError,
> {
    let x1 = l1.start.x;
    let y1 = l1.start.y;
    let x2 = l1.end.x;
    let y2 = l1.end.y;
    let x3 = l2.start.x;
    let y3 = l2.start.y;
    let x4 = l2.end.x;
    let y4 = l2.end.y;
    match sub_q(x1, x2) {
        None => Err(GeometryError::Overflow),
        Some(a) => match sub_q(y3, y4) {
            None => Err(GeometryError::Overflow),
            Some(b) => match sub_q(y1, y2) {
                None => Err(GeometryError::Overflow),
                Some(c) => match sub_q(x3, x4) {
                    None => Err(GeometryError::Overflow),
                    Some(e) => match mul_q(a, b) {
                        None => Err(GeometryError::Overflow),
                        Some(ab) => match mul_q(c, e) {
                            None => Err(GeometryError::Overflow),
                            Some(ce) => match sub_q(ab, ce) {
                                None => Err(GeometryError::Overflow),
                                Some(den) => if den.num == 0 {
                                    Ok(None)
                                } else {
                                    intersect_point_q(l1, l2, den)
                                },
                            },
                        },
                    },
                },
            },
        },
    }
}

/// The intersection point once the denominator `den` is known nonzero:
/// the parameter `t` along `l1`, then `l1.start + t * (l1.end - l1.start)`.
pub open spec fn intersect_point_q(l1: Line2D, l2: Line2D, den: Rat) -> Result<
    Option<Point2D>,
    GeometryError,
> {
    let x1 = l1.start.x;
    let y1 = l1.start.y;
    let x3 = l2.start.x;
    let y3 = l2.start.y;
    let x4 = l2.end.x;
    let y4 = l2.end.y;
    match sub_q(x1, x3) {
        None => Err(GeometryError::Overflow),
        Some(f) => match sub_q(y3, y4) {
            None => Err(GeometryError::Overflow),
            Some(b) => match sub_q(y1, y3) {
                None => Err(GeometryError::Overflow),
                Some(g) => match sub_q(x3, x4) {
                    None => Err(GeometryError::Overflow),
                    Some(e) => match mul_q(f, b) {
                        None => Err(GeometryError::Overflow),
                        Some(fb) => match mul_q(g, e) {
                            None => Err(GeometryError::Overflow),
                            Some(ge) => match sub_q(fb, ge) {
                                None => Err(GeometryError::Overflow),
                                Some(numt) => match div_q(numt, den) {
                                    None => Err(GeometryError::Overflow),
                                    Some(t) => lerp_q(l1, t),
                                },
                            },
                        },
                    },
                },
            },
        },
    }
}

/// The point `l.start + t * (l.end - l.start)`.
pub open spec fn lerp_q(l: Line2D, t: Rat) -> Result<Option<Point2D>, GeometryError> {
    match sub_q(l.end.x, l.start.x) {
        None => Err(GeometryError::Overflow),
        Some(dx) => match sub_q(l.end.y, l.start.y) {
            None => Err(GeometryError::Overflow),
            Some(dy) => match mul_q(t, dx) {
                None => Err(GeometryError::Overflow),
                Some(tx) => match mul_q(t, dy) {
                    None => Err(GeometryError::Overflow),
                    Some(ty) => match add_q(l.start.x, tx) {
                        None => Err(GeometryError::Overflow),
                        Some(x) => match add_q(l.start.y, ty) {
                            None => Err(GeometryError::Overflow),
                            Some(y) => Ok(Some(Point2D { x, y })),
                        },
                    },
                },
            },
        },
    }
}

/// A point from `lerp_q` is well formed.
pub proof fn lemma_lerp_wf(l: Line2D, t: Rat)
    requires
        l.wf(),
        t.wf(),
    ensures
        lerp_q(l, t) matches Ok(Some(p)) ==> p.wf(),
{
    lemma_sub_props(l.end.x, l.start.x);
    lemma_sub_props(l.end.y, l.start.y);
    if sub_q(l.end.x, l.start.x) is Some && sub_q(l.end.y, l.start.y) is Some {
        let dx = sub_q(l.end.x, l.start.x)->Some_0;
        let dy = sub_q(l.end.y, l.start.y)->Some_0;
        lemma_mul_props(t, dx);
        lemma_mul_props(t, dy);
        if mul_q(t, dx) is Some && mul_q(t, dy) is Some {
            lemma_add_props(l.start.x, mul_q(t, dx)->Some_0);
            lemma_add_props(l.start.y, mul_q(t, dy)->Some_0);
        }
    }
}

/// A point from a successful intersection is well formed.
pub proof fn lemma_intersect_wf(l1: Line2D, l2: Line2D)
    requires
        l1.wf(),
        l2.wf(),
    ensures
        intersect_q(l1, l2) matches Ok(Some(p)) ==> p.wf(),
{
    let x1 = l1.start.x;
    let y1 = l1.start.y;
    let x2 = l1.end.x;
    let y2 = l1.end.y;
    let x3 = l2.start.x;
    let y3 = l2.start.y;
    let x4 = l2.end.x;
    let y4 = l2.end.y;
    lemma_sub_props(x1, x2);
    lemma_sub_props(y3, y4);
    lemma_sub_props(y1, y2);
    lemma_sub_props(x3, x4);
    if sub_q(x1, x2) is Some && sub_q(y3, y4) is Some && sub_q(y1, y2) is Some && sub_q(
        x3,
        x4,
    ) is Some {
        let a = sub_q(x1, x2)->Some_0;
        let b = sub_q(y3, y4)->Some_0;
        let c = sub_q(y1, y2)->Some_0;
        let e = sub_q(x3, x4)->Some_0;
        lemma_mul_props(a, b);
        lemma_mul_props(c, e);
        if mul_q(a, b) is Some && mul_q(c, e) is Some {
            let ab = mul_q(a, b)->Some_0;
            let ce = mul_q(c, e)->Some_0;
            lemma_sub_props(ab, ce);
            if sub_q(ab, ce) is Some {
                let den = sub_q(ab, ce)->Some_0;
                if den.num != 0 {
                    lemma_sub_props(x1, x3);
                    lemma_sub_props(y1, y3);
                    if sub_q(x1, x3) is Some && sub_q(y1, y3) is Some {
                        let f = sub_q(x1, x3)->Some_0;
                        let g = sub_q(y1, y3)->Some_0;
                        lemma_mul_props(f, b);
                        lemma_mul_props(g, e);
                        if mul_q(f, b) is Some && mul_q(g, e) is Some {
                            let fb = mul_q(f, b)->Some_0;
                            let ge = mul_q(g, e)->Some_0;
                            lemma_sub_props(fb, ge);
                            if sub_q(fb, ge) is Some {
                                let numt = sub_q(fb, ge)->Some_0;
                                lemma_div_props(numt, den);
                                if div_q(numt, den) is Some {
                                    lemma_lerp_wf(l1, div_q(numt, den)->Some_0);
                                }
                            }
                        }
                    }
                }
            }
        }
    }
}

/// `p` lies within the axis-aligned extent of the line's two endpoints.
pub open spec fn on_segment_q(l: Line2D, p: Point2D) -> bool {
    &&& le_q(min_q(l.start.x, l.end.x), p.x)
    &&& le_q(p.x, max_q(l.start.x, l.end.x))
    &&& le_q(min_q(l.start.y, l.end.y), p.y)
    &&& le_q(p.y, max_q(l.start.y, l.end.y))
}

impl Line2D {
    /// Both defining points are valid.
    pub open spec fn wf(self) -> bool {
        self.start.wf() && self.end.wf()
    }

    /// A line from two points.
    pub fn new(start: Point2D, end: Point2D) -> (l: Line2D)
        ensures
            l == (Line2D { start, end }),
    {
        Line2D { start, end }
    }

    /// The signed area of `point` against this line: positive on the front
    /// side, negative on the back side, zero (exactly) on the line.
    pub fn classify_point(&self, point: &Point2D) -> (r: Result<Rat, GeometryError>)
        requires
            self.wf(),
            point.wf(),
        ensures
            r == cross_q(*self, *point),
            r matches Ok(c) ==> c.wf(),
    {
        proof {
            lemma_cross_wf(*self, *point);
        }
        let dx = match rat_sub(&self.end.x, &self.start.x) {
            None => {
                return Err(GeometryError::Overflow);
            },
            Some(v) => v,
        };
        let dy = match rat_sub(&self.end.y, &self.start.y) {
            None => {
                return Err(GeometryError::Overflow);
            },
            Some(v) => v,
        };
        let ex = match rat_sub(&point.x, &self.start.x) {
            None => {
                return Err(GeometryError::Overflow);
            },
            Some(v) => v,
        };
        let ey = match rat_sub(&point.y, &self.start.y) {
            None => {
                return Err(GeometryError::Overflow);
            },
            Some(v) => v,
        };
        proof {
            lemma_sub_props(self.end.x, self.start.x);
            lemma_sub_props(self.end.y, self.start.y);
            lemma_sub_props(point.x, self.start.x);
            lemma_sub_props(point.y, self.start.y);
        }
        let t1 = match rat_mul(&dy, &ex) {
            None => {
                return Err(GeometryError::Overflow);
            },
            Some(v) => v,
        };
        let t2 = match rat_mul(&dx, &ey) {
            None => {
                return Err(GeometryError::Overflow);
            },
            Some(v) => v,
        };
        proof {
            lemma_mul_props(dy, ex);
            lemma_mul_props(dx, ey);
        }
        match rat_sub(&t1, &t2) {
            None => Err(GeometryError::Overflow),
            Some(c) => Ok(c),
        }
    }

    /// The unique intersection point of this infinite line with `other`,
    /// or `None` when the two lines are parallel.
    pub fn intersect(&self, other: &Line2D) -> (r: Result<Option<Point2D>, GeometryError>)
        requires
            self.wf(),
            other.wf(),
        ensures
            r == intersect_q(*self, *other),
    {
        let a = match rat_sub(&self.start.x, &self.end.x) {
            None => {
                return Err(GeometryError::Overflow);
            },
            Some(v) => v,
        };
        let b = match rat_sub(&other.start.y, &other.end.y) {
            None => {
                return Err(GeometryError::Overflow);
            },
            Some(v) => v,
        };
        let c = match rat_sub(&self.start.y, &self.end.y) {
            None => {
                return Err(GeometryError::Overflow);
            },
            Some(v) => v,
        };
        let e = match rat_sub(&other.start.x, &other.end.x) {
            None => {
                return Err(GeometryError::Overflow);
            },
            Some(v) => v,
        };
        proof {
            lemma_sub_props(self.start.x, self.end.x);
            lemma_sub_props(other.start.y, other.end.y);
            lemma_sub_props(self.start.y, self.end.y);
            lemma_sub_props(other.start.x, other.end.x);
        }
        let ab = match rat_mul(&a, &b) {
            None => {
                return Err(GeometryError::Overflow);
            },
            Some(v) => v,
        };
        let ce = match rat_mul(&c, &e) {
            None => {
                return Err(GeometryError::Overflow);
            },
            Some(v) => v,
        };
        proof {
            lemma_mul_props(a, b);
            lemma_mul_props(c, e);
        }
        let den = match rat_sub(&ab, &ce) {
            None => {
                return Err(GeometryError::Overflow);
            },
            Some(v) => v,
        };
        proof {
            lemma_sub_props(ab, ce);
        }
        if den.num == 0 {
            return Ok(None);
        }
        let f = match rat_sub(&self.start.x, &other.start.x) {
            None => {
                return Err(GeometryError::Overflow);
            },
            Some(v) => v,
        };
        let g = match rat_sub(&self.start.y, &other.start.y) {
            None => {
                return Err(GeometryError::Overflow);
            },
            Some(v) => v,
        };
        proof {
            lemma_sub_props(self.start.x, other.start.x);
            lemma_sub_props(self.start.y, other.start.y);
        }
        let fb = match rat_mul(&f, &b) {
            None => {
                return Err(GeometryError::Overflow);
            },
            Some(v) => v,
        };
        let ge = match rat_mul(&g, &e) {
            None => {
                return Err(GeometryError::Overflow);
            },
            Some(v) => v,
        };
        proof {
            lemma_mul_props(f, b);
            lemma_mul_props(g, e);
        }
        let numt = match rat_sub(&fb, &ge) {
            None => {
                return Err(GeometryError::Overflow);
            },
            Some(v) => v,
        };
        proof {
            lemma_sub_props(fb, ge);
        }
        let t = match rat_div(&numt, &den) {
            None => {
                return Err(GeometryError::Overflow);
            },
            Some(v) => v,
        };
        proof {
            lemma_div_props(numt, den);
        }
        let dx = match rat_sub(&self.end.x, &self.start.x) {
            None => {
                return Err(GeometryError::Overflow);
            },
            Some(v) => v,
        };
        let dy = match rat_sub(&self.end.y, &self.start.y) {
            None => {
                return Err(GeometryError::Overflow);
            },
            Some(v) => v,
        };
        proof {
            lemma_sub_props(self.end.x, self.start.x);
            lemma_sub_props(self.end.y, self.start.y);
        }
        let tx = match rat_mul(&t, &dx) {
            None => {
                return Err(GeometryError::Overflow);
            },
            Some(v) => v,
        };
        let ty = match rat_mul(&t, &dy) {
            None => {
                return Err(GeometryError::Overflow);
            },
            Some(v) => v,
        };
        proof {
            lemma_mul_props(t, dx);
            lemma_mul_props(t, dy);
        }
        let x = match rat_add(&self.start.x, &tx) {
            None => {
                return Err(GeometryError::Overflow);
            },
            Some(v) => v,
        };
        let y = match rat_add(&self.start.y, &ty) {
            None => {
                return Err(GeometryError::Overflow);
            },
            Some(v) => v,
        };
        Ok(Some(Point2D { x, y }))
    }

    /// Whether `point` lies within the axis-aligned extent of the two
    /// defining endpoints.
    pub fn on_segment(&self, point: &Point2D) -> (r: bool)
        requires
            self.wf(),
            point.wf(),
        ensures
            r == on_segment_q(*self, *point),
    {
        let lo_x = rat_min(&self.start.x, &self.end.x);
        let hi_x = rat_max(&self.start.x, &self.end.x);
        let lo_y = rat_min(&self.start.y, &self.end.y);
        let hi_y = rat_max(&self.start.y, &self.end.y);
        rat_le(&lo_x, &point.x) && rat_le(&point.x, &hi_x) && rat_le(&lo_y, &point.y) && rat_le(
            &point.y,
            &hi_y,
        )
    }
}

/// An axis-aligned bounding box.
#[derive(Clone, Copy, Debug)]
pub struct BoundingBox {
    pub min_x: Rat,
    pub min_y: Rat,
    pub max_x: Rat,
    pub max_y: Rat,
}

/// `b` grown just enough to cover the point `(x, y)`.
pub open spec fn expand_q(b: BoundingBox, x: Rat, y: Rat) -> BoundingBox {
    BoundingBox {
        min_x: min_q(b.min_x, x),
        min_y: min_q(b.min_y, y),
        max_x: max_q(b.max_x, x),
        max_y: max_q(b.max_y, y),
    }
}

/// The smallest box covering both `a` and `b`.
pub open spec fn combine_q(a: BoundingBox, b: BoundingBox) -> BoundingBox {
    BoundingBox {
        min_x: min_q(a.min_x, b.min_x),
        min_y: min_q(a.min_y, b.min_y),
        max_x: max_q(a.max_x, b.max_x),
        max_y: max_q(a.max_y, b.max_y),
    }
}

impl BoundingBox {
    /// All four bounds are valid rationals.
    pub open spec fn wf(self) -> bool {
        self.min_x.wf() && self.min_y.wf() && self.max_x.wf() && self.max_y.wf()
    }

    /// A box from its bounds.
    pub fn new(min_x: Rat, min_y: Rat, max_x: Rat, max_y: Rat) -> (b: BoundingBox)
        ensures
            b == (BoundingBox { min_x, min_y, max_x, max_y }),
    {
        BoundingBox { min_x, min_y, max_x, max_y }
    }

    /// The degenerate box covering exactly one point.
    pub fn of_point(p: &Point2D) -> (b: BoundingBox)
        ensures
            b == (BoundingBox { min_x: p.x, min_y: p.y, max_x: p.x, max_y: p.y }),
    {
        BoundingBox { min_x: p.x, min_y: p.y, max_x: p.x, max_y: p.y }
    }

    /// Grow the box just enough to cover `(x, y)`.
    pub fn expand_point(&mut self, x: &Rat, y: &Rat)
        requires
            old(self).wf(),
            x.wf(),
            y.wf(),
        ensures
            *final(self) == expand_q(*old(self), *x, *y),
            final(self).wf(),
    {
        self.min_x = rat_min(&self.min_x, x);
        self.min_y = rat_min(&self.min_y, y);
        self.max_x = rat_max(&self.max_x, x);
        self.max_y = rat_max(&self.max_y, y);
    }

    /// Grow the box just enough to cover `other` too.
    pub fn combine(&mut self, other: &BoundingBox)
        requires
            old(self).wf(),
            other.wf(),
        ensures
            *final(self) == combine_q(*old(self), *other),
            final(self).wf(),
    {
        self.min_x = rat_min(&self.min_x, &other.min_x);
        self.min_y = rat_min(&self.min_y, &other.min_y);
        self.max_x = rat_max(&self.max_x, &other.max_x);
        self.max_y = rat_max(&self.max_y, &other.max_y);
    }

    /// Whether the box contains `(x, y)` (bounds included).
    pub fn contains_point(&self, x: &Rat, y: &Rat) -> (r: bool)
        requires
            self.wf(),
            x.wf(),
            y.wf(),
        ensures
            r == (le_q(self.min_x, *x) && le_q(*x, self.max_x) && le_q(self.min_y, *y) && le_q(
                *y,
                self.max_y,
            )),
    {
        rat_le(&self.min_x, x) && rat_le(x, &self.max_x) && rat_le(&self.min_y, y) && rat_le(
            y,
            &self.max_y,
        )
    }

    /// Whether the two boxes overlap (touching edges count).
    pub fn intersects(&self, other: &BoundingBox) -> (r: bool)
        requires
            self.wf(),
            other.wf(),
        ensures
            r == (le_q(other.min_x, self.max_x) && le_q(self.min_x, other.max_x) && le_q(
                other.min_y,
                self.max_y,
            ) && le_q(self.min_y, other.max_y)),
    {
        rat_le(&other.min_x, &self.max_x) && rat_le(&self.min_x, &other.max_x) && rat_le(
            &other.min_y,
            &self.max_y,
        ) && rat_le(&self.min_y, &other.max_y)
    }
}

} // verus!
