//! A triangle: exactly three vertices and a flat shading colour. The winding
//! `a -> b -> c` fixes the front face through the normal `(c - a) x (b - a)`,
//! so it carries meaning for both culling and lighting.

use vstd::prelude::*;
use crate::colour::Colour;
use crate::mat4::{Mat4, MatS, mat_within, MAT_LIMIT, COORD_LIMIT};
use crate::vertex::{Vertex, vertex_transform_s};

verus! {

/// One triangle of a mesh.
#[derive(Clone, Copy, Debug)]
pub struct Triangle {
    pub a: Vertex,
    pub b: Vertex,
    pub c: Vertex,
    pub colour: Colour,
}

/// A triangle taken through a transform: each vertex in turn; `None` exactly
/// where any vertex fails.
pub open spec fn triangle_transform_s(m: MatS, t: Triangle) -> Option<Triangle> {
    match (vertex_transform_s(m, t.a), vertex_transform_s(m, t.b), vertex_transform_s(m, t.c)) {
        (Some(a), Some(b), Some(c)) => Some(Triangle { a, b, c, colour: t.colour }),
        _ => None,
    }
}

impl Triangle {
    /// Whether all three vertices' coordinates stay within `lim`.
    pub open spec fn within(self, lim: int) -> bool {
        self.a.within(lim) && self.b.within(lim) && self.c.within(lim)
    }

    /// The runtime counterpart of `within`.
    pub fn within_c(&self, lim: i64) -> (b: bool)
        requires
            0 <= lim,
        ensures
            b == self.within(lim as int),
    {
        self.a.within_c(lim) && self.b.within_c(lim) && self.c.within_c(lim)
    }

    /// The triangle taken through `transform`, or `None` where any vertex's
    /// mapping fails.
    pub fn transform(&self, transform: &Mat4) -> (r: Option<Triangle>)
        requires
            mat_within(transform.s(), MAT_LIMIT as int),
            self.within(COORD_LIMIT as int),
        ensures
            r == triangle_transform_s(transform.s(), *self),
    {
        let a = match self.a.transform(transform) {
            Some(v) => v,
            None => { return None; },
        };
        let b = match self.b.transform(transform) {
            Some(v) => v,
            None => { return None; },
        };
        let c = match self.c.transform(transform) {
            Some(v) => v,
            None => { return None; },
        };
        Some(Triangle { a, b, c, colour: self.colour })
    }
}

} // verus!
