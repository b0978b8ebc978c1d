//! A mesh vertex: a required position, with optional normal, texture
//! coordinate and per-vertex colour. A transform carries the position through
//! the full projective matrix and the normal through its linear part only,
//! and leaves absent fields absent.

use vstd::prelude::*;
use crate::colour::Colour;
use crate::fixed::iabs;
use crate::mat4::{Mat4, MatS, mat_within, tp_s, td_s, MAT_LIMIT, COORD_LIMIT};
use crate::vec3::Vec3;

verus! {

/// One vertex of a triangle.
#[derive(Clone, Copy, Debug)]
pub struct Vertex {
    pub position: Vec3,
    pub normal: Option<Vec3>,
    pub uv: Option<(i64, i64)>,
    pub colour: Option<Colour>,
}

/// The machine point a coordinate triple denotes; faithful within
/// `COORD_LIMIT`.
pub open spec fn vec_of(t: (int, int, int)) -> Vec3 {
    Vec3 { x: t.0 as i64, y: t.1 as i64, z: t.2 as i64 }
}

/// A vertex taken through a transform: the position as a point (with the
/// perspective division), the normal, where present, through the linear part
/// alone; texture coordinate and colour carried unchanged. `None` exactly
/// where either mapping fails.
pub open spec fn vertex_transform_s(m: MatS, v: Vertex) -> Option<Vertex> {
    match tp_s(m, v.position.x as int, v.position.y as int, v.position.z as int) {
        None => None,
        Some(p) => match v.normal {
            None => Some(Vertex { position: vec_of(p), ..v }),
            Some(n) => match td_s(m, n.x as int, n.y as int, n.z as int) {
                None => None,
                Some(d) => Some(Vertex { position: vec_of(p), normal: Some(vec_of(d)), ..v }),
            },
        },
    }
}

impl Vertex {
    /// Whether the vertex's coordinates stay within `lim`.
    pub open spec fn within(self, lim: int) -> bool {
        self.position.within(lim) && match self.normal {
            Some(n) => n.within(lim),
            None => true,
        }
    }

    /// The runtime counterpart of `within`.
    pub fn within_c(&self, lim: i64) -> (b: bool)
        requires
            0 <= lim,
        ensures
            b == self.within(lim as int),
    {
        self.position.within_c(lim) && match &self.normal {
            Some(n) => n.within_c(lim),
            None => true,
        }
    }

    /// The vertex taken through `transform`, or `None` where the mapping
    /// fails (position at or behind the eye plane of a projective transform,
    /// or a coordinate beyond the supported range).
    pub fn transform(&self, transform: &Mat4) -> (r: Option<Vertex>)
        requires
            mat_within(transform.s(), MAT_LIMIT as int),
            self.within(COORD_LIMIT as int),
        ensures
            r == vertex_transform_s(transform.s(), *self),
    {
        let p = match transform.transform_point_c(self.position) {
            Some(p) => p,
            None => { return None; },
        };
        match &self.normal {
            None => Some(Vertex { position: p, ..*self }),
            Some(n) => match transform.transform_dir_c(*n) {
                None => None,
                Some(d) => Some(Vertex { position: p, normal: Some(d), ..*self }),
            },
        }
    }
}

} // verus!
