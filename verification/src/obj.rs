//! Building triangle lists from loaded model data.

use vstd::prelude::*;

verus! {

use crate::material::Material;
use crate::objloader::{faces_view, OBJLoader};
use crate::triangle::Triangle;
use crate::vec3::{v_cross, v_len, v_normalize, v_sub, Vec3};

pub open spec fn vert_vec(v: (i64, i64, i64)) -> Vec3 {
    (Vec3 { x: v.0, y: v.1, z: v.2 })
}

/// A face is renderable when it is a triangle, its 1-based vertex indices
/// are in range, and its vertices are not collinear in fixed point.
pub open spec fn face_ok(verts: Seq<(i64, i64, i64)>, face: Seq<(usize, usize)>) -> bool {
    face.len() == 3 && 1 <= face[0].0 <= verts.len() && 1 <= face[1].0 <= verts.len() && 1 <= face[2].0
        <= verts.len() && v_len(
        v_cross(
            v_sub(vert_vec(verts[face[1].0 - 1]), vert_vec(verts[face[0].0 - 1])),
            v_sub(vert_vec(verts[face[2].0 - 1]), vert_vec(verts[face[0].0 - 1])),
        ),
    ) != 0
}

/// The triangle a renderable face denotes.
pub open spec fn tri_of(verts: Seq<(i64, i64, i64)>, face: Seq<(usize, usize)>, mat: Material) -> Triangle {
    let p0 = vert_vec(verts[face[0].0 - 1]);
    let p1 = vert_vec(verts[face[1].0 - 1]);
    let p2 = vert_vec(verts[face[2].0 - 1]);
    (Triangle {
        p0,
        p1,
        p2,
        normal: v_normalize(v_cross(v_sub(p1, p0), v_sub(p2, p0))),
        mat,
    })
}

/// Turn every loaded face into a triangle bound to the shared material. A
/// non-triangular face, an out-of-range vertex index or a degenerate
/// triangle fails the whole load, so the renderer never sees malformed
/// geometry.
pub fn load_obj_triangles(loader: &OBJLoader, material: Material) -> (r: Option<Vec<Triangle>>)
    ensures
        r is Some <==> (forall|i: int|
            0 <= i < faces_view(*loader).len() ==> face_ok(
                loader.vertices@,
                #[trigger] faces_view(*loader)[i],
            )),
        r matches Some(ts) ==> ts@.len() == faces_view(*loader).len() && (forall|i: int|
            0 <= i < ts@.len() ==> ts@[i] == tri_of(
                loader.vertices@,
                faces_view(*loader)[i],
                material,
            )),
{
    let mut triangles: Vec<Triangle> = Vec::new();
    let n: usize = loader.faces.len();
    let mut fi: usize = 0;
    while fi < n
        invariant
            fi <= n,
            n == loader.faces@.len(),
            triangles@.len() == fi,
            forall|i: int|
                0 <= i < fi ==> face_ok(loader.vertices@, #[trigger] faces_view(*loader)[i]),
            forall|i: int|
                0 <= i < fi ==> triangles@[i] == tri_of(
                    loader.vertices@,
                    faces_view(*loader)[i],
                    material,
                ),
        decreases n - fi,
    {
        let face = &loader.faces[fi];
        proof {
            assert(faces_view(*loader)[fi as int] == loader.faces@[fi as int]@);
        }
        if face.len() != 3 {
            return None;
        }
        let i0: usize = face[0].0;
        let i1: usize = face[1].0;
        let i2: usize = face[2].0;
        if i0 == 0 || i0 > loader.vertices.len() || i1 == 0 || i1 > loader.vertices.len() || i2 == 0
            || i2 > loader.vertices.len() {
            return None;
        }
        let va = loader.vertices[i0 - 1];
        let vb = loader.vertices[i1 - 1];
        let vc = loader.vertices[i2 - 1];
        let p0 = Vec3::new(va.0, va.1, va.2);
        let p1 = Vec3::new(vb.0, vb.1, vb.2);
        let p2 = Vec3::new(vc.0, vc.1, vc.2);
        let e1 = p1.sub(&p0);
        let e2 = p2.sub(&p0);
        if e1.cross(&e2).length() == 0 {
            return None;
        }
        let tri = Triangle::new(p0, p1, p2, material);
        triangles.push(tri);
        fi = fi + 1;
    }
    Some(triangles)
}

} // verus!
