//! The mesh a render reads: vertex positions, texture coordinates and
//! faces, validated once at load so that no lookup during a render can
//! leave bounds.

use vstd::prelude::*;
use crate::fixed::SCREEN_MAX;
use crate::geometry::Vector3;
use crate::RenderError;

verus! {

/// One face: the indices of its vertices, and a parallel, possibly
/// empty, list of texture-coordinate indices.
pub struct Face {
    pub vertices: Vec<usize>,
    pub texture_indices: Vec<usize>,
}

impl Face {
    pub fn new(vertices: Vec<usize>, texture_indices: Vec<usize>) -> (f: Face)
        ensures
            f.vertices@ == vertices@,
            f.texture_indices@ == texture_indices@,
    {
        Face { vertices, texture_indices }
    }
}

/// An immutable triangle mesh.
pub struct Model {
    pub vertices: Vec<Vector3>,
    pub texture_coords: Vec<Vector3>,
    pub faces: Vec<Face>,
}

/// Every face has at least three vertices, and no more texture
/// indices than vertex indices.
pub open spec fn faces_arity_ok(faces: Seq<Face>) -> bool {
    forall|f: int|
        0 <= f < faces.len() ==> (#[trigger] faces[f].vertices@.len()) >= 3
            && faces[f].texture_indices@.len() <= faces[f].vertices@.len()
}

/// Every index a face holds lies within its list.
pub open spec fn faces_indices_ok(faces: Seq<Face>, nv: int, nt: int) -> bool {
    &&& forall|f: int, i: int|
        0 <= f < faces.len() && 0 <= i < faces[f].vertices@.len() ==> (
        #[trigger] faces[f].vertices@[i]) < nv
    &&& forall|f: int, i: int|
        0 <= f < faces.len() && 0 <= i < faces[f].texture_indices@.len() ==> (
        #[trigger] faces[f].texture_indices@[i]) < nt
}

/// Every coordinate stays within the raster coordinate range.
pub open spec fn coords_ok(vs: Seq<Vector3>) -> bool {
    forall|i: int|
        0 <= i < vs.len() ==> -SCREEN_MAX <= (#[trigger] vs[i]).x <= SCREEN_MAX && -SCREEN_MAX
            <= vs[i].y <= SCREEN_MAX && -SCREEN_MAX <= vs[i].z <= SCREEN_MAX
}

impl Model {
    /// The mesh invariant: validated arities, indices and coordinates.
    pub open spec fn wf(self) -> bool {
        &&& faces_arity_ok(self.faces@)
        &&& faces_indices_ok(
            self.faces@,
            self.vertices@.len() as int,
            self.texture_coords@.len() as int,
        )
        &&& coords_ok(self.vertices@)
        &&& coords_ok(self.texture_coords@)
    }

    /// Builds a mesh after validating it: a face with fewer than three
    /// vertices or more texture indices than vertices is a parse
    /// error; an index beyond its list is an index error; a coordinate
    /// beyond the raster range is a range error.
    pub fn new(vertices: Vec<Vector3>, texture_coords: Vec<Vector3>, faces: Vec<Face>) -> (r:
        Result<Model, RenderError>)
        ensures
            r is Ok <==> (faces_arity_ok(faces@) && faces_indices_ok(
                faces@,
                vertices@.len() as int,
                texture_coords@.len() as int,
            ) && coords_ok(vertices@) && coords_ok(texture_coords@)),
            r matches Ok(m) ==> m.wf() && m.vertices@ == vertices@ && m.texture_coords@
                == texture_coords@ && m.faces@ == faces@,
            r is Err ==> r == Err::<Model, RenderError>(
                if !faces_arity_ok(faces@) {
                    RenderError::ParseError
                } else if !faces_indices_ok(
                    faces@,
                    vertices@.len() as int,
                    texture_coords@.len() as int,
                ) {
                    RenderError::IndexOutOfRange
                } else {
                    RenderError::OutOfRange
                },
            ),
    {
        if !check_arity(&faces) {
            return Err(RenderError::ParseError);
        }
        if !check_indices(&faces, vertices.len(), texture_coords.len()) {
            return Err(RenderError::IndexOutOfRange);
        }
        if !check_coords(&vertices) || !check_coords(&texture_coords) {
            return Err(RenderError::OutOfRange);
        }
        Ok(Model { vertices, texture_coords, faces })
    }

    pub fn num_vertices(&self) -> (n: usize)
        ensures
            n == self.vertices@.len(),
    {
        self.vertices.len()
    }

    pub fn num_faces(&self) -> (n: usize)
        ensures
            n == self.faces@.len(),
    {
        self.faces.len()
    }

    pub fn get_vertex(&self, x: usize) -> (v: &Vector3)
        requires
            x < self.vertices@.len(),
        ensures
            *v == self.vertices@[x as int],
    {
        &self.vertices[x]
    }

    pub fn get_texture_coord(&self, x: usize) -> (v: &Vector3)
        requires
            x < self.texture_coords@.len(),
        ensures
            *v == self.texture_coords@[x as int],
    {
        &self.texture_coords[x]
    }
}

/// Tests the arity of every face.
fn check_arity(faces: &Vec<Face>) -> (r: bool)
    ensures
        r == faces_arity_ok(faces@),
{
    let n = faces.len();
    let mut f: usize = 0;
    while f < n
        invariant
            n == faces@.len(),
            f <= n,
            forall|g: int|
                0 <= g < f ==> (#[trigger] faces@[g].vertices@.len()) >= 3
                    && faces@[g].texture_indices@.len() <= faces@[g].vertices@.len(),
        decreases n - f,
    {
        let face = &faces[f];
        if face.vertices.len() < 3 || face.texture_indices.len() > face.vertices.len() {
            return false;
        }
        f = f + 1;
    }
    true
}

/// Tests every index of every face.
#[verifier::loop_isolation(false)]
fn check_indices(faces: &Vec<Face>, nv: usize, nt: usize) -> (r: bool)
    ensures
        r == faces_indices_ok(faces@, nv as int, nt as int),
{
    let n = faces.len();
    let mut f: usize = 0;
    while f < n
        invariant
            n == faces@.len(),
            f <= n,
            forall|g: int, i: int|
                0 <= g < f && 0 <= i < faces@[g].vertices@.len() ==> (
                #[trigger] faces@[g].vertices@[i]) < nv,
            forall|g: int, i: int|
                0 <= g < f && 0 <= i < faces@[g].texture_indices@.len() ==> (
                #[trigger] faces@[g].texture_indices@[i]) < nt,
        decreases n - f,
    {
        let face = &faces[f];
        let vn = face.vertices.len();
        let mut i: usize = 0;
        while i < vn
            invariant
                vn == face.vertices@.len(),
                i <= vn,
                forall|j: int| 0 <= j < i ==> (#[trigger] face.vertices@[j]) < nv,
            decreases vn - i,
        {
            if face.vertices[i] >= nv {
                proof {
                    assert(faces@[f as int].vertices@[i as int] >= nv);
                }
                return false;
            }
            i = i + 1;
        }
        let tn = face.texture_indices.len();
        let mut t: usize = 0;
        while t < tn
            invariant
                tn == face.texture_indices@.len(),
                t <= tn,
                forall|j: int| 0 <= j < t ==> (#[trigger] face.texture_indices@[j]) < nt,
            decreases tn - t,
        {
            if face.texture_indices[t] >= nt {
                proof {
                    assert(faces@[f as int].texture_indices@[t as int] >= nt);
                }
                return false;
            }
            t = t + 1;
        }
        f = f + 1;
    }
    true
}

/// Tests every coordinate of a list.
fn check_coords(vs: &Vec<Vector3>) -> (r: bool)
    ensures
        r == coords_ok(vs@),
{
    let n = vs.len();
    let mut i: usize = 0;
    while i < n
        invariant
            n == vs@.len(),
            i <= n,
            forall|j: int|
                0 <= j < i ==> -SCREEN_MAX <= (#[trigger] vs@[j]).x <= SCREEN_MAX && -SCREEN_MAX
                    <= vs@[j].y <= SCREEN_MAX && -SCREEN_MAX <= vs@[j].z <= SCREEN_MAX,
        decreases n - i,
    {
        let v = vs[i];
        if v.x < -SCREEN_MAX || v.x > SCREEN_MAX || v.y < -SCREEN_MAX || v.y > SCREEN_MAX || v.z
            < -SCREEN_MAX || v.z > SCREEN_MAX {
            return false;
        }
        i = i + 1;
    }
    true
}

} // verus!
