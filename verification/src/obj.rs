use vstd::prelude::*;
use crate::fixed::FX_ONE;
use crate::geometry::{Vec2, Vec3};
use crate::vertex::Vertex;

verus! {

/// A pre-triangulated mesh: flat attribute arrays and an index list whose
/// consecutive triples are triangles. The normal and texture-coordinate
/// arrays run parallel to the vertices; a mesh that supplies none leaves
/// them empty. The frame driver fills one from a model file; the pipeline
/// only reads it.
pub struct Obj {
    pub vertices: Vec<Vec3>,
    pub normals: Vec<Vec3>,
    pub texcoords: Vec<Vec2>,
    pub indices: Vec<usize>,
}

impl Obj {
    /// The mesh invariant: whole triangles only, and every index lands
    /// inside the vertex array and, when the mesh supplies them, inside
    /// the normal and texture-coordinate arrays too.
    pub open spec fn wf(self) -> bool {
        &&& self.indices@.len() % 3 == 0
        &&& forall|i: int| 0 <= i < self.indices@.len() ==> self.indices@[i] < self.vertices@.len()
        &&& self.normals@.len() == 0 || forall|i: int|
            0 <= i < self.indices@.len() ==> self.indices@[i] < self.normals@.len()
        &&& self.texcoords@.len() == 0 || forall|i: int|
            0 <= i < self.indices@.len() ==> self.indices@[i] < self.texcoords@.len()
    }

    /// Assemble a mesh, checking the invariant once at construction:
    /// `None` when the index list is not whole triangles or points outside
    /// an attribute array.
    pub fn new(
        vertices: Vec<Vec3>,
        normals: Vec<Vec3>,
        texcoords: Vec<Vec2>,
        indices: Vec<usize>,
    ) -> (r: Option<Obj>)
        ensures
            match r {
                Some(o) => o.vertices == vertices && o.normals == normals && o.texcoords
                    == texcoords && o.indices == indices && o.wf(),
                None => !(Obj {
                    vertices: vertices,
                    normals: normals,
                    texcoords: texcoords,
                    indices: indices,
                }).wf(),
            },
    {
        let o = Obj { vertices, normals, texcoords, indices };
        if o.check_wf() {
            Some(o)
        } else {
            None
        }
    }

    /// Test the mesh invariant at run time.
    pub fn check_wf(&self) -> (b: bool)
        ensures
            b == self.wf(),
    {
        if self.indices.len() % 3 != 0 {
            return false;
        }
        let check_normals = self.normals.len() > 0;
        let check_texcoords = self.texcoords.len() > 0;
        let mut i: usize = 0;
        while i < self.indices.len()
            invariant
                i <= self.indices@.len(),
                check_normals == (self.normals@.len() > 0),
                check_texcoords == (self.texcoords@.len() > 0),
                forall|j: int| 0 <= j < i ==> self.indices@[j] < self.vertices@.len(),
                check_normals ==> forall|j: int|
                    0 <= j < i ==> self.indices@[j] < self.normals@.len(),
                check_texcoords ==> forall|j: int|
                    0 <= j < i ==> self.indices@[j] < self.texcoords@.len(),
            decreases self.indices@.len() - i,
        {
            if self.indices[i] >= self.vertices.len() {
                return false;
            }
            if check_normals && self.indices[i] >= self.normals.len() {
                return false;
            }
            if check_texcoords && self.indices[i] >= self.texcoords.len() {
                return false;
            }
            i = i + 1;
        }
        true
    }

    /// The vertex the mesh's `i`-th index refers to, as the pipeline's
    /// input bundle: the indexed position, normal and texture coordinate.
    /// A mesh without normals yields a unit normal along `z`, and one
    /// without texture coordinates a zeroed pair.
    pub open spec fn indexed_vertex_spec(self, i: int) -> Vertex {
        Vertex {
            position: self.vertices@[self.indices@[i] as int],
            normal: if self.normals@.len() == 0 {
                Vec3 { x: 0, y: 0, z: FX_ONE }
            } else {
                self.normals@[self.indices@[i] as int]
            },
            tex_coords: if self.texcoords@.len() == 0 {
                Vec2 { x: 0, y: 0 }
            } else {
                self.texcoords@[self.indices@[i] as int]
            },
            color: crate::color::Color::black_spec(),
        }
    }

    /// Flatten the mesh into the vertex stream the pipeline consumes, one
    /// vertex per index, in index order, each carrying the mesh's own
    /// normal and texture coordinate at that index.
    pub fn get_vertex_array(&self) -> (arr: Vec<Vertex>)
        requires
            self.wf(),
        ensures
            arr@.len() == self.indices@.len(),
            forall|i: int| 0 <= i < arr@.len() ==> arr@[i] == self.indexed_vertex_spec(i),
    {
        let mut arr: Vec<Vertex> = Vec::new();
        let mut i: usize = 0;
        while i < self.indices.len()
            invariant
                self.wf(),
                i <= self.indices@.len(),
                arr@.len() == i,
                forall|j: int| 0 <= j < i ==> arr@[j] == self.indexed_vertex_spec(j),
            decreases self.indices@.len() - i,
        {
            let idx = self.indices[i];
            let position = self.vertices[idx];
            let normal = if self.normals.len() == 0 {
                Vec3 { x: 0, y: 0, z: FX_ONE }
            } else {
                self.normals[idx]
            };
            let tex_coords = if self.texcoords.len() == 0 {
                Vec2 { x: 0, y: 0 }
            } else {
                self.texcoords[idx]
            };
            arr.push(Vertex { position, normal, tex_coords, color: crate::color::Color::black() });
            i = i + 1;
        }
        arr
    }
}

} // verus!
