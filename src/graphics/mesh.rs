//! Meshes loaded on the GPU, as handles.
use super::manager::DrawingError;
use vstd::prelude::*;

verus! {

/// Most instances that one batch holds.
pub const MAX_BATCH_SIZE: usize = 1000;

/// Floats that one instance takes in a batch buffer: 16 for its matrix,
/// 4 for its texture region.
pub const BATCH_INSTANCE_SIZE: usize = 20;

/// A mesh loaded on the GPU: its buffer handles and sizes.
///
/// Two meshes are the same mesh when their vertex array and index buffer
/// handles agree.
#[derive(Copy, Clone, Debug)]
pub struct Mesh {
    pub vbo: u32,
    pub vao: u32,
    pub ebo: u32,
    pub batch_vbo: u32,
    pub vertex_count: usize,
    pub indices_count: usize,
}

impl Mesh {
    /// Describes a mesh whose buffers were created under these handles.
    pub fn new(
        vbo: u32,
        vao: u32,
        ebo: u32,
        batch_vbo: u32,
        vertex_count: usize,
        indices_count: usize,
    ) -> (r: Mesh)
        ensures
            r == (Mesh { vbo, vao, ebo, batch_vbo, vertex_count, indices_count }),
    {
        Mesh { vbo, vao, ebo, batch_vbo, vertex_count, indices_count }
    }

    pub fn vbo(&self) -> (r: u32)
        ensures
            r == self.vbo,
    {
        self.vbo
    }

    pub fn vao(&self) -> (r: u32)
        ensures
            r == self.vao,
    {
        self.vao
    }

    pub fn ebo(&self) -> (r: u32)
        ensures
            r == self.ebo,
    {
        self.ebo
    }

    pub fn batch_vbo(&self) -> (r: u32)
        ensures
            r == self.batch_vbo,
    {
        self.batch_vbo
    }

    pub fn vertex_count(&self) -> (r: usize)
        ensures
            r == self.vertex_count,
    {
        self.vertex_count
    }

    pub fn indices_count(&self) -> (r: usize)
        ensures
            r == self.indices_count,
    {
        self.indices_count
    }

    /// The mesh identity that draw calls are grouped by.
    pub open spec fn same_mesh(self, other: Mesh) -> bool {
        self.ebo == other.ebo && self.vao == other.vao
    }

    /// What `check` returns: the index buffer is tested first, then the
    /// vertex array; a zero handle was never created.
    pub open spec fn check_result(self) -> Result<(), DrawingError> {
        if self.ebo == 0 {
            Err(DrawingError::MeshEBONotInitialized)
        } else if self.vao == 0 {
            Err(DrawingError::MeshVAONotInitialized)
        } else {
            Ok(())
        }
    }

    /// Tells whether the mesh can be drawn.
    pub fn check(&self) -> (r: Result<(), DrawingError>)
        ensures
            r == self.check_result(),
    {
        if self.ebo == 0 {
            return Err(DrawingError::MeshEBONotInitialized);
        }
        if self.vao == 0 {
            return Err(DrawingError::MeshVAONotInitialized);
        }
        Ok(())
    }
}

impl PartialEq for Mesh {
    fn eq(&self, other: &Mesh) -> (r: bool) {
        self.ebo == other.ebo && self.vao == other.vao
    }
}

impl vstd::std_specs::cmp::PartialEqSpecImpl for Mesh {
    open spec fn obeys_eq_spec() -> bool {
        true
    }

    open spec fn eq_spec(&self, other: &Mesh) -> bool {
        self.same_mesh(*other)
    }
}

impl Eq for Mesh {}

} // verus!
