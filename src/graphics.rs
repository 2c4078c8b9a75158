//! GPU-side values and the sprite batching pipeline.
use vstd::prelude::*;

pub mod batches;
pub mod camera;
pub mod drawcall;
pub mod manager;
pub mod mesh;
pub mod shaders;
pub mod sprites;
pub mod textures;

verus! {

/// Handle of a texture loaded on the GPU.
pub type TextureID = u32;

/// Handle of a linked shader program on the GPU.
pub type ProgramID = u32;

/// A texture loaded on the GPU: its handle and its size in pixels.
#[derive(Copy, Clone, Debug, PartialEq, Eq, Structural)]
pub struct Texture {
    pub id: TextureID,
    pub width: u32,
    pub height: u32,
}

impl Texture {
    /// Describes a texture that was uploaded under handle `id`.
    pub fn new(id: TextureID, width: u32, height: u32) -> (r: Texture)
        ensures
            r == (Texture { id, width, height }),
    {
        Texture { id, width, height }
    }

    pub fn id(&self) -> (r: TextureID)
        ensures
            r == self.id,
    {
        self.id
    }

    /// Width and height in pixels.
    pub fn size(&self) -> (r: (u32, u32))
        ensures
            r == (self.width, self.height),
    {
        (self.width, self.height)
    }

    pub fn width(&self) -> (r: u32)
        ensures
            r == self.width,
    {
        self.width
    }

    pub fn height(&self) -> (r: u32)
        ensures
            r == self.height,
    {
        self.height
    }
}

} // verus!
