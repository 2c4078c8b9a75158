//! Sprite sheets: a texture cut into a grid of equal cells.
use super::Texture;
use vstd::prelude::*;

verus! {

/// A region of a texture, in pixels, with the size of the whole texture.
///
/// In normalized texture coordinates the region starts at
/// `(x / tex_width, y / tex_height)` and spans
/// `(width / tex_width, height / tex_height)`.
#[derive(Copy, Clone, Debug, PartialEq, Eq, Structural)]
pub struct TexRegion {
    pub x: i64,
    pub y: i64,
    pub width: u32,
    pub height: u32,
    pub tex_width: u32,
    pub tex_height: u32,
}

/// A texture sliced into sprites of one size.
#[derive(Copy, Clone, Debug)]
pub struct SpriteSheet {
    texture: Texture,
    sprite_size: (u32, u32),
    /// Instance buffer used for this sheet's batches.
    vbo: u32,
}

/// The region of cell `(cx, cy)` in a sheet of cells `(w, h)` over `texture`.
pub open spec fn cell_region(texture: Texture, w: u32, h: u32, cx: i32, cy: i32) -> TexRegion {
    TexRegion {
        x: (w * cx) as i64,
        y: (h * cy) as i64,
        width: w,
        height: h,
        tex_width: texture.width,
        tex_height: texture.height,
    }
}

proof fn lemma_cell_offset_fits(w: u32, c: i32)
    ensures
        i64::MIN <= w * c <= i64::MAX,
{
    assert(-0x1_0000_0000_0000_0000 < w * c < 0x1_0000_0000_0000_0000) by (nonlinear_arith)
        requires
            0 <= w < 0x1_0000_0000,
            -0x8000_0000 <= c < 0x8000_0000,
    ;
    assert(w * c <= 0xffff_ffff * 0x7fff_ffff) by (nonlinear_arith)
        requires
            0 <= w <= 0xffff_ffff,
            c <= 0x7fff_ffff,
    {
        if c >= 0 {
            assert(w * c <= 0xffff_ffff * c);
        }
    }
    assert(w * c >= 0xffff_ffff * -0x8000_0000) by (nonlinear_arith)
        requires
            0 <= w <= 0xffff_ffff,
            -0x8000_0000 <= c,
    {
        if c < 0 {
            assert(w * c >= 0xffff_ffff * c);
        }
    }
}

impl SpriteSheet {
    pub closed spec fn spec_texture(&self) -> Texture {
        self.texture
    }

    pub closed spec fn spec_sprite_size(&self) -> (u32, u32) {
        self.sprite_size
    }

    pub closed spec fn spec_vbo(&self) -> u32 {
        self.vbo
    }

    /// Cuts `texture` into sprites of `sprite_size` pixels; `vbo` is the
    /// instance buffer that the sheet's batches fill.
    pub fn new(texture: Texture, sprite_size: (u32, u32), vbo: u32) -> (r: SpriteSheet)
        requires
            texture.width > 0,
            texture.height > 0,
        ensures
            r.spec_texture() == texture,
            r.spec_sprite_size() == sprite_size,
            r.spec_vbo() == vbo,
    {
        SpriteSheet { texture, sprite_size, vbo }
    }

    pub fn texture(&self) -> (r: Texture)
        ensures
            r == self.spec_texture(),
    {
        self.texture
    }

    pub fn vbo(&self) -> (r: u32)
        ensures
            r == self.spec_vbo(),
    {
        self.vbo
    }

    /// Size of one sprite, in pixels.
    pub fn sprite_size(&self) -> (r: (u32, u32))
        ensures
            r == self.spec_sprite_size(),
    {
        self.sprite_size
    }

    pub fn sprite_width(&self) -> (r: u32)
        ensures
            r == self.spec_sprite_size().0,
    {
        self.sprite_size.0
    }

    pub fn sprite_height(&self) -> (r: u32)
        ensures
            r == self.spec_sprite_size().1,
    {
        self.sprite_size.1
    }

    /// The texture region of the cell at `position`, counted in cells from
    /// the texture's origin. Cells past the texture's edge are not refused:
    /// they sample outside it.
    pub fn gl_position(&self, position: (i32, i32)) -> (r: TexRegion)
        ensures
            r == cell_region(
                self.spec_texture(),
                self.spec_sprite_size().0,
                self.spec_sprite_size().1,
                position.0,
                position.1,
            ),
    {
        proof {
            lemma_cell_offset_fits(self.sprite_size.0, position.0);
            lemma_cell_offset_fits(self.sprite_size.1, position.1);
        }
        TexRegion {
            x: self.sprite_size.0 as i64 * position.0 as i64,
            y: self.sprite_size.1 as i64 * position.1 as i64,
            width: self.sprite_size.0,
            height: self.sprite_size.1,
            tex_width: self.texture.width,
            tex_height: self.texture.height,
        }
    }

    /// The sprite at cell `(x, y)` of this sheet.
    pub fn sprite(&self, x: i32, y: i32) -> (r: Sprite)
        ensures
            r.sheet == *self,
            r.position == (x, y),
    {
        Sprite::new(*self, (x, y))
    }
}

/// One cell of a sprite sheet, drawn on a quad.
#[derive(Copy, Clone, Debug)]
pub struct Sprite {
    /// Sheet the sprite is cut from.
    pub sheet: SpriteSheet,
    /// Cell of the sheet, which callers may move between frames.
    pub position: (i32, i32),
}

impl Sprite {
    /// The region of the texture that this sprite samples.
    pub open spec fn region(&self) -> TexRegion {
        cell_region(
            self.sheet.spec_texture(),
            self.sheet.spec_sprite_size().0,
            self.sheet.spec_sprite_size().1,
            self.position.0,
            self.position.1,
        )
    }

    /// The sprite at cell `position` of `sheet`.
    pub fn new(sheet: SpriteSheet, position: (i32, i32)) -> (r: Sprite)
        ensures
            r.sheet == sheet,
            r.position == position,
    {
        Sprite { sheet, position }
    }

    pub fn texture(&self) -> (r: Texture)
        ensures
            r == self.sheet.spec_texture(),
    {
        self.sheet.texture
    }

    pub fn vbo(&self) -> (r: u32)
        ensures
            r == self.sheet.spec_vbo(),
    {
        self.sheet.vbo
    }

    /// The region of the texture that this sprite samples.
    pub fn gl_position(&self) -> (r: TexRegion)
        ensures
            r == self.region(),
    {
        self.sheet.gl_position(self.position)
    }
}

} // verus!
