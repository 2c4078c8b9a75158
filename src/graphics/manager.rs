//! Per-frame state of the renderer.
use super::batches::{inserted, lemma_fresh_start, Batch, BatchList, BatchView, DrawCall};
use super::mesh::Mesh;
use super::shaders::Program;
use super::sprites::Sprite;
use super::textures::{lookup, TextureCache};
use super::Texture;
use vstd::prelude::*;

verus! {

/// Why a frame could not be drawn.
#[derive(Debug, PartialEq, Eq)]
pub enum DrawingError {
    /// A resource could not be loaded; holds the loader's message.
    ResourceError(String),
    /// A shader could not be built; holds the driver's message.
    ShaderError(String),
    /// Tried drawing a mesh that had no index buffer.
    MeshEBONotInitialized,
    /// Tried drawing a mesh that had no vertex array.
    MeshVAONotInitialized,
}

} // verus!

verus! {

/// Whether every batch of `s` can be drawn, and if not the error of the
/// first one that cannot.
pub open spec fn frame_check<T>(s: Seq<BatchView<T>>) -> Result<(), DrawingError>
    decreases s.len(),
{
    if s.len() == 0 {
        Ok(())
    } else {
        match frame_check(s.drop_last()) {
            Ok(()) => s.last().mesh.check_result(),
            Err(e) => Err(e),
        }
    }
}

/// The draw call that `draw_sprite` records.
pub open spec fn sprite_drawcall<T>(
    program: Program,
    quad: Mesh,
    sprite: Sprite,
    instance: T,
) -> DrawCall<T> {
    DrawCall {
        program,
        mesh: quad,
        texture: sprite.sheet.spec_texture(),
        batch_vbo: sprite.sheet.spec_vbo(),
        instance,
    }
}

/// The renderer's state across a frame: the program and quad that sprites
/// are drawn with, the textures loaded so far, and the batches recorded
/// since the frame began. `T` is the per-instance data that the GPU
/// receives.
pub struct GraphicsManager<T> {
    program: Program,
    quad: Mesh,
    textures: TextureCache,
    batches: BatchList<T>,
}

impl<T> GraphicsManager<T> {
    pub closed spec fn spec_program(&self) -> Program {
        self.program
    }

    pub closed spec fn spec_quad(&self) -> Mesh {
        self.quad
    }

    /// Textures loaded so far, by path.
    pub closed spec fn spec_textures(&self) -> Map<Seq<char>, Texture> {
        self.textures@
    }

    /// Batches recorded this frame.
    pub closed spec fn spec_batches(&self) -> Seq<BatchView<T>> {
        self.batches@
    }

    pub closed spec fn wf(&self) -> bool {
        self.textures.wf() && self.batches.wf()
    }

    /// A renderer that draws sprites with `program` on `quad`, with no
    /// texture loaded and nothing recorded.
    pub fn new(program: Program, quad: Mesh) -> (r: GraphicsManager<T>)
        ensures
            r.wf(),
            r.spec_program() == program,
            r.spec_quad() == quad,
            r.spec_textures() == Map::<Seq<char>, Texture>::empty(),
            r.spec_batches() == Seq::<BatchView<T>>::empty(),
    {
        GraphicsManager {
            program,
            quad,
            textures: TextureCache::new(),
            batches: BatchList::with_capacity(10),
        }
    }

    /// The mesh sprites are drawn on.
    pub fn quad(&self) -> (r: &Mesh)
        ensures
            *r == self.spec_quad(),
    {
        &self.quad
    }

    /// The program sprites are drawn with.
    pub fn program(&self) -> (r: Program)
        ensures
            r == self.spec_program(),
    {
        self.program
    }

    /// The texture loaded from `path`, if it was loaded already.
    pub fn get_texture(&self, path: &String) -> (r: Option<Texture>)
        requires
            self.wf(),
        ensures
            r == lookup(self.spec_textures(), path@),
    {
        self.textures.get(path)
    }

    /// Records that `texture` was loaded from `path`.
    pub fn store_texture(&mut self, path: String, texture: Texture)
        requires
            old(self).wf(),
        ensures
            final(self).wf(),
            final(self).spec_textures() == old(self).spec_textures().insert(path@, texture),
            final(self).spec_batches() == old(self).spec_batches(),
            final(self).spec_program() == old(self).spec_program(),
            final(self).spec_quad() == old(self).spec_quad(),
    {
        self.textures.insert(path, texture);
    }

    /// Starts a frame: nothing is recorded.
    pub fn clear(&mut self)
        requires
            old(self).wf(),
        ensures
            final(self).wf(),
            final(self).spec_batches() == Seq::<BatchView<T>>::empty(),
            final(self).spec_textures() == old(self).spec_textures(),
            final(self).spec_program() == old(self).spec_program(),
            final(self).spec_quad() == old(self).spec_quad(),
    {
        self.batches.clear();
    }

    /// Records `sprite`, with its per-instance data, for this frame.
    pub fn draw_sprite(&mut self, sprite: &Sprite, instance: T)
        requires
            old(self).wf(),
        ensures
            final(self).wf(),
            final(self).spec_batches() == inserted(
                old(self).spec_batches(),
                sprite_drawcall(old(self).spec_program(), old(self).spec_quad(), *sprite, instance),
            ),
            final(self).spec_textures() == old(self).spec_textures(),
            final(self).spec_program() == old(self).spec_program(),
            final(self).spec_quad() == old(self).spec_quad(),
    {
        self.batches.insert(
            DrawCall {
                program: self.program,
                mesh: self.quad,
                texture: sprite.texture(),
                batch_vbo: sprite.vbo(),
                instance,
            },
        );
    }

    /// Ends the frame: hands out the recorded batches for submission when
    /// every one of them can be drawn, or the error of the first that
    /// cannot. Either way the next frame starts from nothing.
    #[verifier::loop_isolation(false)]
    pub fn render(&mut self) -> (r: Result<BatchList<T>, DrawingError>)
        requires
            old(self).wf(),
        ensures
            final(self).wf(),
            final(self).spec_batches() == Seq::<BatchView<T>>::empty(),
            final(self).spec_textures() == old(self).spec_textures(),
            final(self).spec_program() == old(self).spec_program(),
            final(self).spec_quad() == old(self).spec_quad(),
            match r {
                Ok(list) => frame_check(old(self).spec_batches()) == Ok::<(), DrawingError>(())
                    && list@ == old(self).spec_batches() && list.wf(),
                Err(e) => frame_check(old(self).spec_batches()) == Err::<(), DrawingError>(e),
            },
    {
        let list = self.batches.take();
        let ghost s = list@;
        let batches = list.iter();
        let n = batches.len();
        let mut i: usize = 0;
        while i < n
            invariant
                n == batches@.len(),
                batches@.map_values(|b: Batch<T>| b@) == s,
                0 <= i <= n,
                frame_check(s.take(i as int)) == Ok::<(), DrawingError>(()),
            decreases n - i,
        {
            proof {
                assert(s.take(i as int + 1).drop_last() =~= s.take(i as int));
            }
            let checked = batches[i].mesh().check();
            match checked {
                Ok(()) => {},
                Err(e) => {
                    proof {
                        lemma_frame_check_prefix(s, i as int);
                    }
                    return Err(e);
                },
            }
            i = i + 1;
        }
        proof {
            assert(s.take(n as int) =~= s);
        }
        Ok(list)
    }
}

/// A frame whose first `i` batches can be drawn and whose batch `i` cannot
/// fails with the error of batch `i`.
proof fn lemma_frame_check_prefix<T>(s: Seq<BatchView<T>>, i: int)
    requires
        0 <= i < s.len(),
        frame_check(s.take(i)) == Ok::<(), DrawingError>(()),
        s[i].mesh.check_result() is Err,
    ensures
        frame_check(s) == s[i].mesh.check_result(),
    decreases s.len(),
{
    if s.len() == i + 1 {
        assert(s.drop_last() =~= s.take(i));
    } else {
        assert(s.drop_last().take(i) =~= s.take(i));
        lemma_frame_check_prefix(s.drop_last(), i);
    }
}

/// Rendering ends the frame: whatever it returns, no batch is left, and
/// the first sprite recorded afterwards opens a fresh batch holding only
/// its own instance.
pub proof fn lemma_frame_isolation<T>(
    after: GraphicsManager<T>,
    sprite: Sprite,
    instance: T,
)
    requires
        after.spec_batches() == Seq::<BatchView<T>>::empty(),
    ensures
        inserted(
            after.spec_batches(),
            sprite_drawcall(after.spec_program(), after.spec_quad(), sprite, instance),
        ) == seq![
            BatchView::opened_by(
                sprite_drawcall(after.spec_program(), after.spec_quad(), sprite, instance),
            ),
        ],
{
    lemma_fresh_start(sprite_drawcall(after.spec_program(), after.spec_quad(), sprite, instance));
}

} // verus!
