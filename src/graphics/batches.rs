//! Draw calls grouped into capacity-bounded batches, one instanced draw
//! per batch.
use super::mesh::{Mesh, MAX_BATCH_SIZE};
use super::shaders::Program;
use super::Texture;
use vstd::prelude::*;

verus! {

/// One object to draw this frame: the GPU state it needs bound and its
/// per-instance data (its matrix and texture region, packed by the caller).
#[derive(Debug)]
pub struct DrawCall<T> {
    /// Shader program to render with.
    pub program: Program,
    /// Mesh to render.
    pub mesh: Mesh,
    /// Texture to sample.
    pub texture: Texture,
    /// Buffer that receives the instance data of the batch.
    pub batch_vbo: u32,
    /// Per-instance data.
    pub instance: T,
}

/// Two draw calls can share a batch exactly when they bind the same
/// program, mesh and texture.
pub open spec fn same_state(
    prog_a: Program,
    mesh_a: Mesh,
    tex_a: Texture,
    prog_b: Program,
    mesh_b: Mesh,
    tex_b: Texture,
) -> bool {
    prog_a == prog_b && mesh_a.same_mesh(mesh_b) && tex_a == tex_b
}

/// Two draw calls bind the same program, mesh and texture.
pub open spec fn shares_state<T>(a: DrawCall<T>, b: DrawCall<T>) -> bool {
    same_state(a.program, a.mesh, a.texture, b.program, b.mesh, b.texture)
}

/// What a batch is: the state it binds and the instances it holds, in the
/// order they were added.
pub struct BatchView<T> {
    pub program: Program,
    pub mesh: Mesh,
    pub texture: Texture,
    pub batch_vbo: u32,
    pub instances: Seq<T>,
}

impl<T> BatchView<T> {
    /// The batch that a draw call opens: its state and its one instance.
    pub open spec fn opened_by(dc: DrawCall<T>) -> BatchView<T> {
        BatchView {
            program: dc.program,
            mesh: dc.mesh,
            texture: dc.texture,
            batch_vbo: dc.batch_vbo,
            instances: seq![dc.instance],
        }
    }

    /// The batch binds the state that `dc` needs.
    pub open spec fn matches(self, dc: DrawCall<T>) -> bool {
        same_state(self.program, self.mesh, self.texture, dc.program, dc.mesh, dc.texture)
    }

    /// The batch has room for one more instance.
    pub open spec fn has_room(self) -> bool {
        self.instances.len() < MAX_BATCH_SIZE
    }

    /// The batch binds the state that `dc` needs and has room for it.
    pub open spec fn accepts(self, dc: DrawCall<T>) -> bool {
        self.matches(dc) && self.has_room()
    }

    /// The same batch with one more instance at its end.
    pub open spec fn with_instance(self, x: T) -> BatchView<T> {
        BatchView { instances: self.instances.push(x), ..self }
    }
}

/// Index of the first batch of `s` that accepts `dc`, or -1 if none does.
pub open spec fn first_accepting<T>(s: Seq<BatchView<T>>, dc: DrawCall<T>) -> int
    decreases s.len(),
{
    if s.len() == 0 {
        -1
    } else {
        let r = first_accepting(s.drop_last(), dc);
        if r >= 0 {
            r
        } else if s.last().accepts(dc) {
            s.len() - 1
        } else {
            -1
        }
    }
}

/// The batches after `dc` was inserted into `s`: added to the first batch
/// that accepts it, or else to a new batch at the end.
pub open spec fn inserted<T>(s: Seq<BatchView<T>>, dc: DrawCall<T>) -> Seq<BatchView<T>> {
    let i = first_accepting(s, dc);
    if i >= 0 {
        s.update(i, s[i].with_instance(dc.instance))
    } else {
        s.push(BatchView::opened_by(dc))
    }
}

/// Where `dc` goes when inserted into `s`: the index of the batch that
/// receives it.
pub open spec fn placement<T>(s: Seq<BatchView<T>>, dc: DrawCall<T>) -> int {
    let i = first_accepting(s, dc);
    if i >= 0 {
        i
    } else {
        s.len() as int
    }
}

/// The batches after inserting `dcs`, in order, into an empty list.
pub open spec fn batched<T>(dcs: Seq<DrawCall<T>>) -> Seq<BatchView<T>>
    decreases dcs.len(),
{
    if dcs.len() == 0 {
        Seq::empty()
    } else {
        inserted(batched(dcs.drop_last()), dcs.last())
    }
}

/// Number of instances over all batches of `s`.
pub open spec fn total_instances<T>(s: Seq<BatchView<T>>) -> int
    decreases s.len(),
{
    if s.len() == 0 {
        0
    } else {
        total_instances(s.drop_last()) + s.last().instances.len()
    }
}

/// Draw calls that share one GPU state, drawn together.
pub struct Batch<T> {
    program: Program,
    mesh: Mesh,
    texture: Texture,
    batch_vbo: u32,
    instances: Vec<T>,
}

impl<T> View for Batch<T> {
    type V = BatchView<T>;

    closed spec fn view(&self) -> BatchView<T> {
        BatchView {
            program: self.program,
            mesh: self.mesh,
            texture: self.texture,
            batch_vbo: self.batch_vbo,
            instances: self.instances@,
        }
    }
}

impl<T> Batch<T> {
    pub fn program(&self) -> (r: Program)
        ensures
            r == self@.program,
    {
        self.program
    }

    pub fn mesh(&self) -> (r: Mesh)
        ensures
            r == self@.mesh,
    {
        self.mesh
    }

    pub fn texture(&self) -> (r: Texture)
        ensures
            r == self@.texture,
    {
        self.texture
    }

    /// Buffer that receives this batch's instance data.
    pub fn batch_vbo(&self) -> (r: u32)
        ensures
            r == self@.batch_vbo,
    {
        self.batch_vbo
    }

    /// Number of objects in the batch.
    pub fn obj_count(&self) -> (r: usize)
        ensures
            r == self@.instances.len(),
    {
        self.instances.len()
    }

    /// The instances, in the order they were added.
    pub fn instances(&self) -> (r: &Vec<T>)
        ensures
            r@ == self@.instances,
    {
        &self.instances
    }

    /// Opens a batch for the state of `drawcall`, holding it.
    pub fn new(drawcall: DrawCall<T>) -> (r: Batch<T>)
        ensures
            r@ == BatchView::opened_by(drawcall),
    {
        let mut instances = Vec::new();
        instances.push(drawcall.instance);
        let r = Batch {
            program: drawcall.program,
            mesh: drawcall.mesh,
            texture: drawcall.texture,
            batch_vbo: drawcall.batch_vbo,
            instances,
        };
        proof {
            assert(r@.instances =~= seq![drawcall.instance]);
        }
        r
    }

    /// Adds an object to the batch. Returns false, and leaves the batch
    /// as it was, when the batch is full.
    pub fn add(&mut self, drawcall: DrawCall<T>) -> (r: bool)
        ensures
            r == old(self)@.has_room(),
            r ==> final(self)@ == old(self)@.with_instance(drawcall.instance),
            !r ==> final(self)@ == old(self)@,
    {
        if self.instances.len() >= MAX_BATCH_SIZE {
            return false;
        }
        self.instances.push(drawcall.instance);
        true
    }
}

/// The batches to draw this frame.
pub struct BatchList<T> {
    batches: Vec<Batch<T>>,
}

impl<T> View for BatchList<T> {
    type V = Seq<BatchView<T>>;

    closed spec fn view(&self) -> Seq<BatchView<T>> {
        self.batches@.map_values(|b: Batch<T>| b@)
    }
}

/// Every batch holds at least one instance and at most `MAX_BATCH_SIZE`.
pub open spec fn batches_wf<T>(s: Seq<BatchView<T>>) -> bool {
    forall|i: int|
        0 <= i < s.len() ==> 1 <= #[trigger] s[i].instances.len() <= MAX_BATCH_SIZE
}

impl<T> BatchList<T> {
    pub open spec fn wf(&self) -> bool {
        batches_wf(self@)
    }

    /// An empty list.
    pub fn new() -> (r: BatchList<T>)
        ensures
            r@ == Seq::<BatchView<T>>::empty(),
            r.wf(),
    {
        let r = BatchList { batches: Vec::new() };
        proof {
            assert(r@ =~= Seq::<BatchView<T>>::empty());
        }
        r
    }

    /// An empty list with room for `capacity` batches before it grows.
    pub fn with_capacity(capacity: usize) -> (r: BatchList<T>)
        ensures
            r@ == Seq::<BatchView<T>>::empty(),
            r.wf(),
    {
        let r = BatchList { batches: Vec::with_capacity(capacity) };
        proof {
            assert(r@ =~= Seq::<BatchView<T>>::empty());
        }
        r
    }

    /// Adds `drawcall` to the first batch that binds its state and has
    /// room, or opens a new batch for it at the end.
    pub fn insert(&mut self, drawcall: DrawCall<T>)
        requires
            old(self).wf(),
        ensures
            final(self).wf(),
            final(self)@ == inserted(old(self)@, drawcall),
    {
        let ghost s = self@;
        let n = self.batches.len();
        let mut i: usize = 0;
        while i < n
            invariant
                n == self.batches@.len(),
                s == self@,
                s == old(self)@,
                batches_wf(s),
                0 <= i <= n,
                first_accepting(s.take(i as int), drawcall) == -1,
            decreases n - i,
        {
            proof {
                assert(s.take(i as int + 1).drop_last() =~= s.take(i as int));
            }
            let b = &self.batches[i];
            if b.program == drawcall.program && b.mesh.ebo == drawcall.mesh.ebo
                && b.mesh.vao == drawcall.mesh.vao && b.texture == drawcall.texture
                && b.instances.len() < MAX_BATCH_SIZE {
                proof {
                    lemma_first_accepting_prefix(s, drawcall, i as int);
                }
                let ghost x = drawcall.instance;
                self.batches[i].add(drawcall);
                proof {
                    assert(self.batches@[i as int]@ == s[i as int].with_instance(x));
                    assert(self@ =~= s.update(i as int, s[i as int].with_instance(x)));
                    assert(self@ =~= inserted(s, drawcall));
                }
                return;
            }
            i = i + 1;
        }
        proof {
            assert(s.take(n as int) =~= s);
        }
        self.batches.push(Batch::new(drawcall));
        proof {
            assert(self@ =~= inserted(s, drawcall));
        }
    }

    /// Discards every batch.
    pub fn clear(&mut self)
        ensures
            final(self)@ == Seq::<BatchView<T>>::empty(),
            final(self).wf(),
    {
        self.batches.clear();
        proof {
            assert(self@ =~= Seq::<BatchView<T>>::empty());
        }
    }

    /// Hands out every batch, leaving the list empty.
    pub fn take(&mut self) -> (r: BatchList<T>)
        ensures
            r@ == old(self)@,
            final(self)@ == Seq::<BatchView<T>>::empty(),
    {
        let mut batches = Vec::new();
        core::mem::swap(&mut batches, &mut self.batches);
        let r = BatchList { batches };
        proof {
            assert(self@ =~= Seq::<BatchView<T>>::empty());
        }
        r
    }

    /// Number of batches.
    pub fn len(&self) -> (r: usize)
        ensures
            r == self@.len(),
    {
        self.batches.len()
    }

    /// The batches, in the order they were opened.
    pub fn iter(&self) -> (r: &[Batch<T>])
        ensures
            r@.map_values(|b: Batch<T>| b@) == self@,
    {
        self.batches.as_slice()
    }
}

/// `first_accepting` finds the first batch that accepts, and only fails
/// when none does.
proof fn lemma_first_accepting<T>(s: Seq<BatchView<T>>, dc: DrawCall<T>)
    ensures
        -1 <= first_accepting(s, dc) < s.len(),
        first_accepting(s, dc) >= 0 ==> s[first_accepting(s, dc)].accepts(dc),
        forall|j: int|
            0 <= j < s.len() && (first_accepting(s, dc) == -1 || j < first_accepting(s, dc))
                ==> !(#[trigger] s[j]).accepts(dc),
    decreases s.len(),
{
    if s.len() > 0 {
        lemma_first_accepting(s.drop_last(), dc);
        assert forall|j: int| 0 <= j < s.len() - 1 implies s.drop_last()[j] == s[j] by {}
    }
}

/// Adding one instance to a batch adds one to the total.
proof fn lemma_total_with_instance<T>(s: Seq<BatchView<T>>, i: int, x: T)
    requires
        0 <= i < s.len(),
    ensures
        total_instances(s.update(i, s[i].with_instance(x))) == total_instances(s) + 1,
    decreases s.len(),
{
    let u = s.update(i, s[i].with_instance(x));
    if i == s.len() - 1 {
        assert(u.drop_last() =~= s.drop_last());
    } else {
        assert(u.drop_last() =~= s.drop_last().update(i, s[i].with_instance(x)));
        lemma_total_with_instance(s.drop_last(), i, x);
    }
}

/// Inserting a draw call adds exactly one instance to the total.
proof fn lemma_total_inserted<T>(s: Seq<BatchView<T>>, dc: DrawCall<T>)
    ensures
        total_instances(inserted(s, dc)) == total_instances(s) + 1,
{
    lemma_first_accepting(s, dc);
    let i = first_accepting(s, dc);
    if i >= 0 {
        lemma_total_with_instance(s, i, dc.instance);
    } else {
        assert(s.push(BatchView::opened_by(dc)).drop_last() =~= s);
    }
}

/// The shape of the batches that draw calls of one state fill: all full
/// but the last, which holds what is left over.
proof fn lemma_one_state_shape<T>(dcs: Seq<DrawCall<T>>)
    requires
        dcs.len() > 0,
        forall|i: int, j: int|
            0 <= i < dcs.len() && 0 <= j < dcs.len() ==> #[trigger] shares_state(dcs[i], dcs[j]),
    ensures
        batched(dcs).len() >= 1,
        batched(dcs).len() == (dcs.len() + MAX_BATCH_SIZE - 1) / MAX_BATCH_SIZE as int,
        forall|j: int|
            0 <= j < batched(dcs).len() - 1 ==> (#[trigger] batched(dcs)[j]).instances.len()
                == MAX_BATCH_SIZE,
        1 <= batched(dcs).last().instances.len() <= MAX_BATCH_SIZE,
        batched(dcs).last().instances.len() == dcs.len() - MAX_BATCH_SIZE * (batched(
            dcs,
        ).len() - 1),
        forall|j: int| 0 <= j < batched(dcs).len() ==> (#[trigger] batched(dcs)[j]).matches(dcs[0]),
    decreases dcs.len(),
{
    let n = dcs.len();
    let dc = dcs.last();
    let p = dcs.drop_last();
    let s = batched(p);
    assert(shares_state(dcs[0], dcs[n - 1]));
    lemma_first_accepting(s, dc);
    if n == 1 {
        assert(s =~= Seq::<BatchView<T>>::empty());
        assert(batched(dcs) =~= seq![BatchView::opened_by(dc)]);
    } else {
        assert forall|i: int, j: int| 0 <= i < p.len() && 0 <= j < p.len() implies #[trigger] shares_state(
            p[i],
            p[j],
        ) by {
            assert(shares_state(dcs[i], dcs[j]));
        }
        lemma_one_state_shape(p);
        assert(p[0] == dcs[0]);
        let l = s.len() as int;
        let c = s.last().instances.len();
        assert(s[l - 1].matches(dc));
        if c < MAX_BATCH_SIZE {
            assert(s[l - 1].accepts(dc));
            assert(first_accepting(s, dc) == l - 1) by {
                if first_accepting(s, dc) != l - 1 {
                    assert(!s[first_accepting(s, dc)].has_room());
                }
            }
            let r = batched(dcs);
            assert(r =~= s.update(l - 1, s[l - 1].with_instance(dc.instance)));
            assert(r.len() == (n + MAX_BATCH_SIZE - 1) / MAX_BATCH_SIZE as int);
        } else {
            assert(first_accepting(s, dc) == -1) by {
                if first_accepting(s, dc) >= 0 {
                    let f = first_accepting(s, dc);
                    assert(s[f].has_room());
                }
            }
            let r = batched(dcs);
            assert(r =~= s.push(BatchView::opened_by(dc)));
            assert(r.len() == (n + MAX_BATCH_SIZE - 1) / MAX_BATCH_SIZE as int);
            assert(r[l as int].matches(dcs[0]));
        }
    }
}

/// Inserting draw calls that all bind one state into an empty list gives
/// `ceil(N / MAX_BATCH_SIZE)` batches, none above capacity, that hold the
/// `N` instances between them.
pub proof fn lemma_batch_capacity<T>(dcs: Seq<DrawCall<T>>)
    requires
        forall|i: int, j: int|
            0 <= i < dcs.len() && 0 <= j < dcs.len() ==> #[trigger] shares_state(dcs[i], dcs[j]),
    ensures
        batched(dcs).len() == (dcs.len() + MAX_BATCH_SIZE - 1) / MAX_BATCH_SIZE as int,
        batches_wf(batched(dcs)),
        total_instances(batched(dcs)) == dcs.len(),
    decreases dcs.len(),
{
    if dcs.len() > 0 {
        lemma_one_state_shape(dcs);
        let p = dcs.drop_last();
        assert forall|i: int, j: int| 0 <= i < p.len() && 0 <= j < p.len() implies #[trigger] shares_state(
            p[i],
            p[j],
        ) by {
            assert(shares_state(dcs[i], dcs[j]));
        }
        lemma_batch_capacity(p);
        lemma_total_inserted(batched(p), dcs.last());
    }
}

/// Inserting a draw call puts its instance at the end of one batch that
/// binds its state, and leaves every other batch as it was.
proof fn lemma_placement<T>(s: Seq<BatchView<T>>, dc: DrawCall<T>)
    ensures
        ({
            let r = inserted(s, dc);
            let i = placement(s, dc);
            &&& 0 <= i < r.len()
            &&& r.len() == if i < s.len() { s.len() } else { s.len() + 1 }
            &&& r[i].matches(dc)
            &&& i < s.len() ==> r[i] == s[i].with_instance(dc.instance)
            &&& i == s.len() ==> r[i] == BatchView::opened_by(dc)
            &&& forall|k: int| 0 <= k < s.len() && k != i ==> r[k] == s[k]
        }),
{
    lemma_first_accepting(s, dc);
}

/// Draw calls that bind different states never share a batch: after `a`
/// and then `b` are inserted, they sit in two different batches, each of
/// which binds its own draw call's state.
pub proof fn lemma_key_grouping<T>(s: Seq<BatchView<T>>, a: DrawCall<T>, b: DrawCall<T>)
    requires
        !shares_state(a, b),
    ensures
        ({
            let s1 = inserted(s, a);
            let s2 = inserted(s1, b);
            let ia = placement(s, a);
            let ib = placement(s1, b);
            &&& 0 <= ia < s2.len() && 0 <= ib < s2.len()
            &&& ia != ib
            &&& s2[ia].matches(a) && !s2[ia].matches(b)
            &&& s2[ib].matches(b) && !s2[ib].matches(a)
        }),
{
    lemma_placement(s, a);
    let s1 = inserted(s, a);
    lemma_placement(s1, b);
}

/// A list of this frame's batches that was just emptied starts again from
/// one batch holding the first draw call.
pub proof fn lemma_fresh_start<T>(dc: DrawCall<T>)
    ensures
        inserted(Seq::<BatchView<T>>::empty(), dc) == seq![BatchView::opened_by(dc)],
{
    lemma_first_accepting(Seq::<BatchView<T>>::empty(), dc);
    assert(inserted(Seq::<BatchView<T>>::empty(), dc) =~= seq![BatchView::opened_by(dc)]);
}

/// When no batch among the first `i` accepts `dc` and batch `i` does,
/// batch `i` is the first that accepts it.
proof fn lemma_first_accepting_prefix<T>(s: Seq<BatchView<T>>, dc: DrawCall<T>, i: int)
    requires
        0 <= i < s.len(),
        first_accepting(s.take(i), dc) == -1,
        s[i].accepts(dc),
    ensures
        first_accepting(s, dc) == i,
    decreases s.len(),
{
    if s.len() == i + 1 {
        assert(s.drop_last() =~= s.take(i));
    } else {
        assert(s.drop_last().take(i) =~= s.take(i));
        lemma_first_accepting_prefix(s.drop_last(), dc, i);
    }
}

} // verus!
