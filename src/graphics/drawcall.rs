//! Draw calls kept sorted by the GPU state they bind, so that draw calls
//! sharing a state are adjacent and the renderer rebinds only on change.
pub use super::batches::DrawCall;
use vstd::prelude::*;

verus! {

/// The order of draw calls: by program, then texture, then mesh (index
/// buffer, then vertex array).
pub open spec fn state_le<T>(a: DrawCall<T>, b: DrawCall<T>) -> bool {
    a.program.id < b.program.id || (a.program.id == b.program.id && (a.texture.id
        < b.texture.id || (a.texture.id == b.texture.id && (a.mesh.ebo < b.mesh.ebo || (
    a.mesh.ebo == b.mesh.ebo && a.mesh.vao <= b.mesh.vao)))))
}

/// Draw calls in the order `state_le`.
pub open spec fn sorted_by_state<T>(s: Seq<DrawCall<T>>) -> bool {
    forall|i: int, j: int| 0 <= i < j < s.len() ==> state_le(#[trigger] s[i], #[trigger] s[j])
}

/// Number of draw calls of `s` that come no later than `dc` in the order.
pub open spec fn count_not_after<T>(s: Seq<DrawCall<T>>, dc: DrawCall<T>) -> nat
    decreases s.len(),
{
    if s.len() == 0 {
        0
    } else {
        count_not_after(s.drop_last(), dc) + if state_le(s.last(), dc) {
            1nat
        } else {
            0nat
        }
    }
}

impl<T> DrawCall<T> {
    /// Tells whether this draw call comes no later than `other` in the
    /// order of states.
    pub fn state_le(&self, other: &DrawCall<T>) -> (r: bool)
        ensures
            r == state_le(*self, *other),
    {
        if self.program.id != other.program.id {
            self.program.id < other.program.id
        } else if self.texture.id != other.texture.id {
            self.texture.id < other.texture.id
        } else if self.mesh.ebo != other.mesh.ebo {
            self.mesh.ebo < other.mesh.ebo
        } else {
            self.mesh.vao <= other.mesh.vao
        }
    }
}

/// Draw calls of this frame, sorted by state.
pub struct DrawCallQueue<T> {
    drawcalls: Vec<DrawCall<T>>,
}

impl<T> View for DrawCallQueue<T> {
    type V = Seq<DrawCall<T>>;

    closed spec fn view(&self) -> Seq<DrawCall<T>> {
        self.drawcalls@
    }
}

impl<T> DrawCallQueue<T> {
    pub open spec fn wf(&self) -> bool {
        sorted_by_state(self@)
    }

    /// An empty queue.
    pub fn new() -> (r: DrawCallQueue<T>)
        ensures
            r@ == Seq::<DrawCall<T>>::empty(),
            r.wf(),
    {
        DrawCallQueue { drawcalls: Vec::new() }
    }

    /// Inserts `drawcall` after every queued draw call that comes no later
    /// in the order, so draw calls of equal state keep the order they were
    /// added in.
    pub fn add(&mut self, drawcall: DrawCall<T>)
        requires
            old(self).wf(),
        ensures
            final(self).wf(),
            final(self)@ == old(self)@.insert(count_not_after(old(self)@, drawcall) as int, drawcall),
    {
        let n = self.drawcalls.len();
        let mut lo: usize = 0;
        let mut hi: usize = n;
        while lo < hi
            invariant
                n == self.drawcalls@.len(),
                self@ == old(self)@,
                sorted_by_state(self@),
                0 <= lo <= hi <= n,
                forall|j: int| 0 <= j < lo ==> state_le(#[trigger] self@[j], drawcall),
                forall|j: int| hi <= j < n ==> !state_le(#[trigger] self@[j], drawcall),
            decreases hi - lo,
        {
            let mid = lo + (hi - lo) / 2;
            if self.drawcalls[mid].state_le(&drawcall) {
                proof {
                    assert forall|j: int| 0 <= j <= mid implies state_le(
                        #[trigger] self@[j],
                        drawcall,
                    ) by {
                        if j < mid {
                            assert(state_le(self@[j], self@[mid as int]));
                        }
                    }
                }
                lo = mid + 1;
            } else {
                proof {
                    assert forall|j: int| mid <= j < n implies !state_le(
                        #[trigger] self@[j],
                        drawcall,
                    ) by {
                        if j > mid {
                            assert(state_le(self@[mid as int], self@[j]));
                        }
                    }
                }
                hi = mid;
            }
        }
        proof {
            lemma_count_not_after(self@, drawcall, lo as int);
        }
        let ghost s = self@;
        self.drawcalls.insert(lo, drawcall);
        proof {
            let r = self@;
            assert forall|i: int, j: int| 0 <= i < j < r.len() implies state_le(
                #[trigger] r[i],
                #[trigger] r[j],
            ) by {
                if j < lo {
                    assert(r[i] == s[i] && r[j] == s[j]);
                } else if j == lo {
                    assert(r[i] == s[i]);
                } else if i == lo {
                    assert(r[j] == s[j - 1]);
                    assert(!state_le(s[j - 1], drawcall));
                } else if i < lo {
                    assert(r[i] == s[i] && r[j] == s[j - 1]);
                } else {
                    assert(r[i] == s[i - 1] && r[j] == s[j - 1]);
                }
            }
        }
    }

    /// Discards every draw call.
    pub fn clear(&mut self)
        ensures
            final(self)@ == Seq::<DrawCall<T>>::empty(),
            final(self).wf(),
    {
        self.drawcalls.clear();
    }

    /// The draw calls, in order.
    pub fn iter(&self) -> (r: &[DrawCall<T>])
        ensures
            r@ == self@,
    {
        self.drawcalls.as_slice()
    }
}

/// In a sorted queue whose first `k` draw calls come no later than `dc`
/// and whose others come after it, `k` of them come no later.
proof fn lemma_count_not_after<T>(s: Seq<DrawCall<T>>, dc: DrawCall<T>, k: int)
    requires
        0 <= k <= s.len(),
        forall|j: int| 0 <= j < k ==> state_le(#[trigger] s[j], dc),
        forall|j: int| k <= j < s.len() ==> !state_le(#[trigger] s[j], dc),
    ensures
        count_not_after(s, dc) == k,
    decreases s.len(),
{
    if s.len() > 0 {
        let p = s.drop_last();
        if k == s.len() {
            assert(state_le(s[s.len() - 1], dc));
            lemma_count_not_after(p, dc, k - 1);
        } else {
            assert(!state_le(s[s.len() - 1], dc));
            lemma_count_not_after(p, dc, k);
        }
    }
}

} // verus!
