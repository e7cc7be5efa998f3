//! The sprite batcher: accumulates pushed triangle geometry, groups
//! consecutive pushes that sample the same texture into one batch, rebases
//! every pushed index by the vertex count it lands on, and hands the
//! finished batches out once per frame.

use vstd::prelude::*;

use vstd::slice::slice_index_get;

use crate::vertex::TextureHandle;

verus! {

/// One finished batch: a texture and the self-contained vertex and index
/// buffers of every push that shared it.
pub struct Batch<V> {
    pub texture: TextureHandle,
    pub vertices: Vec<V>,
    pub indices: Vec<u16>,
}

/// The mathematical shadow of a `Batch`.
#[verifier::ext_equal]
pub struct BatchModel<V> {
    pub texture: TextureHandle,
    pub vertices: Seq<V>,
    pub indices: Seq<u16>,
}

impl<V> View for Batch<V> {
    type V = BatchModel<V>;

    open spec fn view(&self) -> BatchModel<V> {
        BatchModel { texture: self.texture, vertices: self.vertices@, indices: self.indices@ }
    }
}

/// The accumulator: finished batches, the open batch's texture (if any),
/// and the open batch's pending vertices and indices.
pub struct Spritebatch<V> {
    pub buffers: Vec<Batch<V>>,
    pub current_texture: Option<TextureHandle>,
    pub vertices: Vec<V>,
    pub indices: Vec<u16>,
}

/// The mathematical shadow of a `Spritebatch`.
#[verifier::ext_equal]
pub struct SpritebatchModel<V> {
    pub done: Seq<BatchModel<V>>,
    pub current: Option<TextureHandle>,
    pub vertices: Seq<V>,
    pub indices: Seq<u16>,
}

impl<V> View for Spritebatch<V> {
    type V = SpritebatchModel<V>;

    open spec fn view(&self) -> SpritebatchModel<V> {
        SpritebatchModel {
            done: self.buffers@.map_values(|b: Batch<V>| b@),
            current: self.current_texture,
            vertices: self.vertices@,
            indices: self.indices@,
        }
    }
}

/// The accumulator with nothing pushed and nothing pending.
pub open spec fn empty_model<V>() -> SpritebatchModel<V> {
    SpritebatchModel {
        done: Seq::empty(),
        current: None,
        vertices: Seq::empty(),
        indices: Seq::empty(),
    }
}

/// Every pushed index, raised by the vertex count it was appended onto.
pub open spec fn rebased_indices(idxs: Seq<u16>, base: int) -> Seq<u16> {
    idxs.map_values(|ix: u16| (ix + base) as u16)
}

/// What one `push` does to the accumulator: an open batch with another
/// texture identity is finished first; a batch is opened if none is; then
/// the vertices are appended and the indices appended rebased by the vertex
/// count before the append.
pub open spec fn spec_push<V>(
    m: SpritebatchModel<V>,
    verts: Seq<V>,
    idxs: Seq<u16>,
    tex: TextureHandle,
) -> SpritebatchModel<V> {
    let st = match m.current {
        Some(t) => if t.id == tex.id {
            m
        } else {
            SpritebatchModel {
                done: m.done.push(
                    BatchModel { texture: t, vertices: m.vertices, indices: m.indices },
                ),
                current: Some(tex),
                vertices: Seq::empty(),
                indices: Seq::empty(),
            }
        },
        None => SpritebatchModel {
            done: m.done,
            current: Some(tex),
            vertices: m.vertices,
            indices: m.indices,
        },
    };
    SpritebatchModel {
        done: st.done,
        current: st.current,
        vertices: st.vertices + verts,
        indices: st.indices + rebased_indices(idxs, st.vertices.len() as int),
    }
}

/// What `flush_to_buffer` does: an open batch moves to the finished list
/// and `next` becomes the open texture; with no open batch, nothing at all.
pub open spec fn spec_flush<V>(
    m: SpritebatchModel<V>,
    next: Option<TextureHandle>,
) -> SpritebatchModel<V> {
    match m.current {
        None => m,
        Some(t) => SpritebatchModel {
            done: m.done.push(BatchModel { texture: t, vertices: m.vertices, indices: m.indices }),
            current: next,
            vertices: Seq::empty(),
            indices: Seq::empty(),
        },
    }
}

/// The batches `get_buffer` hands out: a final flush, then the whole
/// finished list.
pub open spec fn spec_drain<V>(m: SpritebatchModel<V>) -> Seq<BatchModel<V>> {
    spec_flush(m, None).done
}

/// The vertex count a push's indices are rebased by: the pending count when
/// the open batch is kept, zero when the push opens a new one.
pub open spec fn push_base<V>(m: SpritebatchModel<V>, tex: TextureHandle) -> int {
    match m.current {
        Some(t) => if t.id == tex.id {
            m.vertices.len() as int
        } else {
            0
        },
        None => m.vertices.len() as int,
    }
}

impl<V> Spritebatch<V> {
    /// A batch is open exactly when pending geometry may exist, and the
    /// pending vertex count never exceeds the 16-bit index space.
    pub open spec fn wf(&self) -> bool {
        &&& (self.current_texture is None ==> self.vertices@.len() == 0 && self.indices@.len()
            == 0)
        &&& self.vertices@.len() <= 65535
    }

    /// A fresh, empty accumulator.
    pub fn new() -> (sb: Spritebatch<V>)
        ensures
            sb@ == empty_model::<V>(),
            sb.wf(),
    {
        let sb = Spritebatch {
            buffers: Vec::new(),
            current_texture: None,
            vertices: Vec::new(),
            indices: Vec::new(),
        };
        proof {
            assert(sb@ =~= empty_model::<V>());
        }
        sb
    }

    /// Finish the open batch, if any, and make `new_texture` the open one.
    pub fn flush_to_buffer(&mut self, new_texture: Option<TextureHandle>)
        requires
            old(self).wf(),
        ensures
            final(self)@ == spec_flush(old(self)@, new_texture),
            final(self).wf(),
    {
        let t = match self.current_texture {
            Some(t) => t,
            None => {
                return ;
            },
        };
        let mut vs: Vec<V> = Vec::new();
        let mut ixs: Vec<u16> = Vec::new();
        core::mem::swap(&mut vs, &mut self.vertices);
        core::mem::swap(&mut ixs, &mut self.indices);
        let ghost done0 = self.buffers@.map_values(|b: Batch<V>| b@);
        self.buffers.push(Batch { texture: t, vertices: vs, indices: ixs });
        self.current_texture = new_texture;
        proof {
            assert(self.buffers@.map_values(|b: Batch<V>| b@) =~= done0.push(
                BatchModel {
                    texture: t,
                    vertices: old(self).vertices@,
                    indices: old(self).indices@,
                },
            ));
            assert(self@ =~= spec_flush(old(self)@, new_texture));
        }
    }
}

impl<V: Copy> Spritebatch<V> {
    /// Push one mesh: `verts` are appended to the open batch (opening or
    /// switching it first as `spec_push` says), and each index is appended
    /// raised by the vertex count before this push's append.
    pub fn push(&mut self, verts: &[V], idxs: &[u16], texture: TextureHandle)
        requires
            old(self).wf(),
            push_base(old(self)@, texture) + verts@.len() <= 65535,
            forall|j: int|
                0 <= j < idxs@.len() ==> idxs@[j] + push_base(old(self)@, texture) <= 65535,
        ensures
            final(self)@ == spec_push(old(self)@, verts@, idxs@, texture),
            final(self).wf(),
    {
        let need_flush = match &self.current_texture {
            Some(t) => t.id != texture.id,
            None => false,
        };
        if need_flush {
            self.flush_to_buffer(Some(texture));
        } else if self.current_texture.is_none() {
            self.current_texture = Some(texture);
        }
        let ghost st = SpritebatchModel {
            done: self.buffers@.map_values(|b: Batch<V>| b@),
            current: self.current_texture,
            vertices: self.vertices@,
            indices: self.indices@,
        };
        proof {
            let target = spec_push(old(self)@, verts@, idxs@, texture);
            assert(st.done =~= target.done);
            assert(st.current == target.current);
            assert(target.vertices =~= st.vertices + verts@);
            assert(target.indices =~= st.indices + rebased_indices(
                idxs@,
                st.vertices.len() as int,
            ));
            assert(st.vertices.len() + verts@.len() <= 65535);
            assert(forall|j: int|
                0 <= j < idxs@.len() ==> idxs@[j] + st.vertices.len() <= 65535);
        }
        let base = self.vertices.len();
        let mut j: usize = 0;
        while j < verts.len()
            invariant
                0 <= j <= verts@.len(),
                self.buffers@.map_values(|b: Batch<V>| b@) == st.done,
                self.current_texture == st.current,
                self.indices@ == st.indices,
                self.vertices@ == st.vertices + verts@.take(j as int),
                st.vertices.len() + verts@.len() <= 65535,
            decreases verts@.len() - j,
        {
            self.vertices.push(*slice_index_get(verts, j));
            proof {
                assert(st.vertices + verts@.take(j + 1) =~= (st.vertices + verts@.take(
                    j as int,
                )).push(verts@[j as int]));
            }
            j += 1;
        }
        let mut k: usize = 0;
        while k < idxs.len()
            invariant
                0 <= k <= idxs@.len(),
                base == st.vertices.len(),
                base <= 65535,
                self.buffers@.map_values(|b: Batch<V>| b@) == st.done,
                self.current_texture == st.current,
                self.vertices@ == st.vertices + verts@.take(verts@.len() as int),
                self.indices@ == st.indices + rebased_indices(idxs@.take(k as int), base as int),
                forall|j2: int|
                    0 <= j2 < idxs@.len() ==> idxs@[j2] + st.vertices.len() <= 65535,
            decreases idxs@.len() - k,
        {
            let ix = *slice_index_get(idxs, k);
            let rebased = (ix as usize + base) as u16;
            self.indices.push(rebased);
            proof {
                assert(rebased_indices(idxs@.take(k + 1), base as int) =~= rebased_indices(
                    idxs@.take(k as int),
                    base as int,
                ).push((idxs@[k as int] + base) as u16));
            }
            k += 1;
        }
        proof {
            assert(verts@.take(verts@.len() as int) =~= verts@);
            assert(idxs@.take(idxs@.len() as int) =~= idxs@);
            assert(self@ =~= spec_push(old(self)@, verts@, idxs@, texture));
        }
    }

    /// Finish everything and hand the frame's batches out, leaving the
    /// accumulator empty for the next frame.
    pub fn get_buffer(&mut self) -> (r: Vec<Batch<V>>)
        requires
            old(self).wf(),
        ensures
            r@.map_values(|b: Batch<V>| b@) == spec_drain(old(self)@),
            final(self)@ == empty_model::<V>(),
            final(self).wf(),
    {
        self.flush_to_buffer(None);
        let mut out: Vec<Batch<V>> = Vec::new();
        core::mem::swap(&mut out, &mut self.buffers);
        proof {
            assert(self@ =~= empty_model::<V>());
        }
        out
    }
}

/// One push request: the inputs of one `push` call.
pub struct PushCall<V> {
    pub verts: Seq<V>,
    pub idxs: Seq<u16>,
    pub texture: TextureHandle,
}

/// The accumulator `m` after a sequence of pushes.
pub open spec fn fold_pushes<V>(
    m: SpritebatchModel<V>,
    calls: Seq<PushCall<V>>,
) -> SpritebatchModel<V>
    decreases calls.len(),
{
    if calls.len() == 0 {
        m
    } else {
        let c = calls.last();
        spec_push(fold_pushes(m, calls.drop_last()), c.verts, c.idxs, c.texture)
    }
}

/// The accumulator after a sequence of pushes into a fresh batcher.
pub open spec fn state_after<V>(calls: Seq<PushCall<V>>) -> SpritebatchModel<V> {
    fold_pushes(empty_model(), calls)
}

/// Pushing one call sequence after another folds the same as pushing their
/// concatenation.
pub proof fn lemma_fold_append<V>(
    m: SpritebatchModel<V>,
    a: Seq<PushCall<V>>,
    b: Seq<PushCall<V>>,
)
    ensures
        fold_pushes(fold_pushes(m, a), b) == fold_pushes(m, a + b),
    decreases b.len(),
{
    if b.len() == 0 {
        assert(a + b =~= a);
    } else {
        lemma_fold_append(m, a, b.drop_last());
        assert((a + b).drop_last() =~= a + b.drop_last());
        assert((a + b).last() == b.last());
    }
}

/// The batches a sequence of pushes should produce: one batch per contiguous
/// run of pushes whose textures share an identity, in submission order, each
/// holding its run's concatenated vertices and rebased indices, under the
/// texture handle that opened the run.
pub open spec fn runs_of<V>(calls: Seq<PushCall<V>>) -> Seq<BatchModel<V>>
    decreases calls.len(),
{
    if calls.len() == 0 {
        Seq::empty()
    } else {
        let c = calls.last();
        let prev = runs_of(calls.drop_last());
        if prev.len() > 0 && prev.last().texture.id == c.texture.id {
            prev.update(
                prev.len() - 1,
                BatchModel {
                    texture: prev.last().texture,
                    vertices: prev.last().vertices + c.verts,
                    indices: prev.last().indices + rebased_indices(
                        c.idxs,
                        prev.last().vertices.len() as int,
                    ),
                },
            )
        } else {
            prev.push(
                BatchModel {
                    texture: c.texture,
                    vertices: c.verts,
                    indices: rebased_indices(c.idxs, 0),
                },
            )
        }
    }
}

/// After any sequence of pushes into a fresh batcher, the finished list
/// holds every run but the last, and the open batch is exactly the last run.
proof fn lemma_state_runs<V>(calls: Seq<PushCall<V>>)
    ensures
        calls.len() == 0 ==> state_after(calls) == empty_model::<V>(),
        calls.len() > 0 ==> runs_of(calls).len() > 0,
        calls.len() > 0 ==> state_after(calls).done =~= runs_of(calls).drop_last(),
        calls.len() > 0 ==> state_after(calls).current == Some(runs_of(calls).last().texture),
        calls.len() > 0 ==> state_after(calls).vertices =~= runs_of(calls).last().vertices,
        calls.len() > 0 ==> state_after(calls).indices =~= runs_of(calls).last().indices,
    decreases calls.len(),
{
    if calls.len() > 0 {
        let pre = calls.drop_last();
        let c = calls.last();
        lemma_state_runs(pre);
        let m0 = state_after(pre);
        let rs0 = runs_of(pre);
        let m = state_after(calls);
        let rs = runs_of(calls);
        if pre.len() == 0 {
            assert(m0 == empty_model::<V>());
            assert(rs =~= seq![
                BatchModel {
                    texture: c.texture,
                    vertices: c.verts,
                    indices: rebased_indices(c.idxs, 0),
                },
            ]);
            assert(m.vertices =~= rs.last().vertices);
            assert(m.indices =~= rs.last().indices);
            assert(m.done =~= rs.drop_last());
        } else {
            if rs0.last().texture.id == c.texture.id {
                assert(rs == rs0.update(
                    rs0.len() - 1,
                    BatchModel {
                        texture: rs0.last().texture,
                        vertices: rs0.last().vertices + c.verts,
                        indices: rs0.last().indices + rebased_indices(
                            c.idxs,
                            rs0.last().vertices.len() as int,
                        ),
                    },
                ));
                assert(m.done =~= rs.drop_last()) by {
                    assert(rs.drop_last() =~= rs0.drop_last());
                }
                assert(m.current == Some(rs.last().texture));
                assert(m.vertices =~= rs.last().vertices);
                assert(m.indices =~= rs.last().indices) by {
                    assert(m0.vertices.len() == rs0.last().vertices.len());
                }
            } else {
                assert(rs == rs0.push(
                    BatchModel {
                        texture: c.texture,
                        vertices: c.verts,
                        indices: rebased_indices(c.idxs, 0),
                    },
                ));
                assert(m.done =~= rs.drop_last()) by {
                    assert(m.done =~= rs0.drop_last().push(
                        BatchModel {
                            texture: rs0.last().texture,
                            vertices: m0.vertices,
                            indices: m0.indices,
                        },
                    ));
                    assert(rs0.drop_last().push(
                        BatchModel {
                            texture: rs0.last().texture,
                            vertices: rs0.last().vertices,
                            indices: rs0.last().indices,
                        },
                    ) =~= rs0);
                    assert(BatchModel {
                        texture: rs0.last().texture,
                        vertices: m0.vertices,
                        indices: m0.indices,
                    } =~= BatchModel {
                        texture: rs0.last().texture,
                        vertices: rs0.last().vertices,
                        indices: rs0.last().indices,
                    });
                }
                assert(m.vertices =~= rs.last().vertices);
                assert(m.indices =~= rs.last().indices);
            }
        }
    }
}

/// Draining a fresh batcher after any sequence of pushes yields exactly one
/// batch per contiguous run of same-texture pushes, in submission order,
/// with that run's concatenated geometry.
pub proof fn lemma_batching_runs<V>(calls: Seq<PushCall<V>>)
    ensures
        spec_drain(state_after(calls)) =~= runs_of(calls),
{
    lemma_state_runs(calls);
    if calls.len() > 0 {
        let m = state_after(calls);
        let rs = runs_of(calls);
        assert(spec_drain(m) =~= rs) by {
            assert(spec_drain(m) =~= rs.drop_last().push(
                BatchModel {
                    texture: rs.last().texture,
                    vertices: m.vertices,
                    indices: m.indices,
                },
            ));
            assert(BatchModel {
                texture: rs.last().texture,
                vertices: m.vertices,
                indices: m.indices,
            } =~= rs.last());
            assert(rs.drop_last().push(rs.last()) =~= rs);
        }
    }
}

/// Two consecutive pushes that share a texture merge into one batch whose
/// vertex buffer is the concatenation and whose index buffer is the first
/// push's indices followed by the second push's indices raised by the first
/// push's vertex count.
pub proof fn lemma_push_pair_rebasing<V>(
    va: Seq<V>,
    ia: Seq<u16>,
    vb: Seq<V>,
    ib: Seq<u16>,
    tex: TextureHandle,
)
    ensures
        ({
            let m = spec_push(spec_push(empty_model::<V>(), va, ia, tex), vb, ib, tex);
            &&& m.done.len() == 0
            &&& m.vertices =~= va + vb
            &&& m.indices =~= ia + rebased_indices(ib, va.len() as int)
        }),
{
    let m1 = spec_push(empty_model::<V>(), va, ia, tex);
    assert(m1.vertices =~= va);
    let m = spec_push(m1, vb, ib, tex);
    assert(m.vertices =~= va + vb);
    assert(m.indices =~= ia + rebased_indices(ib, va.len() as int)) by {
        lemma_rebase_zero(ia);
        assert(m1.indices =~= ia);
        assert(m1.vertices.len() == va.len());
    }
}

/// The last run's batch carries the texture identity of the last push.
pub proof fn lemma_runs_last_texture<V>(calls: Seq<PushCall<V>>)
    requires
        calls.len() > 0,
    ensures
        runs_of(calls).len() >= 1,
        runs_of(calls).last().texture.id == calls.last().texture.id,
{
}

/// Pushes that all carry one texture handle coalesce into at most one
/// batch, and that batch carries the handle.
pub proof fn lemma_runs_uniform<V>(calls: Seq<PushCall<V>>, tex: TextureHandle)
    requires
        forall|k: int| 0 <= k < calls.len() ==> (#[trigger] calls[k]).texture == tex,
    ensures
        runs_of(calls).len() <= 1,
        calls.len() > 0 ==> runs_of(calls).len() == 1,
        forall|j: int| 0 <= j < runs_of(calls).len() ==> (#[trigger] runs_of(calls)[j]).texture
            == tex,
    decreases calls.len(),
{
    if calls.len() > 0 {
        let pre = calls.drop_last();
        assert(forall|k: int| 0 <= k < pre.len() ==> (#[trigger] pre[k]) == calls[k]);
        lemma_runs_uniform(pre, tex);
        if pre.len() > 0 {
            lemma_runs_last_texture(pre);
        }
    }
}

/// Two back-to-back phases of pushes under two different texture
/// identities keep their runs apart: the concatenation's runs are the
/// first phase's runs followed by the second's.
pub proof fn lemma_runs_two_phases<V>(
    a: Seq<PushCall<V>>,
    b: Seq<PushCall<V>>,
    ta: TextureHandle,
    tb: TextureHandle,
)
    requires
        a.len() > 0,
        ta.id != tb.id,
        forall|k: int| 0 <= k < a.len() ==> (#[trigger] a[k]).texture == ta,
        forall|k: int| 0 <= k < b.len() ==> (#[trigger] b[k]).texture == tb,
    ensures
        runs_of(a + b) =~= runs_of(a) + runs_of(b),
    decreases b.len(),
{
    if b.len() == 0 {
        assert(a + b =~= a);
        assert(runs_of(b) =~= Seq::<BatchModel<V>>::empty());
    } else {
        let pre = b.drop_last();
        let c = b.last();
        assert(forall|k: int| 0 <= k < pre.len() ==> (#[trigger] pre[k]) == b[k]);
        lemma_runs_two_phases(a, pre, ta, tb);
        assert((a + b).drop_last() =~= a + pre);
        assert((a + b).last() == c);
        if pre.len() == 0 {
            lemma_runs_last_texture(a);
            assert(runs_of(a + pre).last().texture.id == ta.id);
            assert(runs_of(a + b) == runs_of(a + pre).push(
                BatchModel { texture: c.texture, vertices: c.verts, indices: rebased_indices(c.idxs, 0) },
            ));
            assert(runs_of(b) =~= seq![
                BatchModel { texture: c.texture, vertices: c.verts, indices: rebased_indices(c.idxs, 0) },
            ]);
            assert(runs_of(a + b) =~= runs_of(a) + runs_of(b));
        } else {
            lemma_runs_last_texture(pre);
            let rp = runs_of(a) + runs_of(pre);
            assert(runs_of(a + pre) == rp);
            assert(rp.last() == runs_of(pre).last());
            assert(rp.last().texture.id == tb.id);
            let merged = BatchModel {
                texture: rp.last().texture,
                vertices: rp.last().vertices + c.verts,
                indices: rp.last().indices + rebased_indices(
                    c.idxs,
                    rp.last().vertices.len() as int,
                ),
            };
            assert(runs_of(a + b) == rp.update(rp.len() - 1, merged));
            assert(runs_of(b) == runs_of(pre).update(runs_of(pre).len() - 1, merged));
            assert(rp.update(rp.len() - 1, merged) =~= runs_of(a) + runs_of(pre).update(
                runs_of(pre).len() - 1,
                merged,
            ));
        }
    }
}

/// Rebasing by zero keeps every index.
pub proof fn lemma_rebase_zero(idxs: Seq<u16>)
    ensures
        rebased_indices(idxs, 0) =~= idxs,
{
    assert(forall|j: int|
        0 <= j < idxs.len() ==> rebased_indices(idxs, 0)[j] == idxs[j]);
}

} // verus!
