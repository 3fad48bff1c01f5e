//! The bookkeeping of the quad renderer: quads are gathered in groups that
//! share a view-projection uniform, their vertices and uniforms wait to be
//! written to GPU buffers, and each quad is drawn as six vertices with its
//! own uniform offset. The caller does the GPU work (writing the buffers
//! and issuing the draws) that these values describe.
use crate::gpu_buffer::{BufferWrite, Reallocation, UniformBuffer, VertexBuffer};
use crate::graphics::QuadGroup;
use vstd::prelude::*;

verus! {

/// The vertices drawn per quad (two triangles).
pub const VERTEX_PER_QUAD: u64 = 6;

/// The number of quads the vertex buffer has room for at first.
pub const MIN_QUAD_COUNT: usize = 1000;

/// The corners of a quad.
#[derive(Clone, Copy, Debug)]
pub struct QuadCorners<V> {
    pub top_left: V,
    pub bottom_left: V,
    pub top_right: V,
    pub bottom_right: V,
}

/// A quad to draw: its corners, its material and its model uniform.
pub struct QuadDescription<V, M, U> {
    pub corners: QuadCorners<V>,
    pub material: M,
    pub uniform: U,
}

/// What is kept of a prepared quad: its material and the byte offset of its
/// uniform.
pub struct QuadMetadata<M> {
    pub material: M,
    pub uniform_offset: u32,
}

/// The reallocations a quad group needs before its data is written.
#[derive(Clone, Copy, Debug, PartialEq, Eq, Structural)]
pub struct QuadGroupReallocations {
    pub vertex_buffer: Option<Reallocation>,
    pub quad_group_uniform_buffer: Option<Reallocation>,
    pub quad_uniform_buffer: Option<Reallocation>,
}

/// One draw of a quad: its uniform offset, its material and its vertex
/// range `vertex_start..vertex_end`.
pub struct QuadDraw<'a, M> {
    pub uniform_offset: u32,
    pub material: &'a M,
    pub vertex_start: u32,
    pub vertex_end: u32,
}

/// The pending data handed to the GPU buffers, and where it goes.
pub struct QuadBufferWrites<V, G, U> {
    pub vertices: Vec<V>,
    pub vertex_write: BufferWrite,
    pub quad_group_uniforms: Vec<G>,
    pub quad_group_uniform_write: BufferWrite,
    pub quad_uniforms: Vec<U>,
    pub quad_uniform_write: BufferWrite,
}

/// The six vertices of a quad, in drawing order: two triangles.
pub open spec fn quad_vertices<V>(c: QuadCorners<V>) -> Seq<V> {
    seq![c.top_left, c.bottom_left, c.top_right, c.top_right, c.bottom_left, c.bottom_right]
}

/// The vertices of `quads`, six per quad, in order.
pub open spec fn all_quad_vertices<V, M, U>(quads: Seq<QuadDescription<V, M, U>>) -> Seq<V>
    decreases quads.len(),
{
    if quads.len() == 0 {
        Seq::empty()
    } else {
        all_quad_vertices(quads.drop_last()) + quad_vertices(quads.last().corners)
    }
}

/// The metadata recorded for `quads` when `first` quads were recorded before.
pub open spec fn quads_metadata<V, M, U>(quads: Seq<QuadDescription<V, M, U>>, first: int, alignment: u64) -> Seq<
    QuadMetadata<M>,
> {
    Seq::new(
        quads.len(),
        |i: int| QuadMetadata { material: quads[i].material, uniform_offset: quad_uniform_offset(first + i, alignment) },
    )
}

/// The model uniforms of `quads`, in order.
pub open spec fn quads_uniforms<V, M, U>(quads: Seq<QuadDescription<V, M, U>>) -> Seq<U> {
    Seq::new(quads.len(), |i: int| quads[i].uniform)
}

/// The byte offset of the uniform of the quad at position `index`.
pub open spec fn quad_uniform_offset(index: int, alignment: u64) -> u32 {
    (index * alignment) as u32
}

/// The quad renderer's state: vertex buffer `V` elements, quad group
/// uniforms `G`, quad uniforms `U` and materials `M`.
pub struct QuadRenderer<M, V, G, U> {
    vertex_buffer: VertexBuffer,
    quad_group_uniform_buffer: UniformBuffer,
    quad_uniform_buffer: UniformBuffer,
    min_uniform_alignment: u64,
    quad_metadata: Vec<QuadMetadata<M>>,
    quad_count: usize,
    quad_group_uniform_count: usize,
    pending_vertices: Vec<V>,
    pending_quad_group_uniforms: Vec<G>,
    pending_quad_uniforms: Vec<U>,
}

impl<M, V: Copy, G, U> QuadRenderer<M, V, G, U> {
    /// The vertex buffer's bookkeeping.
    pub closed spec fn vertices_buffer(&self) -> VertexBuffer {
        self.vertex_buffer
    }

    /// The quad group uniform buffer's bookkeeping.
    pub closed spec fn group_uniforms_buffer(&self) -> UniformBuffer {
        self.quad_group_uniform_buffer
    }

    /// The quad uniform buffer's bookkeeping.
    pub closed spec fn quad_uniforms_buffer(&self) -> UniformBuffer {
        self.quad_uniform_buffer
    }

    /// The device's uniform offset alignment.
    pub closed spec fn alignment(&self) -> u64 {
        self.min_uniform_alignment
    }

    /// The prepared quads, in order.
    pub closed spec fn metadata(&self) -> Seq<QuadMetadata<M>> {
        self.quad_metadata@
    }

    /// The number of quads prepared.
    pub closed spec fn spec_quad_count(&self) -> usize {
        self.quad_count
    }

    /// The number of quad groups prepared.
    pub closed spec fn spec_group_count(&self) -> usize {
        self.quad_group_uniform_count
    }

    /// Vertices waiting to be written.
    pub closed spec fn pending_vertices(&self) -> Seq<V> {
        self.pending_vertices@
    }

    /// Quad group uniforms waiting to be written.
    pub closed spec fn pending_group_uniforms(&self) -> Seq<G> {
        self.pending_quad_group_uniforms@
    }

    /// Quad uniforms waiting to be written.
    pub closed spec fn pending_quad_uniforms(&self) -> Seq<U> {
        self.pending_quad_uniforms@
    }

    /// One metadata entry per prepared quad.
    pub closed spec fn wf(&self) -> bool {
        self.quad_metadata@.len() == self.quad_count
    }

    /// A renderer with nothing prepared: room for `MIN_QUAD_COUNT` quads of
    /// vertices of `vertex_size` bytes, 4 quad group uniforms and 10 quad
    /// uniforms, each taking `min_uniform_alignment` bytes.
    pub fn new(vertex_size: usize, min_uniform_alignment: u32) -> (r: Self)
        ensures
            r.wf(),
            r.vertices_buffer().spec_label() == "quad_renderer_vertex_buffer"@,
            r.vertices_buffer().spec_element_size() == vertex_size,
            r.vertices_buffer().spec_count() == 0,
            r.vertices_buffer().spec_capacity() == VERTEX_PER_QUAD * MIN_QUAD_COUNT,
            r.group_uniforms_buffer().spec_label() == "quad_renderer_quad_group_uniform"@,
            r.group_uniforms_buffer().spec_count() == 0,
            r.group_uniforms_buffer().spec_capacity() == 4,
            r.group_uniforms_buffer().spec_uniform_offset() == min_uniform_alignment,
            r.quad_uniforms_buffer().spec_label() == "quad_renderer_quad_uniform"@,
            r.quad_uniforms_buffer().spec_count() == 0,
            r.quad_uniforms_buffer().spec_capacity() == 10,
            r.quad_uniforms_buffer().spec_uniform_offset() == min_uniform_alignment,
            r.alignment() == min_uniform_alignment,
            r.metadata().len() == 0,
            r.spec_group_count() == 0,
            r.pending_vertices().len() == 0,
            r.pending_group_uniforms().len() == 0,
            r.pending_quad_uniforms().len() == 0,
    {
        let vertex_buffer = VertexBuffer::with_capacity(
            "quad_renderer_vertex_buffer",
            vertex_size,
            6 * MIN_QUAD_COUNT,
        );
        let offset = min_uniform_alignment as usize;
        let quad_group_uniform_buffer = UniformBuffer::new("quad_renderer_quad_group_uniform", 4, offset);
        let quad_uniform_buffer = UniformBuffer::new("quad_renderer_quad_uniform", 10, offset);
        QuadRenderer {
            vertex_buffer,
            quad_group_uniform_buffer,
            quad_uniform_buffer,
            min_uniform_alignment: min_uniform_alignment as u64,
            quad_metadata: Vec::new(),
            quad_count: 0,
            quad_group_uniform_count: 0,
            pending_vertices: Vec::new(),
            pending_quad_group_uniforms: Vec::new(),
            pending_quad_uniforms: Vec::new(),
        }
    }

    /// Prepares a group of quads drawn with the view-projection uniform
    /// `quad_group_uniform`: makes room in the buffers, queues the group
    /// uniform, each quad's uniform and six vertices, records each quad's
    /// material and uniform offset, and returns the group's range of quads
    /// with the reallocations to make.
    pub fn prepare_quad_group(
        &mut self,
        quad_group_uniform: G,
        quads: Vec<QuadDescription<V, M, U>>,
    ) -> (r: (QuadGroup, QuadGroupReallocations))
        requires
            old(self).wf(),
            old(self).spec_quad_count() + quads@.len() <= usize::MAX,
            old(self).spec_group_count() + 1 <= usize::MAX,
            (old(self).spec_quad_count() + quads@.len()) * old(self).alignment() <= usize::MAX,
            old(self).vertices_buffer().can_grow_to((old(self).spec_quad_count() + quads@.len()) as usize),
            old(self).group_uniforms_buffer().can_grow_to((old(self).spec_group_count() + 1) as usize),
            old(self).quad_uniforms_buffer().can_grow_to((old(self).spec_quad_count() + quads@.len()) as usize),
        ensures
            final(self).wf(),
            r.0 == (QuadGroup {
                start_quad: old(self).spec_quad_count() as u64,
                end_quad: (old(self).spec_quad_count() + quads@.len()) as u64,
                global_uniform: old(self).spec_group_count() as u64,
            }),
            final(self).spec_quad_count() == old(self).spec_quad_count() + quads@.len(),
            final(self).spec_group_count() == old(self).spec_group_count() + 1,
            final(self).alignment() == old(self).alignment(),
            final(self).pending_group_uniforms() == old(self).pending_group_uniforms().push(quad_group_uniform),
            final(self).pending_quad_uniforms() == old(self).pending_quad_uniforms() + quads_uniforms(quads@),
            final(self).pending_vertices() == old(self).pending_vertices() + all_quad_vertices(quads@),
            final(self).metadata() == old(self).metadata() + quads_metadata(
                quads@,
                old(self).metadata().len() as int,
                old(self).alignment(),
            ),
            old(self).vertices_buffer().spec_capacity() >= old(self).spec_quad_count() + quads@.len() ==> r.1.vertex_buffer is None
                && final(self).vertices_buffer() == old(self).vertices_buffer(),
            old(self).vertices_buffer().spec_capacity() < old(self).spec_quad_count() + quads@.len() ==> r.1.vertex_buffer == Some(
                crate::gpu_buffer::reallocation(
                    old(self).vertices_buffer().spec_capacity(),
                    (old(self).spec_quad_count() + quads@.len()) as usize,
                    old(self).vertices_buffer().spec_element_size(),
                    old(self).vertices_buffer().spec_capacity(),
                ),
            ),
            old(self).group_uniforms_buffer().spec_capacity() > old(self).spec_group_count() + 1 ==> r.1.quad_group_uniform_buffer is None
                && final(self).group_uniforms_buffer() == old(self).group_uniforms_buffer(),
            old(self).group_uniforms_buffer().spec_capacity() <= old(self).spec_group_count() + 1 ==> r.1.quad_group_uniform_buffer == Some(
                crate::gpu_buffer::reallocation(
                    old(self).group_uniforms_buffer().spec_capacity(),
                    (old(self).spec_group_count() + 1) as usize,
                    old(self).group_uniforms_buffer().spec_uniform_offset(),
                    old(self).group_uniforms_buffer().spec_capacity(),
                ),
            ),
            old(self).quad_uniforms_buffer().spec_capacity() > old(self).spec_quad_count() + quads@.len() ==> r.1.quad_uniform_buffer is None
                && final(self).quad_uniforms_buffer() == old(self).quad_uniforms_buffer(),
            old(self).quad_uniforms_buffer().spec_capacity() <= old(self).spec_quad_count() + quads@.len() ==> r.1.quad_uniform_buffer == Some(
                crate::gpu_buffer::reallocation(
                    old(self).quad_uniforms_buffer().spec_capacity(),
                    (old(self).spec_quad_count() + quads@.len()) as usize,
                    old(self).quad_uniforms_buffer().spec_uniform_offset(),
                    old(self).quad_uniforms_buffer().spec_capacity(),
                ),
            ),
            final(self).vertices_buffer().spec_count() == old(self).vertices_buffer().spec_count(),
            final(self).group_uniforms_buffer().spec_count() == old(self).group_uniforms_buffer().spec_count(),
            final(self).quad_uniforms_buffer().spec_count() == old(self).quad_uniforms_buffer().spec_count(),
    {
        let n = quads.len();
        let vertex_buffer = self.vertex_buffer.ensure_capacity(self.quad_count + n);
        let quad_group_uniform_buffer = self.quad_group_uniform_buffer.ensure_capacity(
            self.quad_group_uniform_count + 1,
        );
        let quad_uniform_buffer = self.quad_uniform_buffer.ensure_capacity(self.quad_count + n);
        self.pending_quad_group_uniforms.push(quad_group_uniform);
        let quad_group = QuadGroup {
            start_quad: self.quad_count as u64,
            end_quad: (self.quad_count + n) as u64,
            global_uniform: self.quad_group_uniform_count as u64,
        };
        let ghost meta0 = self.quad_metadata@;
        let ghost unif0 = self.pending_quad_uniforms@;
        let ghost vert0 = self.pending_vertices@;
        let ghost all = quads@;
        let ghost vb = self.vertex_buffer;
        let ghost gb = self.quad_group_uniform_buffer;
        let ghost qb = self.quad_uniform_buffer;
        let mut rest = quads;
        proof {
            assert(all.take(0) =~= Seq::<QuadDescription<V, M, U>>::empty());
            assert(self.quad_metadata@ =~= meta0 + quads_metadata(all.take(0), meta0.len() as int, self.min_uniform_alignment));
            assert(self.pending_quad_uniforms@ =~= unif0 + quads_uniforms(all.take(0)));
            assert(self.pending_vertices@ =~= vert0 + all_quad_vertices(all.take(0)));
        }
        let mut j: usize = 0;
        while rest.len() > 0
            invariant
                j + rest@.len() == n,
                n == all.len(),
                rest@ == all.skip(j as int),
                self.min_uniform_alignment == old(self).min_uniform_alignment,
                self.quad_count == old(self).quad_count,
                self.quad_group_uniform_count == old(self).quad_group_uniform_count,
                self.vertex_buffer == vb,
                self.quad_group_uniform_buffer == gb,
                self.quad_uniform_buffer == qb,
                self.pending_quad_group_uniforms@ == old(self).pending_quad_group_uniforms@.push(quad_group_uniform),
                old(self).quad_count + n <= usize::MAX,
                old(self).quad_group_uniform_count + 1 <= usize::MAX,
                (meta0.len() + n) * self.min_uniform_alignment <= usize::MAX,
                meta0.len() == old(self).quad_count,
                self.quad_metadata@ == meta0 + quads_metadata(all.take(j as int), meta0.len() as int, self.min_uniform_alignment),
                self.pending_quad_uniforms@ == unif0 + quads_uniforms(all.take(j as int)),
                self.pending_vertices@ == vert0 + all_quad_vertices(all.take(j as int)),
            decreases rest@.len(),
        {
            let quad = rest.remove(0);
            proof {
                assert(quad == all[j as int]);
                assert(rest@ =~= all.skip(j + 1));
            }
            let ghost before_v = self.pending_vertices@;
            self.pending_quad_uniforms.push(quad.uniform);
            let c = quad.corners;
            self.pending_vertices.push(c.top_left);
            self.pending_vertices.push(c.bottom_left);
            self.pending_vertices.push(c.top_right);
            self.pending_vertices.push(c.top_right);
            self.pending_vertices.push(c.bottom_left);
            self.pending_vertices.push(c.bottom_right);
            proof {
                assert(self.pending_vertices@ =~= before_v + quad_vertices(c));
            }
            let len = self.quad_metadata.len();
            let alignment = self.min_uniform_alignment;
            proof {
                assert(len + 1 <= meta0.len() + n);
                assert(len * alignment <= (meta0.len() + n) * alignment) by (nonlinear_arith)
                    requires len <= meta0.len() + n;
            }
            let offset: u64 = (len as u64) * alignment;
            self.quad_metadata.push(QuadMetadata { material: quad.material, uniform_offset: offset as u32 });
            proof {
                let t = all.take(j as int);
                let t1 = all.take(j + 1);
                assert(t1.drop_last() =~= t);
                assert(t1.last() == quad);
                assert(self.pending_vertices@ =~= vert0 + all_quad_vertices(t1));
                assert(self.pending_quad_uniforms@ =~= unif0 + quads_uniforms(t1));
                assert(self.quad_metadata@ =~= meta0 + quads_metadata(t1, meta0.len() as int, self.min_uniform_alignment));
            }
            j = j + 1;
        }
        proof {
            assert(all.take(n as int) =~= all);
        }
        self.quad_count = self.quad_count + n;
        self.quad_group_uniform_count = self.quad_group_uniform_count + 1;
        (quad_group, QuadGroupReallocations { vertex_buffer, quad_group_uniform_buffer, quad_uniform_buffer })
    }

    /// The draws of a prepared group: the byte offset of the group uniform,
    /// and for each quad of the group, in order, its uniform offset,
    /// material and six vertices.
    pub fn render_quad_group(&self, quad_group: QuadGroup) -> (r: (u32, Vec<QuadDraw<'_, M>>))
        requires
            quad_group.start_quad <= quad_group.end_quad,
            quad_group.end_quad <= self.metadata().len(),
            quad_group.end_quad * 6 <= u32::MAX,
            quad_group.global_uniform * self.alignment() <= u64::MAX,
        ensures
            r.0 == (quad_group.global_uniform * self.alignment()) as u32,
            r.1@.len() == quad_group.end_quad - quad_group.start_quad,
            forall|i: int|
                0 <= i < r.1@.len() ==> {
                    &&& (#[trigger] r.1@[i]).uniform_offset == self.metadata()[quad_group.start_quad + i].uniform_offset
                    &&& *r.1@[i].material == self.metadata()[quad_group.start_quad + i].material
                    &&& r.1@[i].vertex_start == (quad_group.start_quad + i) * 6
                    &&& r.1@[i].vertex_end == (quad_group.start_quad + i + 1) * 6
                },
    {
        let global_uniform_offset = (quad_group.global_uniform * self.min_uniform_alignment) as u32;
        let start = quad_group.start_quad as usize;
        let end = quad_group.end_quad as usize;
        let mut draws: Vec<QuadDraw<'_, M>> = Vec::new();
        let mut i: usize = 0;
        while start + i < end
            invariant
                start == quad_group.start_quad,
                end == quad_group.end_quad,
                start <= end <= self.quad_metadata@.len(),
                end * 6 <= u32::MAX,
                start + i <= end,
                draws@.len() == i,
                forall|k: int|
                    0 <= k < i ==> {
                        &&& (#[trigger] draws@[k]).uniform_offset == self.quad_metadata@[start + k].uniform_offset
                        &&& *draws@[k].material == self.quad_metadata@[start + k].material
                        &&& draws@[k].vertex_start == (start + k) * 6
                        &&& draws@[k].vertex_end == (start + k + 1) * 6
                    },
            decreases end - start - i,
        {
            let quad_metadata = &self.quad_metadata[start + i];
            let first = start as u32 + i as u32;
            draws.push(
                QuadDraw {
                    uniform_offset: quad_metadata.uniform_offset,
                    material: &quad_metadata.material,
                    vertex_start: first * 6,
                    vertex_end: (first + 1) * 6,
                },
            );
            i = i + 1;
        }
        (global_uniform_offset, draws)
    }

    /// Hands the pending vertices and uniforms to be written after those
    /// already in the buffers, with where each goes, and forgets them.
    pub fn finish_preparation(&mut self) -> (r: QuadBufferWrites<V, G, U>)
        requires
            old(self).vertices_buffer().can_append(old(self).pending_vertices().len() as usize),
            old(self).group_uniforms_buffer().can_append(old(self).pending_group_uniforms().len() as usize),
            old(self).quad_uniforms_buffer().can_append(old(self).pending_quad_uniforms().len() as usize),
        ensures
            r.vertices@ == old(self).pending_vertices(),
            r.quad_group_uniforms@ == old(self).pending_group_uniforms(),
            r.quad_uniforms@ == old(self).pending_quad_uniforms(),
            old(self).vertices_buffer().appended(
                old(self).pending_vertices().len() as usize,
                r.vertex_write,
                final(self).vertices_buffer(),
            ),
            old(self).group_uniforms_buffer().appended(
                old(self).pending_group_uniforms().len() as usize,
                r.quad_group_uniform_write,
                final(self).group_uniforms_buffer(),
            ),
            old(self).quad_uniforms_buffer().appended(
                old(self).pending_quad_uniforms().len() as usize,
                r.quad_uniform_write,
                final(self).quad_uniforms_buffer(),
            ),
            final(self).pending_vertices().len() == 0,
            final(self).pending_group_uniforms().len() == 0,
            final(self).pending_quad_uniforms().len() == 0,
            final(self).metadata() == old(self).metadata(),
            final(self).spec_quad_count() == old(self).spec_quad_count(),
            final(self).spec_group_count() == old(self).spec_group_count(),
            final(self).alignment() == old(self).alignment(),
            final(self).wf() == old(self).wf(),
    {
        let vertex_write = self.vertex_buffer.append_vertices(self.pending_vertices.len());
        let quad_group_uniform_write = self.quad_group_uniform_buffer.append_uniforms(
            self.pending_quad_group_uniforms.len(),
        );
        let quad_uniform_write = self.quad_uniform_buffer.append_uniforms(self.pending_quad_uniforms.len());
        let mut vertices: Vec<V> = Vec::new();
        std::mem::swap(&mut vertices, &mut self.pending_vertices);
        let mut quad_group_uniforms: Vec<G> = Vec::new();
        std::mem::swap(&mut quad_group_uniforms, &mut self.pending_quad_group_uniforms);
        let mut quad_uniforms: Vec<U> = Vec::new();
        std::mem::swap(&mut quad_uniforms, &mut self.pending_quad_uniforms);
        QuadBufferWrites {
            vertices,
            vertex_write,
            quad_group_uniforms,
            quad_group_uniform_write,
            quad_uniforms,
            quad_uniform_write,
        }
    }

    /// Forgets the prepared quads and groups and empties the buffers (their
    /// room stays).
    pub fn clear_pending_quads(&mut self)
        ensures
            final(self).wf(),
            final(self).metadata().len() == 0,
            final(self).spec_group_count() == 0,
            final(self).vertices_buffer().spec_count() == 0,
            final(self).vertices_buffer().spec_capacity() == old(self).vertices_buffer().spec_capacity(),
            final(self).vertices_buffer().spec_element_size() == old(self).vertices_buffer().spec_element_size(),
            final(self).group_uniforms_buffer().spec_count() == 0,
            final(self).group_uniforms_buffer().spec_capacity() == old(self).group_uniforms_buffer().spec_capacity(),
            final(self).group_uniforms_buffer().spec_uniform_offset() == old(self).group_uniforms_buffer().spec_uniform_offset(),
            final(self).quad_uniforms_buffer().spec_count() == 0,
            final(self).quad_uniforms_buffer().spec_capacity() == old(self).quad_uniforms_buffer().spec_capacity(),
            final(self).quad_uniforms_buffer().spec_uniform_offset() == old(self).quad_uniforms_buffer().spec_uniform_offset(),
            final(self).pending_vertices() == old(self).pending_vertices(),
            final(self).pending_group_uniforms() == old(self).pending_group_uniforms(),
            final(self).pending_quad_uniforms() == old(self).pending_quad_uniforms(),
            final(self).alignment() == old(self).alignment(),
    {
        self.quad_metadata.clear();
        self.quad_group_uniform_count = 0;
        self.quad_count = 0;
        self.quad_uniform_buffer.clear();
        self.quad_group_uniform_buffer.clear();
        self.vertex_buffer.clear();
    }
}

/// The quads of a prepared group are drawn in the order given: the entry
/// that `render_quad_group` reads for the `i`-th quad of the group holds
/// that quad's material and the uniform offset of its position.
pub proof fn law_group_draws_its_quads<M, V: Copy, G, U>(
    a: QuadRenderer<M, V, G, U>,
    b: QuadRenderer<M, V, G, U>,
    quads: Seq<QuadDescription<V, M, U>>,
    group: QuadGroup,
)
    requires
        a.wf(),
        b.metadata() == a.metadata() + quads_metadata(quads, a.metadata().len() as int, a.alignment()),
        group.start_quad == a.spec_quad_count(),
        group.end_quad == a.spec_quad_count() + quads.len(),
    ensures
        group.end_quad <= b.metadata().len(),
        forall|i: int|
            0 <= i < quads.len() ==> (#[trigger] b.metadata()[group.start_quad + i]).material == quads[i].material
                && b.metadata()[group.start_quad + i].uniform_offset == quad_uniform_offset(
                group.start_quad + i,
                a.alignment(),
            ),
{
    assert forall|i: int| 0 <= i < quads.len() implies (#[trigger] b.metadata()[group.start_quad + i]).material
        == quads[i].material && b.metadata()[group.start_quad + i].uniform_offset == quad_uniform_offset(
        group.start_quad + i,
        a.alignment(),
    ) by {
        assert(b.metadata()[a.metadata().len() + i] == quads_metadata(quads, a.metadata().len() as int, a.alignment())[i]);
    }
}

} // verus!
