//! The bookkeeping of the mesh renderer: meshes are queued with their
//! vertices, indices (rebased so that meshes follow one another), model
//! uniform and texture; at render time the queued data goes to the GPU
//! buffers and each mesh is drawn from its range of indices. The caller
//! does the GPU work that these values describe.
use crate::gpu_buffer::{BufferWrite, IndexBuffer, UniformBuffer, VertexBuffer};
use crate::texture_store::TextureStore;
use vstd::prelude::*;

verus! {

/// The byte size of an index.
pub const INDEX_SIZE: usize = 2;

/// The bytes between two mesh uniforms.
pub const MESH_UNIFORM_STRIDE: usize = 256;

/// What is kept of a queued mesh: its uniform offset, its range of indices
/// and its texture.
pub struct MeshMetadata {
    pub uniform_offset: u32,
    pub start_index: u32,
    pub index_count: u32,
    pub texture_identifier: String,
}

/// Where the queued data of a frame goes in the GPU buffers.
#[derive(Clone, Copy, Debug, PartialEq, Eq, Structural)]
pub struct MeshBufferWrites {
    pub vertex_write: BufferWrite,
    pub index_write: BufferWrite,
    pub mesh_uniform_write: BufferWrite,
}

/// One draw of a mesh: its texture (and the bind group drawn with: the
/// texture's, or the placeholder's if the texture is not loaded), uniform
/// offset and index range `index_start..index_end`.
pub struct MeshDraw<'a, B> {
    pub texture_identifier: &'a str,
    pub texture_bind_group: &'a B,
    pub uniform_offset: u32,
    pub index_start: u32,
    pub index_end: u32,
}

/// The error of a frame that could not be rendered: the surface gave no
/// texture to draw on (`S` is the surface's own error).
#[derive(Debug, PartialEq, Eq)]
pub enum GraphicsError<S> {
    SurfaceError(S),
}

/// One draw of a rendered frame: the mesh's texture, the texture whose
/// bind group it is drawn with (its own, or the placeholder if it is not
/// loaded), its uniform offset and index range `index_start..index_end`.
pub struct FrameDraw {
    pub texture_identifier: String,
    pub drawn_with: String,
    pub uniform_offset: u32,
    pub index_start: u32,
    pub index_end: u32,
}

/// What a rendered frame hands to the GPU: where the queued data was
/// written, then the draws in the order the meshes were queued.
pub struct RenderedFrame {
    pub writes: MeshBufferWrites,
    pub draws: Vec<FrameDraw>,
}

/// The texture whose bind group a mesh with texture `texture` is drawn
/// with: `texture` itself if it is loaded, else the placeholder.
pub open spec fn drawn_identifier<B>(textures: Map<Seq<char>, B>, texture: Seq<char>) -> Seq<char> {
    if textures.contains_key(texture) {
        texture
    } else {
        "_placeholder"@
    }
}

/// The value added to the indices of a mesh queued after `pending`: 0 for
/// the first mesh or after a last index of 0, else one more than the last
/// index.
pub open spec fn index_base(pending: Seq<u16>) -> int {
    if pending.len() == 0 || pending.last() == 0 {
        0
    } else {
        pending.last() + 1
    }
}

/// `indices` moved up by `base`.
pub open spec fn rebased(indices: Seq<u16>, base: int) -> Seq<u16> {
    Seq::new(indices.len(), |i: int| (base + indices[i]) as u16)
}

/// The bind group a mesh with texture `texture` is drawn with: the
/// texture's if it is loaded, else the placeholder's.
pub open spec fn drawn_texture<B>(textures: Map<Seq<char>, B>, texture: Seq<char>) -> B {
    if textures.contains_key(texture) {
        textures[texture]
    } else {
        textures["_placeholder"@]
    }
}

/// The mesh renderer's state: vertices `V`, mesh uniforms `U` and texture
/// bind groups `B`.
pub struct Renderer<V, U, B> {
    vertex_buffer: VertexBuffer,
    index_buffer: IndexBuffer,
    mesh_uniform_buffer: UniformBuffer,
    mesh_metadata: Vec<MeshMetadata>,
    pending_vertices: Vec<V>,
    pending_indices: Vec<u16>,
    pending_mesh_uniforms: Vec<U>,
    texture_store: TextureStore<B>,
}

impl<V: Copy, U, B> Renderer<V, U, B> {
    /// The textures loaded, by identifier.
    pub closed spec fn textures(&self) -> Map<Seq<char>, B> {
        self.texture_store.textures()
    }

    /// The vertex buffer's bookkeeping.
    pub closed spec fn vertices_buffer(&self) -> VertexBuffer {
        self.vertex_buffer
    }

    /// The index buffer's bookkeeping.
    pub closed spec fn indices_buffer(&self) -> IndexBuffer {
        self.index_buffer
    }

    /// The mesh uniform buffer's bookkeeping.
    pub closed spec fn uniforms_buffer(&self) -> UniformBuffer {
        self.mesh_uniform_buffer
    }

    /// The queued meshes, in order.
    pub closed spec fn metadata(&self) -> Seq<MeshMetadata> {
        self.mesh_metadata@
    }

    /// Vertices waiting to be written.
    pub closed spec fn spec_pending_vertices(&self) -> Seq<V> {
        self.pending_vertices@
    }

    /// Indices waiting to be written.
    pub closed spec fn spec_pending_indices(&self) -> Seq<u16> {
        self.pending_indices@
    }

    /// Mesh uniforms waiting to be written.
    pub closed spec fn spec_pending_uniforms(&self) -> Seq<U> {
        self.pending_mesh_uniforms@
    }

    /// A renderer with nothing queued: room for 1000 vertices of
    /// `vertex_size` bytes, 100000 indices and 100 mesh uniforms of
    /// `min_uniform_alignment` bytes, and the textures "_placeholder",
    /// "_white" and "_black" loaded, with the given bind groups.
    pub fn new(vertex_size: usize, min_uniform_alignment: u32, placeholder: B, white: B, black: B) -> (r: Self)
        ensures
            r.textures() == Map::<Seq<char>, B>::empty().insert("_placeholder"@, placeholder).insert(
                "_white"@,
                white,
            ).insert("_black"@, black),
            r.vertices_buffer().spec_label() == "vertex_buffer"@,
            r.vertices_buffer().spec_element_size() == vertex_size,
            r.vertices_buffer().spec_count() == 0,
            r.vertices_buffer().spec_capacity() == 1000,
            r.indices_buffer().spec_label() == "index_buffer"@,
            r.indices_buffer().spec_element_size() == INDEX_SIZE,
            r.indices_buffer().spec_count() == 0,
            r.indices_buffer().spec_capacity() == 100_000,
            r.uniforms_buffer().spec_label() == "mesh_uniform_buffer"@,
            r.uniforms_buffer().spec_count() == 0,
            r.uniforms_buffer().spec_capacity() == 100,
            r.uniforms_buffer().spec_uniform_offset() == min_uniform_alignment,
            r.metadata().len() == 0,
            r.spec_pending_vertices().len() == 0,
            r.spec_pending_indices().len() == 0,
            r.spec_pending_uniforms().len() == 0,
    {
        let mut texture_store = TextureStore::new();
        texture_store.load_texture("_placeholder", placeholder);
        texture_store.load_texture("_white", white);
        texture_store.load_texture("_black", black);
        Renderer {
            texture_store,
            vertex_buffer: VertexBuffer::with_capacity("vertex_buffer", vertex_size, 1000),
            index_buffer: IndexBuffer::with_capacity("index_buffer", INDEX_SIZE, 100_000),
            mesh_uniform_buffer: UniformBuffer::new("mesh_uniform_buffer", 100, min_uniform_alignment as usize),
            mesh_metadata: Vec::new(),
            pending_vertices: Vec::new(),
            pending_indices: Vec::new(),
            pending_mesh_uniforms: Vec::new(),
        }
    }

    /// Queues a mesh: its vertices, its indices moved up past those of the
    /// meshes queued before, its model uniform, and its range of indices,
    /// uniform offset and texture.
    pub fn queue_mesh(&mut self, vertices: &[V], indices: &[u16], mesh_uniform: U, texture_identifier: &str)
        requires
            old(self).spec_pending_indices().len() > 0 && old(self).spec_pending_indices().last() != 0
                ==> old(self).spec_pending_indices().last() < u16::MAX,
            forall|i: int| 0 <= i < indices@.len() ==> index_base(old(self).spec_pending_indices()) + #[trigger] indices@[i]
                <= u16::MAX,
            old(self).metadata().len() * MESH_UNIFORM_STRIDE <= usize::MAX,
        ensures
            final(self).textures() == old(self).textures(),
            final(self).spec_pending_vertices() == old(self).spec_pending_vertices() + vertices@,
            final(self).spec_pending_indices() == old(self).spec_pending_indices() + rebased(
                indices@,
                index_base(old(self).spec_pending_indices()),
            ),
            final(self).spec_pending_uniforms() == old(self).spec_pending_uniforms().push(mesh_uniform),
            final(self).metadata().len() == old(self).metadata().len() + 1,
            forall|i: int| 0 <= i < old(self).metadata().len() ==> #[trigger] final(self).metadata()[i] == old(self).metadata()[i],
            final(self).metadata().last().uniform_offset == (old(self).metadata().len() * MESH_UNIFORM_STRIDE) as u32,
            final(self).metadata().last().start_index == old(self).spec_pending_indices().len() as u32,
            final(self).metadata().last().index_count == indices@.len() as u32,
            final(self).metadata().last().texture_identifier@ == texture_identifier@,
            final(self).vertices_buffer() == old(self).vertices_buffer(),
            final(self).indices_buffer() == old(self).indices_buffer(),
            final(self).uniforms_buffer() == old(self).uniforms_buffer(),
    {
        let mut k: usize = 0;
        let ghost v0 = self.pending_vertices@;
        while k < vertices.len()
            invariant
                k <= vertices@.len(),
                self.pending_vertices@ == v0 + vertices@.take(k as int),
                v0 == old(self).pending_vertices@,
                self.pending_indices@ == old(self).pending_indices@,
                self.pending_mesh_uniforms@ == old(self).pending_mesh_uniforms@,
                self.mesh_metadata@ == old(self).mesh_metadata@,
                self.vertex_buffer == old(self).vertex_buffer,
                self.index_buffer == old(self).index_buffer,
                self.mesh_uniform_buffer == old(self).mesh_uniform_buffer,
                self.texture_store == old(self).texture_store,
            decreases vertices@.len() - k,
        {
            self.pending_vertices.push(vertices[k]);
            assert(vertices@.take(k + 1) =~= vertices@.take(k as int).push(vertices@[k as int]));
            k = k + 1;
        }
        assert(vertices@.take(vertices@.len() as int) =~= vertices@);
        let ghost i0 = self.pending_indices@;
        let n = self.pending_indices.len();
        let mut start_index: u16 = if n == 0 {
            0
        } else {
            self.pending_indices[n - 1]
        };
        if start_index != 0 {
            start_index = start_index + 1;
        }
        assert(start_index == index_base(i0));
        let start = self.pending_indices.len();
        let mut j: usize = 0;
        while j < indices.len()
            invariant
                j <= indices@.len(),
                start == i0.len(),
                start_index == index_base(i0),
                forall|i: int| 0 <= i < indices@.len() ==> index_base(i0) + #[trigger] indices@[i] <= u16::MAX,
                self.pending_indices@ == i0 + rebased(indices@.take(j as int), start_index as int),
                self.pending_vertices@ == old(self).pending_vertices@ + vertices@,
                self.pending_mesh_uniforms@ == old(self).pending_mesh_uniforms@,
                self.mesh_metadata@ == old(self).mesh_metadata@,
                self.vertex_buffer == old(self).vertex_buffer,
                self.index_buffer == old(self).index_buffer,
                self.mesh_uniform_buffer == old(self).mesh_uniform_buffer,
                self.texture_store == old(self).texture_store,
            decreases indices@.len() - j,
        {
            let index = indices[j];
            assert(index == indices@[j as int]);
            self.pending_indices.push(start_index + index);
            assert(rebased(indices@.take(j + 1), start_index as int) =~= rebased(indices@.take(j as int), start_index as int).push(
                (start_index + index) as u16,
            ));
            j = j + 1;
        }
        assert(indices@.take(indices@.len() as int) =~= indices@);
        self.pending_mesh_uniforms.push(mesh_uniform);
        let uniform_offset = (self.mesh_metadata.len() * MESH_UNIFORM_STRIDE) as u32;
        self.mesh_metadata.push(
            MeshMetadata {
                uniform_offset,
                start_index: start as u32,
                index_count: indices.len() as u32,
                texture_identifier: texture_identifier.to_owned(),
            },
        );
    }

    /// The queued vertices.
    pub fn pending_vertices(&self) -> (r: &[V])
        ensures
            r@ == self.spec_pending_vertices(),
    {
        self.pending_vertices.as_slice()
    }

    /// The queued indices (padded to an even count once the buffers are
    /// prepared).
    pub fn pending_indices(&self) -> (r: &[u16])
        ensures
            r@ == self.spec_pending_indices(),
    {
        self.pending_indices.as_slice()
    }

    /// The queued mesh uniforms.
    pub fn pending_mesh_uniforms(&self) -> (r: &[U])
        ensures
            r@ == self.spec_pending_uniforms(),
    {
        self.pending_mesh_uniforms.as_slice()
    }

    /// Prepares the GPU buffers for the queued meshes: the queued indices
    /// are padded with a 0 to an even count (for the copy alignment), and
    /// the queued vertices, indices and uniforms are placed after those
    /// written, of the indices only the queued ones being counted.
    pub fn prepare_buffers(&mut self) -> (r: MeshBufferWrites)
        requires
            old(self).vertices_buffer().can_append(old(self).spec_pending_vertices().len() as usize),
            old(self).indices_buffer().can_append(
                (old(self).spec_pending_indices().len() + old(self).spec_pending_indices().len() % 2) as usize,
                old(self).spec_pending_indices().len() as usize,
            ),
            old(self).uniforms_buffer().can_append(old(self).spec_pending_uniforms().len() as usize),
        ensures
            final(self).textures() == old(self).textures(),
            final(self).spec_pending_indices() == (if old(self).spec_pending_indices().len() % 2 != 0 {
                old(self).spec_pending_indices().push(0)
            } else {
                old(self).spec_pending_indices()
            }),
            final(self).spec_pending_vertices() == old(self).spec_pending_vertices(),
            final(self).spec_pending_uniforms() == old(self).spec_pending_uniforms(),
            final(self).metadata() == old(self).metadata(),
            old(self).vertices_buffer().appended(
                old(self).spec_pending_vertices().len() as usize,
                r.vertex_write,
                final(self).vertices_buffer(),
            ),
            old(self).indices_buffer().appended(
                final(self).spec_pending_indices().len() as usize,
                old(self).spec_pending_indices().len() as usize,
                r.index_write,
                final(self).indices_buffer(),
            ),
            old(self).uniforms_buffer().appended(
                old(self).spec_pending_uniforms().len() as usize,
                r.mesh_uniform_write,
                final(self).uniforms_buffer(),
            ),
    {
        let vertex_write = self.vertex_buffer.append_vertices(self.pending_vertices.len());
        let index_count = self.pending_indices.len();
        if self.pending_indices.len() % 2 != 0 {
            self.pending_indices.push(0);
        }
        let index_write = self.index_buffer.append_indices(self.pending_indices.len(), index_count);
        let mesh_uniform_write = self.mesh_uniform_buffer.append_uniforms(self.pending_mesh_uniforms.len());
        MeshBufferWrites { vertex_write, index_write, mesh_uniform_write }
    }

    /// The draws of the queued meshes, in order: each mesh's texture and
    /// the bind group to draw it with (the placeholder's if the texture is
    /// not loaded), uniform offset and range of indices.
    pub fn mesh_draws(&self) -> (r: Vec<MeshDraw<'_, B>>)
        requires
            self.textures().contains_key("_placeholder"@),
            forall|i: int| 0 <= i < self.metadata().len() ==> (#[trigger] self.metadata()[i]).start_index
                + self.metadata()[i].index_count <= u32::MAX,
        ensures
            r@.len() == self.metadata().len(),
            forall|i: int|
                0 <= i < r@.len() ==> {
                    &&& (#[trigger] r@[i]).texture_identifier@ == self.metadata()[i].texture_identifier@
                    &&& *r@[i].texture_bind_group == drawn_texture(self.textures(), self.metadata()[i].texture_identifier@)
                    &&& r@[i].uniform_offset == self.metadata()[i].uniform_offset
                    &&& r@[i].index_start == self.metadata()[i].start_index
                    &&& r@[i].index_end == self.metadata()[i].start_index + self.metadata()[i].index_count
                },
    {
        let placeholder = match self.texture_store.texture_bind_group("_placeholder") {
            Some(b) => b,
            None => {
                assert(false);
                return Vec::new();
            },
        };
        let mut draws: Vec<MeshDraw<'_, B>> = Vec::new();
        let mut i: usize = 0;
        while i < self.mesh_metadata.len()
            invariant
                i <= self.mesh_metadata@.len(),
                draws@.len() == i,
                self.textures().contains_key("_placeholder"@),
                *placeholder == self.textures()["_placeholder"@],
                forall|k: int| 0 <= k < self.metadata().len() ==> (#[trigger] self.metadata()[k]).start_index
                    + self.metadata()[k].index_count <= u32::MAX,
                forall|k: int|
                    0 <= k < i ==> {
                        &&& (#[trigger] draws@[k]).texture_identifier@ == self.mesh_metadata@[k].texture_identifier@
                        &&& *draws@[k].texture_bind_group == drawn_texture(
                            self.textures(),
                            self.mesh_metadata@[k].texture_identifier@,
                        )
                        &&& draws@[k].uniform_offset == self.mesh_metadata@[k].uniform_offset
                        &&& draws@[k].index_start == self.mesh_metadata@[k].start_index
                        &&& draws@[k].index_end == self.mesh_metadata@[k].start_index + self.mesh_metadata@[k].index_count
                    },
            decreases self.mesh_metadata@.len() - i,
        {
            let m = &self.mesh_metadata[i];
            assert(self.metadata()[i as int] == *m);
            assert(m.start_index + m.index_count <= u32::MAX);
            let texture_bind_group = match self.texture_store.texture_bind_group(m.texture_identifier.as_str()) {
                Some(b) => b,
                None => placeholder,
            };
            draws.push(
                MeshDraw {
                    texture_identifier: m.texture_identifier.as_str(),
                    texture_bind_group,
                    uniform_offset: m.uniform_offset,
                    index_start: m.start_index,
                    index_end: m.start_index + m.index_count,
                },
            );
            i = i + 1;
        }
        draws
    }

    /// After a frame is rendered: forgets the queued meshes and empties the
    /// buffers (their room stays).
    pub fn finish_render(&mut self)
        ensures
            final(self).textures() == old(self).textures(),
            final(self).metadata().len() == 0,
            final(self).spec_pending_vertices().len() == 0,
            final(self).spec_pending_indices().len() == 0,
            final(self).spec_pending_uniforms().len() == 0,
            final(self).vertices_buffer().spec_count() == 0,
            final(self).vertices_buffer().spec_capacity() == old(self).vertices_buffer().spec_capacity(),
            final(self).vertices_buffer().spec_element_size() == old(self).vertices_buffer().spec_element_size(),
            final(self).indices_buffer().spec_count() == 0,
            final(self).indices_buffer().spec_capacity() == old(self).indices_buffer().spec_capacity(),
            final(self).indices_buffer().spec_element_size() == old(self).indices_buffer().spec_element_size(),
            final(self).uniforms_buffer().spec_count() == 0,
            final(self).uniforms_buffer().spec_capacity() == old(self).uniforms_buffer().spec_capacity(),
            final(self).uniforms_buffer().spec_uniform_offset() == old(self).uniforms_buffer().spec_uniform_offset(),
    {
        self.clear_pending_meshes();
        self.vertex_buffer.clear();
        self.index_buffer.clear();
        self.mesh_uniform_buffer.clear();
        self.mesh_metadata.clear();
    }

    /// Renders a frame. `surface` is what asking the surface for a texture
    /// gave: on its error nothing changes and the error is returned. Else
    /// the queued data is written to the buffers (as `prepare_buffers`
    /// does), the queued meshes are drawn in order (as `mesh_draws` says),
    /// and the queued meshes and buffers are then emptied (as
    /// `finish_render` does).
    pub fn render<S>(&mut self, surface: Result<(), S>) -> (r: Result<RenderedFrame, GraphicsError<S>>)
        requires
            old(self).textures().contains_key("_placeholder"@),
            forall|i: int| 0 <= i < old(self).metadata().len() ==> (#[trigger] old(self).metadata()[i]).start_index
                + old(self).metadata()[i].index_count <= u32::MAX,
            old(self).vertices_buffer().can_append(old(self).spec_pending_vertices().len() as usize),
            old(self).indices_buffer().can_append(
                (old(self).spec_pending_indices().len() + old(self).spec_pending_indices().len() % 2) as usize,
                old(self).spec_pending_indices().len() as usize,
            ),
            old(self).uniforms_buffer().can_append(old(self).spec_pending_uniforms().len() as usize),
        ensures
            surface matches Err(e) ==> r == Err::<RenderedFrame, GraphicsError<S>>(GraphicsError::SurfaceError(e))
                && *final(self) == *old(self),
            surface is Ok ==> r is Ok,
            r matches Ok(frame) ==> {
                &&& exists|b: VertexBuffer|
                    old(self).vertices_buffer().appended(
                        old(self).spec_pending_vertices().len() as usize,
                        frame.writes.vertex_write,
                        b,
                    ) && #[trigger] b.spec_capacity() == final(self).vertices_buffer().spec_capacity()
                &&& exists|b: IndexBuffer|
                    old(self).indices_buffer().appended(
                        (old(self).spec_pending_indices().len() + old(self).spec_pending_indices().len() % 2) as usize,
                        old(self).spec_pending_indices().len() as usize,
                        frame.writes.index_write,
                        b,
                    ) && #[trigger] b.spec_capacity() == final(self).indices_buffer().spec_capacity()
                &&& exists|b: UniformBuffer|
                    old(self).uniforms_buffer().appended(
                        old(self).spec_pending_uniforms().len() as usize,
                        frame.writes.mesh_uniform_write,
                        b,
                    ) && #[trigger] b.spec_capacity() == final(self).uniforms_buffer().spec_capacity()
                &&& frame.draws@.len() == old(self).metadata().len()
                &&& forall|i: int|
                    0 <= i < frame.draws@.len() ==> {
                        &&& (#[trigger] frame.draws@[i]).texture_identifier@ == old(self).metadata()[i].texture_identifier@
                        &&& frame.draws@[i].drawn_with@ == drawn_identifier(
                            old(self).textures(),
                            old(self).metadata()[i].texture_identifier@,
                        )
                        &&& frame.draws@[i].uniform_offset == old(self).metadata()[i].uniform_offset
                        &&& frame.draws@[i].index_start == old(self).metadata()[i].start_index
                        &&& frame.draws@[i].index_end == old(self).metadata()[i].start_index
                            + old(self).metadata()[i].index_count
                    }
                &&& final(self).textures() == old(self).textures()
                &&& final(self).metadata().len() == 0
                &&& final(self).spec_pending_vertices().len() == 0
                &&& final(self).spec_pending_indices().len() == 0
                &&& final(self).spec_pending_uniforms().len() == 0
                &&& final(self).vertices_buffer().spec_count() == 0
                &&& final(self).indices_buffer().spec_count() == 0
                &&& final(self).uniforms_buffer().spec_count() == 0
            },
    {
        match surface {
            Err(e) => {
                return Err(GraphicsError::SurfaceError(e));
            },
            Ok(()) => {},
        }
        let writes = self.prepare_buffers();
        let draws = self.frame_draws();
        self.finish_render();
        Ok(RenderedFrame { writes, draws })
    }

    fn frame_draws(&self) -> (r: Vec<FrameDraw>)
        requires
            forall|i: int| 0 <= i < self.metadata().len() ==> (#[trigger] self.metadata()[i]).start_index
                + self.metadata()[i].index_count <= u32::MAX,
        ensures
            r@.len() == self.metadata().len(),
            forall|i: int|
                0 <= i < r@.len() ==> {
                    &&& (#[trigger] r@[i]).texture_identifier@ == self.metadata()[i].texture_identifier@
                    &&& r@[i].drawn_with@ == drawn_identifier(self.textures(), self.metadata()[i].texture_identifier@)
                    &&& r@[i].uniform_offset == self.metadata()[i].uniform_offset
                    &&& r@[i].index_start == self.metadata()[i].start_index
                    &&& r@[i].index_end == self.metadata()[i].start_index + self.metadata()[i].index_count
                },
    {
        let mut draws: Vec<FrameDraw> = Vec::new();
        let mut i: usize = 0;
        while i < self.mesh_metadata.len()
            invariant
                i <= self.mesh_metadata@.len(),
                draws@.len() == i,
                forall|k: int| 0 <= k < self.metadata().len() ==> (#[trigger] self.metadata()[k]).start_index
                    + self.metadata()[k].index_count <= u32::MAX,
                forall|k: int|
                    0 <= k < i ==> {
                        &&& (#[trigger] draws@[k]).texture_identifier@ == self.mesh_metadata@[k].texture_identifier@
                        &&& draws@[k].drawn_with@ == drawn_identifier(
                            self.textures(),
                            self.mesh_metadata@[k].texture_identifier@,
                        )
                        &&& draws@[k].uniform_offset == self.mesh_metadata@[k].uniform_offset
                        &&& draws@[k].index_start == self.mesh_metadata@[k].start_index
                        &&& draws@[k].index_end == self.mesh_metadata@[k].start_index + self.mesh_metadata@[k].index_count
                    },
            decreases self.mesh_metadata@.len() - i,
        {
            let m = &self.mesh_metadata[i];
            assert(self.metadata()[i as int] == *m);
            let drawn_with = match self.texture_store.texture_bind_group(m.texture_identifier.as_str()) {
                Some(_) => m.texture_identifier.clone(),
                None => "_placeholder".to_owned(),
            };
            draws.push(
                FrameDraw {
                    texture_identifier: m.texture_identifier.clone(),
                    drawn_with,
                    uniform_offset: m.uniform_offset,
                    index_start: m.start_index,
                    index_end: m.start_index + m.index_count,
                },
            );
            i = i + 1;
        }
        draws
    }

    fn clear_pending_meshes(&mut self)
        ensures
            final(self).textures() == old(self).textures(),
            final(self).spec_pending_vertices().len() == 0,
            final(self).spec_pending_indices().len() == 0,
            final(self).spec_pending_uniforms().len() == 0,
            final(self).metadata() == old(self).metadata(),
            final(self).vertices_buffer() == old(self).vertices_buffer(),
            final(self).indices_buffer() == old(self).indices_buffer(),
            final(self).uniforms_buffer() == old(self).uniforms_buffer(),
    {
        self.pending_vertices.clear();
        self.pending_indices.clear();
        self.pending_mesh_uniforms.clear();
    }
}

/// A queued mesh is drawn from exactly its own indices: the range that its
/// metadata names in the queued indices holds the mesh's indices, moved up
/// past those of the meshes queued before.
pub proof fn law_mesh_range_holds_its_indices(pending: Seq<u16>, indices: Seq<u16>)
    requires
        pending.len() + indices.len() <= u32::MAX,
    ensures
        pending.len() as u32 == pending.len(),
        indices.len() as u32 == indices.len(),
        (pending + rebased(indices, index_base(pending))).subrange(
            pending.len() as int,
            (pending.len() + indices.len()) as int,
        ) == rebased(indices, index_base(pending)),
{
    assert((pending + rebased(indices, index_base(pending))).subrange(
        pending.len() as int,
        (pending.len() + indices.len()) as int,
    ) =~= rebased(indices, index_base(pending)));
}

/// The three built-in textures of a new renderer are loaded, so the
/// placeholder that draws fall back to is always there.
pub proof fn law_built_in_textures_loaded<B>(placeholder: B, white: B, black: B)
    ensures
        ({
            let textures = Map::<Seq<char>, B>::empty().insert("_placeholder"@, placeholder).insert("_white"@, white).insert(
                "_black"@,
                black,
            );
            &&& textures.contains_key("_placeholder"@)
            &&& textures["_placeholder"@] == placeholder
            &&& textures["_white"@] == white
            &&& textures["_black"@] == black
            &&& textures.dom().len() == 3
        }),
{
    reveal_strlit("_placeholder");
    reveal_strlit("_white");
    reveal_strlit("_black");
    assert("_placeholder"@.len() == 12);
    assert("_white"@.len() == 6);
    assert("_black"@.len() == 6);
    assert("_white"@[1] == 'w' && "_black"@[1] == 'b');
    assert("_placeholder"@ != "_white"@);
    assert("_placeholder"@ != "_black"@);
    assert("_white"@ != "_black"@);
    assert(Map::<Seq<char>, B>::empty().insert("_placeholder"@, placeholder).insert("_white"@, white).insert("_black"@, black).dom()
        =~= set!["_placeholder"@, "_white"@, "_black"@]);
}

} // verus!
