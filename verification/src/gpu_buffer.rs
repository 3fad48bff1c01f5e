//! Bookkeeping of GPU buffers that grow: how many elements a buffer holds,
//! how many it has room for, where the next write goes, and when and how it
//! must be reallocated. The caller does the GPU work that these decisions
//! describe (allocating, copying, writing).
use vstd::prelude::*;

verus! {

/// A reallocation: a new buffer of `new_bytes` bytes, with room for
/// `new_capacity` elements, into which the first `copied_bytes` bytes of the
/// old buffer are copied.
#[derive(Clone, Copy, Debug, PartialEq, Eq, Structural)]
pub struct Reallocation {
    pub new_capacity: usize,
    pub new_bytes: usize,
    pub copied_bytes: usize,
}

/// A write into a buffer: the data goes at byte `offset_bytes`, after the
/// reallocation, if one is needed.
#[derive(Clone, Copy, Debug, PartialEq, Eq, Structural)]
pub struct BufferWrite {
    pub offset_bytes: usize,
    pub reallocation: Option<Reallocation>,
}

/// The capacity a buffer of `capacity` elements grows to for `target`
/// elements: twice as large, or `target` if that is more.
pub open spec fn grown_capacity(capacity: usize, target: usize) -> int {
    if capacity * 2 >= target {
        capacity * 2
    } else {
        target as int
    }
}

/// The reallocation of a buffer of `capacity` elements of `element_size`
/// bytes for `target` elements, keeping its first `copied` elements.
pub open spec fn reallocation(capacity: usize, target: usize, element_size: usize, copied: usize) -> Reallocation {
    Reallocation {
        new_capacity: grown_capacity(capacity, target) as usize,
        new_bytes: (grown_capacity(capacity, target) * element_size) as usize,
        copied_bytes: (copied * element_size) as usize,
    }
}

/// Whether the reallocation for `target` elements fits in machine words.
pub open spec fn reallocation_fits(capacity: usize, target: usize, element_size: usize, copied: usize) -> bool {
    &&& capacity * 2 <= usize::MAX
    &&& grown_capacity(capacity, target) * element_size <= usize::MAX
    &&& copied * element_size <= usize::MAX
}

fn plan_reallocation(capacity: usize, target: usize, element_size: usize, copied: usize) -> (r: Reallocation)
    requires
        reallocation_fits(capacity, target, element_size, copied),
    ensures
        r == reallocation(capacity, target, element_size, copied),
{
    let doubled = capacity * 2;
    let new_capacity = if doubled >= target {
        doubled
    } else {
        target
    };
    Reallocation { new_capacity, new_bytes: new_capacity * element_size, copied_bytes: copied * element_size }
}

/// The bookkeeping of an index buffer: elements of `element_size` bytes; on
/// reallocation the indices written so far are copied.
pub struct IndexBuffer {
    label: String,
    element_size: usize,
    count: usize,
    capacity: usize,
}

impl IndexBuffer {
    /// The buffer's label.
    pub closed spec fn spec_label(&self) -> Seq<char> {
        self.label@
    }

    /// The size of one element in bytes.
    pub closed spec fn spec_element_size(&self) -> usize {
        self.element_size
    }

    /// The number of elements written.
    pub closed spec fn spec_count(&self) -> usize {
        self.count
    }

    /// The number of elements there is room for.
    pub closed spec fn spec_capacity(&self) -> usize {
        self.capacity
    }

    /// Whether growing to `target` elements fits in machine words.
    pub open spec fn can_grow_to(&self, target: usize) -> bool {
        target > self.spec_capacity() ==> reallocation_fits(
            self.spec_capacity(),
            target,
            self.spec_element_size(),
            self.spec_count(),
        )
    }

    /// An empty buffer named `label` with room for `capacity` elements of
    /// `element_size` bytes.
    pub fn with_capacity(label: &str, element_size: usize, capacity: usize) -> (b: Self)
        ensures
            b.spec_label() == label@,
            b.spec_element_size() == element_size,
            b.spec_count() == 0,
            b.spec_capacity() == capacity,
    {
        IndexBuffer { label: label.to_owned(), element_size, count: 0, capacity }
    }

    /// Makes room for `target_capacity` elements: nothing if there is room,
    /// else a reallocation to twice the capacity (or the target, if more)
    /// that keeps the indices written.
    pub fn ensure_capacity(&mut self, target_capacity: usize) -> (r: Option<Reallocation>)
        requires
            old(self).can_grow_to(target_capacity),
        ensures
            old(self).spec_capacity() >= target_capacity ==> r is None && *final(self) == *old(self),
            old(self).spec_capacity() < target_capacity ==> {
                &&& r == Some(
                    reallocation(
                        old(self).spec_capacity(),
                        target_capacity,
                        old(self).spec_element_size(),
                        old(self).spec_count(),
                    ),
                )
                &&& final(self).spec_capacity() == r->0.new_capacity
                &&& final(self).spec_count() == old(self).spec_count()
                &&& final(self).spec_element_size() == old(self).spec_element_size()
                &&& final(self).spec_label() == old(self).spec_label()
            },
    {
        if self.capacity >= target_capacity {
            return None;
        }
        let plan = plan_reallocation(self.capacity, target_capacity, self.element_size, self.count);
        self.capacity = plan.new_capacity;
        Some(plan)
    }

    /// Whether `indices_len` more indices, `index_count` of them counted,
    /// fit in machine words.
    pub open spec fn can_append(&self, indices_len: usize, index_count: usize) -> bool {
        &&& self.spec_count() + indices_len <= usize::MAX
        &&& self.spec_count() + index_count <= usize::MAX
        &&& self.spec_count() * self.spec_element_size() <= usize::MAX
        &&& self.can_grow_to((self.spec_count() + indices_len) as usize)
    }

    /// What writing `indices_len` indices (`index_count` counted) does: the
    /// write `w` goes after the indices written, with a reallocation if they
    /// do not fit, and leaves the buffer `after`.
    pub open spec fn appended(&self, indices_len: usize, index_count: usize, w: BufferWrite, after: Self) -> bool {
        &&& w.offset_bytes == self.spec_count() * self.spec_element_size()
        &&& if self.spec_capacity() >= self.spec_count() + indices_len {
            w.reallocation is None && after.spec_capacity() == self.spec_capacity()
        } else {
            &&& w.reallocation == Some(
                reallocation(
                    self.spec_capacity(),
                    (self.spec_count() + indices_len) as usize,
                    self.spec_element_size(),
                    self.spec_count(),
                ),
            )
            &&& after.spec_capacity() == w.reallocation->0.new_capacity
        }
        &&& after.spec_count() == self.spec_count() + index_count
        &&& after.spec_element_size() == self.spec_element_size()
        &&& after.spec_label() == self.spec_label()
    }

    /// Writes `indices_len` indices after those written, of which
    /// `index_count` are counted as written.
    pub fn append_indices(&mut self, indices_len: usize, index_count: usize) -> (w: BufferWrite)
        requires
            old(self).can_append(indices_len, index_count),
        ensures
            old(self).appended(indices_len, index_count, w, *final(self)),
    {
        let reallocation = self.ensure_capacity(self.count + indices_len);
        let offset_bytes = self.count * self.element_size;
        self.count = self.count + index_count;
        BufferWrite { offset_bytes, reallocation }
    }

    /// Forgets the indices written; the room stays.
    pub fn clear(&mut self)
        ensures
            final(self).spec_count() == 0,
            final(self).spec_capacity() == old(self).spec_capacity(),
            final(self).spec_element_size() == old(self).spec_element_size(),
            final(self).spec_label() == old(self).spec_label(),
    {
        self.count = 0;
    }
}

/// The bookkeeping of a vertex buffer: elements of `element_size` bytes; on
/// reallocation the whole old buffer is copied.
pub struct VertexBuffer {
    label: String,
    element_size: usize,
    count: usize,
    capacity: usize,
}

impl VertexBuffer {
    /// The buffer's label.
    pub closed spec fn spec_label(&self) -> Seq<char> {
        self.label@
    }

    /// The size of one element in bytes.
    pub closed spec fn spec_element_size(&self) -> usize {
        self.element_size
    }

    /// The number of elements written.
    pub closed spec fn spec_count(&self) -> usize {
        self.count
    }

    /// The number of elements there is room for.
    pub closed spec fn spec_capacity(&self) -> usize {
        self.capacity
    }

    /// Whether growing to `target` elements fits in machine words.
    pub open spec fn can_grow_to(&self, target: usize) -> bool {
        target > self.spec_capacity() ==> reallocation_fits(
            self.spec_capacity(),
            target,
            self.spec_element_size(),
            self.spec_capacity(),
        )
    }

    /// An empty buffer named `label` with room for `capacity` elements of
    /// `element_size` bytes.
    pub fn with_capacity(label: &str, element_size: usize, capacity: usize) -> (b: Self)
        ensures
            b.spec_label() == label@,
            b.spec_element_size() == element_size,
            b.spec_count() == 0,
            b.spec_capacity() == capacity,
    {
        VertexBuffer { label: label.to_owned(), element_size, count: 0, capacity }
    }

    /// Makes room for `target_capacity` elements: nothing if there is room,
    /// else a reallocation to twice the capacity (or the target, if more)
    /// that copies the whole old buffer.
    pub fn ensure_capacity(&mut self, target_capacity: usize) -> (r: Option<Reallocation>)
        requires
            old(self).can_grow_to(target_capacity),
        ensures
            old(self).spec_capacity() >= target_capacity ==> r is None && *final(self) == *old(self),
            old(self).spec_capacity() < target_capacity ==> {
                &&& r == Some(
                    reallocation(
                        old(self).spec_capacity(),
                        target_capacity,
                        old(self).spec_element_size(),
                        old(self).spec_capacity(),
                    ),
                )
                &&& final(self).spec_capacity() == r->0.new_capacity
                &&& final(self).spec_count() == old(self).spec_count()
                &&& final(self).spec_element_size() == old(self).spec_element_size()
                &&& final(self).spec_label() == old(self).spec_label()
            },
    {
        if self.capacity >= target_capacity {
            return None;
        }
        let plan = plan_reallocation(self.capacity, target_capacity, self.element_size, self.capacity);
        self.capacity = plan.new_capacity;
        Some(plan)
    }

    /// Whether `vertices_len` more vertices fit in machine words.
    pub open spec fn can_append(&self, vertices_len: usize) -> bool {
        &&& self.spec_count() + vertices_len <= usize::MAX
        &&& self.spec_count() * self.spec_element_size() <= usize::MAX
        &&& self.can_grow_to((self.spec_count() + vertices_len) as usize)
    }

    /// What writing `vertices_len` vertices does: the write `w` goes after
    /// the vertices written, with a reallocation if they do not fit, and
    /// leaves the buffer `after`.
    pub open spec fn appended(&self, vertices_len: usize, w: BufferWrite, after: Self) -> bool {
        &&& w.offset_bytes == self.spec_count() * self.spec_element_size()
        &&& if self.spec_capacity() >= self.spec_count() + vertices_len {
            w.reallocation is None && after.spec_capacity() == self.spec_capacity()
        } else {
            &&& w.reallocation == Some(
                reallocation(
                    self.spec_capacity(),
                    (self.spec_count() + vertices_len) as usize,
                    self.spec_element_size(),
                    self.spec_capacity(),
                ),
            )
            &&& after.spec_capacity() == w.reallocation->0.new_capacity
        }
        &&& after.spec_count() == self.spec_count() + vertices_len
        &&& after.spec_element_size() == self.spec_element_size()
        &&& after.spec_label() == self.spec_label()
    }

    /// Writes `vertices_len` vertices after those written.
    pub fn append_vertices(&mut self, vertices_len: usize) -> (w: BufferWrite)
        requires
            old(self).can_append(vertices_len),
        ensures
            old(self).appended(vertices_len, w, *final(self)),
    {
        let reallocation = self.ensure_capacity(self.count + vertices_len);
        let offset_bytes = self.count * self.element_size;
        self.count = self.count + vertices_len;
        BufferWrite { offset_bytes, reallocation }
    }

    /// Forgets the vertices written; the room stays.
    pub fn clear(&mut self)
        ensures
            final(self).spec_count() == 0,
            final(self).spec_capacity() == old(self).spec_capacity(),
            final(self).spec_element_size() == old(self).spec_element_size(),
            final(self).spec_label() == old(self).spec_label(),
    {
        self.count = 0;
    }
}

/// The bookkeeping of a uniform buffer: each uniform takes `uniform_offset`
/// bytes (the device's uniform alignment); on reallocation the whole old
/// buffer is copied.
pub struct UniformBuffer {
    label: String,
    uniform_count: usize,
    capacity: usize,
    uniform_offset: usize,
}

impl UniformBuffer {
    /// The buffer's label.
    pub closed spec fn spec_label(&self) -> Seq<char> {
        self.label@
    }

    /// The number of uniforms written.
    pub closed spec fn spec_count(&self) -> usize {
        self.uniform_count
    }

    /// The number of uniforms there is room for.
    pub closed spec fn spec_capacity(&self) -> usize {
        self.capacity
    }

    /// The bytes each uniform takes.
    pub closed spec fn spec_uniform_offset(&self) -> usize {
        self.uniform_offset
    }

    /// Whether growing to `target` uniforms fits in machine words.
    pub open spec fn can_grow_to(&self, target: usize) -> bool {
        target >= self.spec_capacity() ==> reallocation_fits(
            self.spec_capacity(),
            target,
            self.spec_uniform_offset(),
            self.spec_capacity(),
        )
    }

    /// An empty buffer named `label` with room for `default_capacity`
    /// uniforms of `uniform_offset` bytes each.
    pub fn new(label: &str, default_capacity: usize, uniform_offset: usize) -> (b: Self)
        ensures
            b.spec_label() == label@,
            b.spec_count() == 0,
            b.spec_capacity() == default_capacity,
            b.spec_uniform_offset() == uniform_offset,
    {
        UniformBuffer { label: label.to_owned(), uniform_count: 0, capacity: default_capacity, uniform_offset }
    }

    /// Makes room for `target_capacity` uniforms: nothing while the capacity
    /// is larger, else a reallocation to twice the capacity (or the target,
    /// if more) that copies the whole old buffer.
    pub fn ensure_capacity(&mut self, target_capacity: usize) -> (r: Option<Reallocation>)
        requires
            old(self).can_grow_to(target_capacity),
        ensures
            old(self).spec_capacity() > target_capacity ==> r is None && *final(self) == *old(self),
            old(self).spec_capacity() <= target_capacity ==> {
                &&& r == Some(
                    reallocation(
                        old(self).spec_capacity(),
                        target_capacity,
                        old(self).spec_uniform_offset(),
                        old(self).spec_capacity(),
                    ),
                )
                &&& final(self).spec_capacity() == r->0.new_capacity
                &&& final(self).spec_count() == old(self).spec_count()
                &&& final(self).spec_uniform_offset() == old(self).spec_uniform_offset()
                &&& final(self).spec_label() == old(self).spec_label()
            },
    {
        if self.capacity > target_capacity {
            return None;
        }
        let plan = plan_reallocation(self.capacity, target_capacity, self.uniform_offset, self.capacity);
        self.capacity = plan.new_capacity;
        Some(plan)
    }

    /// Whether `uniforms_len` more uniforms fit in machine words.
    pub open spec fn can_append(&self, uniforms_len: usize) -> bool {
        &&& self.spec_count() + uniforms_len <= usize::MAX
        &&& self.spec_count() * self.spec_uniform_offset() <= usize::MAX
        &&& self.can_grow_to((self.spec_count() + uniforms_len) as usize)
    }

    /// What writing `uniforms_len` uniforms does: the write `w` goes after
    /// the uniforms written, with a reallocation unless the capacity stays
    /// larger, and leaves the buffer `after`.
    pub open spec fn appended(&self, uniforms_len: usize, w: BufferWrite, after: Self) -> bool {
        &&& w.offset_bytes == self.spec_count() * self.spec_uniform_offset()
        &&& if self.spec_capacity() > self.spec_count() + uniforms_len {
            w.reallocation is None && after.spec_capacity() == self.spec_capacity()
        } else {
            &&& w.reallocation == Some(
                reallocation(
                    self.spec_capacity(),
                    (self.spec_count() + uniforms_len) as usize,
                    self.spec_uniform_offset(),
                    self.spec_capacity(),
                ),
            )
            &&& after.spec_capacity() == w.reallocation->0.new_capacity
        }
        &&& after.spec_count() == self.spec_count() + uniforms_len
        &&& after.spec_uniform_offset() == self.spec_uniform_offset()
        &&& after.spec_label() == self.spec_label()
    }

    /// Writes `uniforms_len` uniforms after those written.
    pub fn append_uniforms(&mut self, uniforms_len: usize) -> (w: BufferWrite)
        requires
            old(self).can_append(uniforms_len),
        ensures
            old(self).appended(uniforms_len, w, *final(self)),
    {
        let offset_bytes = self.uniform_count * self.uniform_offset;
        let reallocation = self.ensure_capacity(self.uniform_count + uniforms_len);
        self.uniform_count = self.uniform_count + uniforms_len;
        BufferWrite { offset_bytes, reallocation }
    }

    /// Forgets the uniforms written; the room stays.
    pub fn clear(&mut self)
        ensures
            final(self).spec_count() == 0,
            final(self).spec_capacity() == old(self).spec_capacity(),
            final(self).spec_uniform_offset() == old(self).spec_uniform_offset(),
            final(self).spec_label() == old(self).spec_label(),
    {
        self.uniform_count = 0;
    }

    /// The number of uniforms written.
    pub fn count(&self) -> (n: usize)
        ensures
            n == self.spec_count(),
    {
        self.uniform_count
    }

    /// The byte offset of the next uniform.
    pub fn current_offset(&self) -> (o: usize)
        requires
            self.spec_count() * self.spec_uniform_offset() <= usize::MAX,
        ensures
            o == self.spec_count() * self.spec_uniform_offset(),
    {
        self.uniform_count * self.uniform_offset
    }
}

/// A buffer that has grown stays at least as large as asked and never
/// shrinks: after a reallocation for `target` elements there is room for
/// `target`, and for at least as many as before.
pub proof fn law_growth_makes_room(capacity: usize, target: usize, element_size: usize, copied: usize)
    requires
        reallocation_fits(capacity, target, element_size, copied),
    ensures
        reallocation(capacity, target, element_size, copied).new_capacity >= target,
        reallocation(capacity, target, element_size, copied).new_capacity >= capacity,
{
}

} // verus!
