//! A render graph: texture views imported for a frame, and render passes,
//! each with its colour attachments and the function that records it.
use vstd::prelude::*;

verus! {

/// A handle to a texture view imported into [`RenderGraphResources`].
#[derive(Clone, Copy, Debug, PartialEq, Eq, Structural)]
pub struct TextureViewHandle {
    id: usize,
}

impl TextureViewHandle {
    /// The position of the view among the imported ones.
    pub closed spec fn spec_id(&self) -> usize {
        self.id
    }

    /// The handle of the view imported at position `id`.
    pub fn from_id(id: usize) -> (h: Self)
        ensures
            h.spec_id() == id,
    {
        TextureViewHandle { id }
    }
}

/// The texture views, of type `T`, imported for a frame.
pub struct RenderGraphResources<T> {
    texture_views: Vec<T>,
}

impl<T> RenderGraphResources<T> {
    /// The views imported, in order.
    pub closed spec fn views(&self) -> Seq<T> {
        self.texture_views@
    }

    /// No views.
    pub fn new() -> (r: Self)
        ensures
            r.views() == Seq::<T>::empty(),
    {
        RenderGraphResources { texture_views: Vec::new() }
    }

    /// Imports `texture_view` and returns its handle.
    pub fn import_texture_view(&mut self, texture_view: T) -> (h: TextureViewHandle)
        requires
            old(self).views().len() < usize::MAX,
        ensures
            final(self).views() == old(self).views().push(texture_view),
            h.spec_id() == old(self).views().len(),
    {
        self.texture_views.push(texture_view);
        TextureViewHandle { id: self.texture_views.len() - 1 }
    }

    /// The view a handle stands for.
    pub fn texture_view(&self, texture_view_handle: TextureViewHandle) -> (v: &T)
        requires
            texture_view_handle.spec_id() < self.views().len(),
        ensures
            *v == self.views()[texture_view_handle.spec_id() as int],
    {
        &self.texture_views[texture_view_handle.id]
    }
}

/// A colour attachment of a pass: a texture view, cleared to a colour of
/// type `C` before the pass.
pub struct ColorAttachment<C> {
    pub texture_view_handle: TextureViewHandle,
    pub clear_color: C,
}

/// A colour attachment as a pass uses it: the texture view it draws into,
/// cleared to `clear_color` before the pass.
pub struct RenderPassColorAttachment<'res, T, C> {
    pub view: &'res T,
    pub clear_color: C,
}

/// A render pass: its name, colour attachments and recording function `D`.
pub struct RenderPass<'res, T, C, D> {
    pub identifier: String,
    pub color_attachments: Vec<Option<RenderPassColorAttachment<'res, T, C>>>,
    pub dispatch_fn: D,
}

/// Whether the colour attachment `described`, with views `views`, is what
/// `used` draws into: the view its handle names and its clear colour.
pub open spec fn resolves_to<T, C>(
    views: Seq<T>,
    described: Option<ColorAttachment<C>>,
    used: Option<RenderPassColorAttachment<'_, T, C>>,
) -> bool {
    match described {
        None => used is None,
        Some(a) => used is Some && *used->0.view == views[a.texture_view_handle.spec_id() as int]
            && used->0.clear_color == a.clear_color,
    }
}

/// Whether every colour attachment of `attachments` names an imported view.
pub open spec fn handles_valid<C>(views_len: nat, attachments: Seq<Option<ColorAttachment<C>>>) -> bool {
    forall|i: int|
        0 <= i < attachments.len() ==> (#[trigger] attachments[i] matches Some(a)
            ==> a.texture_view_handle.spec_id() < views_len)
}

/// The render passes of a frame over the views of `resources`, and the
/// order to run them in.
pub struct RenderGraph<'res, T, C, D> {
    resources: &'res RenderGraphResources<T>,
    render_passes: Vec<RenderPass<'res, T, C, D>>,
    pass_execution_order: Vec<usize>,
}

impl<'res, T, C, D> RenderGraph<'res, T, C, D> {
    /// The views the passes draw into.
    pub closed spec fn views(&self) -> Seq<T> {
        self.resources.views()
    }

    /// The passes, in the order they were added.
    pub closed spec fn passes(&self) -> Seq<RenderPass<'res, T, C, D>> {
        self.render_passes@
    }

    /// The order to run the passes in, as positions among them.
    pub closed spec fn execution_order(&self) -> Seq<usize> {
        self.pass_execution_order@
    }

    /// A graph over the views of `resources`, without passes, which runs the
    /// second pass added and then the first.
    pub fn new(resources: &'res RenderGraphResources<T>) -> (g: Self)
        ensures
            g.views() == resources.views(),
            g.passes().len() == 0,
            g.execution_order() == seq![1usize, 0usize],
    {
        let mut order: Vec<usize> = Vec::new();
        order.push(1);
        order.push(0);
        assert(order@ =~= seq![1usize, 0usize]);
        RenderGraph { resources, render_passes: Vec::new(), pass_execution_order: order }
    }

    /// Starts describing a pass named `pass_identifier`.
    pub fn add_pass(&self, pass_identifier: &str) -> (b: RenderPassBuilder<C>)
        ensures
            b.identifier@ == pass_identifier@,
            b.color_attachments@.len() == 0,
    {
        RenderPassBuilder::new(pass_identifier)
    }

    /// Prepares the graph for execution; there is nothing to prepare.
    pub fn compile(&mut self)
        ensures
            *final(self) == *old(self),
    {
    }

    /// The passes in the order they run.
    pub fn execute(&self) -> (r: Vec<&RenderPass<'res, T, C, D>>)
        requires
            forall|i: int| 0 <= i < self.execution_order().len() ==> #[trigger] self.execution_order()[i]
                < self.passes().len(),
        ensures
            r@.len() == self.execution_order().len(),
            forall|i: int| 0 <= i < r@.len() ==> *#[trigger] r@[i] == self.passes()[self.execution_order()[i] as int],
    {
        let mut r: Vec<&RenderPass<'res, T, C, D>> = Vec::new();
        let mut i: usize = 0;
        while i < self.pass_execution_order.len()
            invariant
                i <= self.pass_execution_order@.len(),
                forall|j: int| 0 <= j < self.execution_order().len() ==> #[trigger] self.execution_order()[j]
                    < self.passes().len(),
                r@.len() == i,
                forall|j: int| 0 <= j < i ==> *#[trigger] r@[j] == self.passes()[self.execution_order()[j] as int],
            decreases self.pass_execution_order@.len() - i,
        {
            let index = self.pass_execution_order[i];
            assert(self.execution_order()[i as int] == index);
            r.push(&self.render_passes[index]);
            i = i + 1;
        }
        r
    }

    fn generate_pass(&mut self, identifier: String, color_attachments: Vec<Option<ColorAttachment<C>>>, dispatch_fn: D)
        requires
            handles_valid(old(self).views().len(), color_attachments@),
        ensures
            final(self).views() == old(self).views(),
            final(self).execution_order() == old(self).execution_order(),
            final(self).passes().len() == old(self).passes().len() + 1,
            forall|i: int| 0 <= i < old(self).passes().len() ==> #[trigger] final(self).passes()[i] == old(self).passes()[i],
            final(self).passes().last().identifier == identifier,
            final(self).passes().last().dispatch_fn == dispatch_fn,
            final(self).passes().last().color_attachments@.len() == color_attachments@.len(),
            forall|i: int|
                0 <= i < color_attachments@.len() ==> resolves_to(
                    old(self).views(),
                    #[trigger] color_attachments@[i],
                    final(self).passes().last().color_attachments@[i],
                ),
    {
        let resources = self.resources;
        let mut used: Vec<Option<RenderPassColorAttachment<'res, T, C>>> = Vec::new();
        let ghost described = color_attachments@;
        assert(described.len() == color_attachments.len());
        let mut rest = color_attachments;
        let mut k: usize = 0;
        while rest.len() > 0
            invariant
                k + rest@.len() == described.len(),
                described.len() <= usize::MAX,
                rest@ == described.skip(k as int),
                used@.len() == k,
                resources.views() == old(self).views(),
                handles_valid(resources.views().len(), described),
                forall|i: int| 0 <= i < k ==> resolves_to(resources.views(), #[trigger] described[i], used@[i]),
            decreases rest@.len(),
        {
            let attachment = rest.remove(0);
            proof {
                assert(attachment == described[k as int]);
                assert(rest@ =~= described.skip(k + 1));
            }
            let resolved = match attachment {
                None => None,
                Some(a) => {
                    assert(described[k as int] matches Some(d) ==> d.texture_view_handle.spec_id() < resources.views().len());
                    Some(RenderPassColorAttachment { view: resources.texture_view(a.texture_view_handle), clear_color: a.clear_color })
                },
            };
            used.push(resolved);
            k = k + 1;
        }
        self.render_passes.push(RenderPass { identifier, color_attachments: used, dispatch_fn });
    }
}

/// The description of a pass being built.
pub struct RenderPassBuilder<C> {
    pub identifier: String,
    pub color_attachments: Vec<Option<ColorAttachment<C>>>,
}

impl<C> RenderPassBuilder<C> {
    fn new(identifier: &str) -> (b: Self)
        ensures
            b.identifier@ == identifier@,
            b.color_attachments@.len() == 0,
    {
        RenderPassBuilder { identifier: identifier.to_owned(), color_attachments: Vec::new() }
    }

    /// Adds a colour attachment: view `texture_view_handle`, cleared to
    /// `clear_color`.
    pub fn with_color_attachment(self, texture_view_handle: TextureViewHandle, clear_color: C) -> (b: Self)
        ensures
            b.identifier == self.identifier,
            b.color_attachments@ == self.color_attachments@.push(
                Some(ColorAttachment { texture_view_handle, clear_color }),
            ),
    {
        let mut b = self;
        b.color_attachments.push(Some(ColorAttachment { texture_view_handle, clear_color }));
        b
    }

    /// Adds the pass described, recorded by `dispatch_fn`, to
    /// `render_graph`: each colour attachment draws into the view its handle
    /// names, which must be one imported into the graph's resources.
    pub fn dispatch<'res, T, D>(self, render_graph: &mut RenderGraph<'res, T, C, D>, dispatch_fn: D)
        requires
            handles_valid(old(render_graph).views().len(), self.color_attachments@),
        ensures
            final(render_graph).views() == old(render_graph).views(),
            final(render_graph).execution_order() == old(render_graph).execution_order(),
            final(render_graph).passes().len() == old(render_graph).passes().len() + 1,
            forall|i: int|
                0 <= i < old(render_graph).passes().len() ==> #[trigger] final(render_graph).passes()[i] == old(
                    render_graph,
                ).passes()[i],
            final(render_graph).passes().last().identifier == self.identifier,
            final(render_graph).passes().last().dispatch_fn == dispatch_fn,
            final(render_graph).passes().last().color_attachments@.len() == self.color_attachments@.len(),
            forall|i: int|
                0 <= i < self.color_attachments@.len() ==> resolves_to(
                    old(render_graph).views(),
                    #[trigger] self.color_attachments@[i],
                    final(render_graph).passes().last().color_attachments@[i],
                ),
    {
        render_graph.generate_pass(self.identifier, self.color_attachments, dispatch_fn);
    }
}

/// The handle that `import_texture_view` returns finds the view imported,
/// and keeps finding it after more views are imported.
pub proof fn law_imported_view_is_found<T>(
    a: RenderGraphResources<T>,
    b: RenderGraphResources<T>,
    c: RenderGraphResources<T>,
    handle: TextureViewHandle,
    view: T,
    later: Seq<T>,
)
    requires
        b.views() == a.views().push(view),
        handle.spec_id() == a.views().len(),
        c.views() == b.views() + later,
    ensures
        handle.spec_id() < b.views().len(),
        b.views()[handle.spec_id() as int] == view,
        handle.spec_id() < c.views().len(),
        c.views()[handle.spec_id() as int] == view,
{
}

} // verus!
