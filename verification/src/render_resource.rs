//! Handles to render resources, and the store that resolves them.
use vstd::prelude::*;

verus! {

/// The kinds of render resource.
#[derive(Clone, Copy, Debug, PartialEq, Eq, Structural)]
pub enum RenderResourceKind {
    CurrentSurfaceTextureView,
}

/// A handle to a render resource.
#[derive(Clone, Copy, Debug, PartialEq, Eq, Structural)]
pub struct RenderResourceHandle {
    kind: RenderResourceKind,
}

/// The index of a render pass.
pub type PassHandle = usize;

/// Where a render pass input comes from: a stored resource, or an output of
/// an earlier pass.
#[derive(Clone, Copy, Debug, PartialEq, Eq, Structural)]
pub enum RenderResourceSource {
    RenderResource(RenderResourceHandle),
    PassOutput(PassHandle, usize),
}

impl RenderResourceHandle {
    /// The kind of resource handled.
    pub closed spec fn spec_kind(&self) -> RenderResourceKind {
        self.kind
    }

    /// The kind of resource handled.
    pub fn kind(&self) -> (k: RenderResourceKind)
        ensures
            k == self.spec_kind(),
    {
        self.kind
    }

    /// Whether the handle is to a texture view.
    pub fn is_a_texture_view(&self) -> (b: bool)
        ensures
            b == (self.spec_kind() == RenderResourceKind::CurrentSurfaceTextureView),
    {
        match self.kind {
            RenderResourceKind::CurrentSurfaceTextureView => true,
        }
    }
}

/// Holds the render resources of a frame; texture views are of type `T`.
pub struct RenderResourceStore<T> {
    current_surface_texture_view: Option<T>,
}

impl<T> RenderResourceStore<T> {
    /// The current surface texture view, if one was stored.
    pub closed spec fn surface_view(&self) -> Option<T> {
        self.current_surface_texture_view
    }

    /// An empty store.
    pub fn new() -> (s: Self)
        ensures
            s.surface_view() is None,
    {
        RenderResourceStore { current_surface_texture_view: None }
    }

    /// Stores the current surface texture view and returns its handle.
    pub fn store_current_surface_texture_view(&mut self, current_surface_texture_view: T) -> (h: RenderResourceHandle)
        ensures
            final(self).surface_view() == Some(current_surface_texture_view),
            h.spec_kind() == RenderResourceKind::CurrentSurfaceTextureView,
    {
        self.current_surface_texture_view = Some(current_surface_texture_view);
        RenderResourceHandle { kind: RenderResourceKind::CurrentSurfaceTextureView }
    }

    /// The texture view a handle stands for, if stored.
    pub fn texture_view(&self, handle: RenderResourceHandle) -> (r: Option<&T>)
        ensures
            r == match self.surface_view() {
                Some(v) => Some(&v),
                None => None::<&T>,
            },
    {
        match handle.kind() {
            RenderResourceKind::CurrentSurfaceTextureView => self.current_surface_texture_view.as_ref(),
        }
    }
}

impl<T> Default for RenderResourceStore<T> {
    fn default() -> (s: Self)
        ensures
            s.surface_view() is None,
    {
        RenderResourceStore::new()
    }
}

} // verus!
