//! The draw commands of a frame, sorted by kind as they are added: quads,
//! meshes, interface quads and lights.
use vstd::prelude::*;

verus! {

/// A draw command: a quad `Q`, a mesh `M`, an interface quad or a light `L`.
pub enum DrawCommand<Q, M, L> {
    Quad(Q),
    Mesh(M),
    UIQuad(Q),
    Light(L),
}

/// The commands of a frame, one list per kind, each in the order added.
pub struct CommandBuffer<Q, M, L> {
    draw_mesh_command_buffer: Vec<M>,
    draw_quad_command_buffer: Vec<Q>,
    draw_ui_quad_command_buffer: Vec<Q>,
    draw_light_command_buffer: Vec<L>,
}

impl<Q, M, L> CommandBuffer<Q, M, L> {
    /// The mesh commands.
    pub closed spec fn meshes(&self) -> Seq<M> {
        self.draw_mesh_command_buffer@
    }

    /// The quad commands.
    pub closed spec fn quads(&self) -> Seq<Q> {
        self.draw_quad_command_buffer@
    }

    /// The interface quad commands.
    pub closed spec fn ui_quads(&self) -> Seq<Q> {
        self.draw_ui_quad_command_buffer@
    }

    /// The light commands.
    pub closed spec fn lights(&self) -> Seq<L> {
        self.draw_light_command_buffer@
    }

    /// No commands.
    pub fn new() -> (b: Self)
        ensures
            b.meshes().len() == 0,
            b.quads().len() == 0,
            b.ui_quads().len() == 0,
            b.lights().len() == 0,
    {
        CommandBuffer {
            draw_mesh_command_buffer: Vec::new(),
            draw_quad_command_buffer: Vec::new(),
            draw_ui_quad_command_buffer: Vec::new(),
            draw_light_command_buffer: Vec::new(),
        }
    }

    /// Adds `command` at the end of the list of its kind.
    pub fn add(&mut self, command: DrawCommand<Q, M, L>)
        ensures
            final(self).meshes() == (match command {
                DrawCommand::Mesh(m) => old(self).meshes().push(m),
                _ => old(self).meshes(),
            }),
            final(self).quads() == (match command {
                DrawCommand::Quad(q) => old(self).quads().push(q),
                _ => old(self).quads(),
            }),
            final(self).ui_quads() == (match command {
                DrawCommand::UIQuad(q) => old(self).ui_quads().push(q),
                _ => old(self).ui_quads(),
            }),
            final(self).lights() == (match command {
                DrawCommand::Light(l) => old(self).lights().push(l),
                _ => old(self).lights(),
            }),
    {
        match command {
            DrawCommand::Mesh(draw_mesh_command) => self.draw_mesh_command_buffer.push(draw_mesh_command),
            DrawCommand::Quad(draw_quad_command) => self.draw_quad_command_buffer.push(draw_quad_command),
            DrawCommand::UIQuad(draw_quad_command) => self.draw_ui_quad_command_buffer.push(draw_quad_command),
            DrawCommand::Light(draw_light_command) => self.draw_light_command_buffer.push(draw_light_command),
        }
    }

    /// The mesh commands, in the order added.
    pub fn draw_mesh_commands(&self) -> (r: &[M])
        ensures
            r@ == self.meshes(),
    {
        self.draw_mesh_command_buffer.as_slice()
    }

    /// The quad commands, in the order added.
    pub fn draw_quad_commands(&self) -> (r: &[Q])
        ensures
            r@ == self.quads(),
    {
        self.draw_quad_command_buffer.as_slice()
    }

    /// The interface quad commands, in the order added.
    pub fn draw_ui_quad_commands(&self) -> (r: &[Q])
        ensures
            r@ == self.ui_quads(),
    {
        self.draw_ui_quad_command_buffer.as_slice()
    }

    /// The light commands, in the order added.
    pub fn draw_light_commands(&self) -> (r: &[L])
        ensures
            r@ == self.lights(),
    {
        self.draw_light_command_buffer.as_slice()
    }

    /// Forgets all commands.
    pub fn clear(&mut self)
        ensures
            final(self).meshes().len() == 0,
            final(self).quads().len() == 0,
            final(self).ui_quads().len() == 0,
            final(self).lights().len() == 0,
    {
        self.draw_mesh_command_buffer.clear();
        self.draw_quad_command_buffer.clear();
        self.draw_ui_quad_command_buffer.clear();
        self.draw_light_command_buffer.clear();
    }
}

} // verus!
