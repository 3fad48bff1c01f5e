use tuber::draw_command::{CommandBuffer, DrawCommand};
use tuber::gpu_buffer::{IndexBuffer, Reallocation, UniformBuffer, VertexBuffer};
use tuber::graphics::QuadGroup;
use tuber::quad_renderer::{QuadCorners, QuadDescription, QuadRenderer};
use tuber::renderer::{GraphicsError, Renderer};
use tuber::texture_store::TextureStore;

#[test]
fn index_buffer_grows_by_doubling_and_copies_written_indices() {
    let mut buffer = IndexBuffer::with_capacity("indices", 2, 4);
    let first = buffer.append_indices(4, 3);
    assert_eq!(first.offset_bytes, 0);
    assert_eq!(first.reallocation, None);
    let second = buffer.append_indices(2, 2);
    assert_eq!(second.offset_bytes, 6);
    assert_eq!(
        second.reallocation,
        Some(Reallocation { new_capacity: 8, new_bytes: 16, copied_bytes: 6 })
    );
    assert_eq!(buffer.ensure_capacity(8), None);
    assert_eq!(
        buffer.ensure_capacity(20),
        Some(Reallocation { new_capacity: 20, new_bytes: 40, copied_bytes: 10 })
    );
    buffer.clear();
    assert_eq!(buffer.append_indices(1, 1).offset_bytes, 0);
}

#[test]
fn vertex_buffer_copies_its_whole_capacity() {
    let mut buffer = VertexBuffer::with_capacity("vertices", 32, 3);
    let write = buffer.append_vertices(2);
    assert_eq!(write.offset_bytes, 0);
    assert_eq!(write.reallocation, None);
    let write = buffer.append_vertices(2);
    assert_eq!(write.offset_bytes, 64);
    assert_eq!(
        write.reallocation,
        Some(Reallocation { new_capacity: 6, new_bytes: 192, copied_bytes: 96 })
    );
    assert_eq!(buffer.ensure_capacity(6), None);
}

#[test]
fn uniform_buffer_grows_when_full() {
    let mut buffer = UniformBuffer::new("uniforms", 2, 256);
    assert_eq!(buffer.count(), 0);
    let write = buffer.append_uniforms(1);
    assert_eq!(write.offset_bytes, 0);
    assert_eq!(write.reallocation, None);
    // Capacity 2 is not more than 2: the buffer grows.
    let write = buffer.append_uniforms(1);
    assert_eq!(write.offset_bytes, 256);
    assert_eq!(
        write.reallocation,
        Some(Reallocation { new_capacity: 4, new_bytes: 1024, copied_bytes: 512 })
    );
    assert_eq!(buffer.count(), 2);
    assert_eq!(buffer.current_offset(), 512);
    buffer.clear();
    assert_eq!(buffer.count(), 0);
    assert_eq!(buffer.current_offset(), 0);
}

#[test]
fn command_buffer_sorts_commands_by_kind() {
    let mut commands: CommandBuffer<&str, u32, char> = CommandBuffer::new();
    commands.add(DrawCommand::Quad("q1"));
    commands.add(DrawCommand::Mesh(7));
    commands.add(DrawCommand::UIQuad("ui"));
    commands.add(DrawCommand::Light('l'));
    commands.add(DrawCommand::Quad("q2"));
    assert_eq!(commands.draw_quad_commands(), &["q1", "q2"]);
    assert_eq!(commands.draw_mesh_commands(), &[7]);
    assert_eq!(commands.draw_ui_quad_commands(), &["ui"]);
    assert_eq!(commands.draw_light_commands(), &['l']);
    commands.clear();
    assert!(commands.draw_quad_commands().is_empty());
    assert!(commands.draw_mesh_commands().is_empty());
    assert!(commands.draw_ui_quad_commands().is_empty());
    assert!(commands.draw_light_commands().is_empty());
}

fn quad(first: u32, material: &'static str) -> QuadDescription<u32, &'static str, u32> {
    QuadDescription {
        corners: QuadCorners { top_left: first, bottom_left: first + 1, top_right: first + 2, bottom_right: first + 3 },
        material,
        uniform: first * 10,
    }
}

#[test]
fn quad_groups_are_laid_out_in_order() {
    let mut renderer: QuadRenderer<&str, u32, &str, u32> = QuadRenderer::new(16, 256);
    let (group, reallocations) = renderer.prepare_quad_group("camera", vec![quad(0, "grass"), quad(4, "stone")]);
    assert_eq!(group, QuadGroup { start_quad: 0, end_quad: 2, global_uniform: 0 });
    assert_eq!(reallocations.vertex_buffer, None);
    assert_eq!(reallocations.quad_group_uniform_buffer, None);
    assert_eq!(reallocations.quad_uniform_buffer, None);

    let (second, _) = renderer.prepare_quad_group("ui_camera", vec![quad(8, "button")]);
    assert_eq!(second, QuadGroup { start_quad: 2, end_quad: 3, global_uniform: 1 });

    let (global_offset, draws) = renderer.render_quad_group(group);
    assert_eq!(global_offset, 0);
    assert_eq!(draws.len(), 2);
    assert_eq!(*draws[0].material, "grass");
    assert_eq!(draws[0].uniform_offset, 0);
    assert_eq!((draws[0].vertex_start, draws[0].vertex_end), (0, 6));
    assert_eq!(*draws[1].material, "stone");
    assert_eq!(draws[1].uniform_offset, 256);
    assert_eq!((draws[1].vertex_start, draws[1].vertex_end), (6, 12));

    let (global_offset, draws) = renderer.render_quad_group(second);
    assert_eq!(global_offset, 256);
    assert_eq!(*draws[0].material, "button");
    assert_eq!(draws[0].uniform_offset, 512);
    assert_eq!((draws[0].vertex_start, draws[0].vertex_end), (12, 18));

    let writes = renderer.finish_preparation();
    assert_eq!(writes.vertices, vec![0, 1, 2, 2, 1, 3, 4, 5, 6, 6, 5, 7, 8, 9, 10, 10, 9, 11]);
    assert_eq!(writes.quad_group_uniforms, vec!["camera", "ui_camera"]);
    assert_eq!(writes.quad_uniforms, vec![0, 40, 80]);
    assert_eq!(writes.vertex_write.offset_bytes, 0);
    assert_eq!(writes.quad_group_uniform_write.offset_bytes, 0);
    assert_eq!(writes.quad_uniform_write.offset_bytes, 0);
    assert_eq!(writes.vertex_write.reallocation, None);

    let again = renderer.finish_preparation();
    assert!(again.vertices.is_empty());
    assert_eq!(again.vertex_write.offset_bytes, 18 * 16);
    assert_eq!(again.quad_uniform_write.offset_bytes, 3 * 256);

    renderer.clear_pending_quads();
    let (group, _) = renderer.prepare_quad_group("camera", vec![quad(0, "grass")]);
    assert_eq!(group, QuadGroup { start_quad: 0, end_quad: 1, global_uniform: 0 });
}

#[test]
fn quad_uniform_buffers_grow() {
    let mut renderer: QuadRenderer<u8, u8, u8, u8> = QuadRenderer::new(4, 256);
    let quads: Vec<QuadDescription<u8, u8, u8>> = (0..12)
        .map(|i| QuadDescription {
            corners: QuadCorners { top_left: i, bottom_left: i, top_right: i, bottom_right: i },
            material: i,
            uniform: i,
        })
        .collect();
    let (_, reallocations) = renderer.prepare_quad_group(0, quads);
    assert_eq!(reallocations.vertex_buffer, None);
    assert_eq!(
        reallocations.quad_uniform_buffer,
        Some(Reallocation { new_capacity: 20, new_bytes: 20 * 256, copied_bytes: 10 * 256 })
    );
    assert_eq!(reallocations.quad_group_uniform_buffer, None);
}

#[test]
fn meshes_are_queued_after_one_another() {
    let mut renderer: Renderer<char, u8, &str> = Renderer::new(32, 256, "placeholder group", "white group", "black group");
    renderer.queue_mesh(&['a', 'b', 'c'], &[0, 1, 2], 1, "wood");
    renderer.queue_mesh(&['d', 'e', 'f'], &[0, 2, 1], 2, "_white");
    assert_eq!(renderer.pending_vertices(), &['a', 'b', 'c', 'd', 'e', 'f']);
    assert_eq!(renderer.pending_indices(), &[0, 1, 2, 3, 5, 4]);
    assert_eq!(renderer.pending_mesh_uniforms(), &[1, 2]);

    let draws = renderer.mesh_draws();
    assert_eq!(draws.len(), 2);
    assert_eq!(draws[0].texture_identifier, "wood");
    // "wood" is not loaded: the placeholder is drawn instead.
    assert_eq!(*draws[0].texture_bind_group, "placeholder group");
    assert_eq!((draws[0].uniform_offset, draws[0].index_start, draws[0].index_end), (0, 0, 3));
    assert_eq!(draws[1].texture_identifier, "_white");
    assert_eq!(*draws[1].texture_bind_group, "white group");
    assert_eq!((draws[1].uniform_offset, draws[1].index_start, draws[1].index_end), (256, 3, 6));

    renderer.finish_render();
    assert!(renderer.mesh_draws().is_empty());
    assert!(renderer.pending_indices().is_empty());
}

#[test]
fn mesh_indices_are_padded_to_an_even_count() {
    let mut renderer: Renderer<u8, u8, u8> = Renderer::new(8, 256, 0, 1, 2);
    renderer.queue_mesh(&[1, 2, 3], &[0, 1, 2], 0, "tex");
    let writes = renderer.prepare_buffers();
    assert_eq!(renderer.pending_indices(), &[0, 1, 2, 0]);
    assert_eq!(writes.vertex_write.offset_bytes, 0);
    assert_eq!(writes.index_write.offset_bytes, 0);
    assert_eq!(writes.mesh_uniform_write.offset_bytes, 0);
    renderer.finish_render();
    renderer.queue_mesh(&[4], &[0, 0], 0, "tex");
    let writes = renderer.prepare_buffers();
    assert_eq!(renderer.pending_indices(), &[0, 0]);
    assert_eq!(writes.index_write.offset_bytes, 0);
}

#[test]
fn a_last_index_of_zero_restarts_at_zero() {
    let mut renderer: Renderer<u8, u8, u8> = Renderer::new(8, 256, 0, 1, 2);
    renderer.queue_mesh(&[1], &[0], 0, "a");
    renderer.queue_mesh(&[2], &[0, 1], 0, "b");
    assert_eq!(renderer.pending_indices(), &[0, 0, 1]);
}

#[test]
fn built_in_textures_are_loaded() {
    let mut renderer: Renderer<u8, u8, u8> = Renderer::new(8, 256, 10, 11, 12);
    renderer.queue_mesh(&[0], &[0], 0, "_black");
    renderer.queue_mesh(&[0], &[0], 0, "_placeholder");
    renderer.queue_mesh(&[0], &[0], 0, "missing");
    let groups: Vec<u8> = renderer.mesh_draws().iter().map(|d| *d.texture_bind_group).collect();
    assert_eq!(groups, vec![12, 10, 10]);

    let mut store: TextureStore<u8> = TextureStore::new();
    assert_eq!(store.texture_bind_group("a"), None);
    store.load_texture("a", 1);
    store.load_texture("b", 2);
    store.load_texture("a", 3);
    assert_eq!(store.texture_bind_group("a"), Some(&3));
    assert_eq!(store.texture_bind_group("b"), Some(&2));
    assert_eq!(store.texture_bind_group("c"), None);
}

#[test]
fn render_writes_draws_then_empties_the_queue() {
    let mut renderer: Renderer<u8, u8, u8> = Renderer::new(8, 256, 0, 1, 2);
    renderer.queue_mesh(&[1, 2, 3], &[0, 1, 2], 7, "stone");
    renderer.queue_mesh(&[4, 5], &[0, 1], 8, "_white");

    let failed = renderer.render(Err("lost"));
    assert!(matches!(failed, Err(GraphicsError::SurfaceError("lost"))));
    assert_eq!(renderer.pending_indices(), &[0, 1, 2, 3, 4]);

    let frame = match renderer.render::<&str>(Ok(())) {
        Ok(frame) => frame,
        Err(_) => panic!("the surface gave a texture"),
    };
    assert_eq!(frame.writes.vertex_write.offset_bytes, 0);
    assert_eq!(frame.writes.index_write.offset_bytes, 0);
    assert_eq!(frame.draws.len(), 2);
    assert_eq!(frame.draws[0].texture_identifier, "stone");
    assert_eq!(frame.draws[0].drawn_with, "_placeholder");
    assert_eq!((frame.draws[0].uniform_offset, frame.draws[0].index_start, frame.draws[0].index_end), (0, 0, 3));
    assert_eq!(frame.draws[1].drawn_with, "_white");
    assert_eq!((frame.draws[1].uniform_offset, frame.draws[1].index_start, frame.draws[1].index_end), (256, 3, 5));
    assert!(renderer.pending_indices().is_empty());
    assert!(renderer.mesh_draws().is_empty());
}
