use tuber::animation::AnimationState;
use tuber::bitmap_font::{BitmapFont, BitmapGlyph};
use tuber::graphics::{create_wgpu_texture_identifier, MaterialDescriptor, MaybeUninitialized, WindowSize};
use tuber::immediate_gui::ImmediateGUI;
use tuber::render_graph::{RenderGraph, RenderGraphResources};
use tuber::render_resource::{RenderResourceKind, RenderResourceStore};

#[test]
fn wgpu_texture_identifier_is_prefixed() {
    assert_eq!(create_wgpu_texture_identifier("player"), "wgputexture_player");
    assert_eq!(create_wgpu_texture_identifier(""), "wgputexture_");
}

#[test]
fn default_material_uses_albedo_texture() {
    let material = MaterialDescriptor::default();
    assert_eq!(material.albedo_map, "albedo_texture");
    assert!(material.normal_map.is_none());
    assert!(material.emission_map.is_none());
}

#[test]
fn maybe_uninitialized_gives_its_value() {
    let mut value = MaybeUninitialized::Initialized(WindowSize { width: 800, height: 600 });
    assert_eq!(value.assume_initialized().width, 800);
    value.assume_initialized_mut().height = 480;
    assert_eq!(*value.assume_initialized(), WindowSize { width: 800, height: 480 });
}

#[test]
fn animation_loops_over_keyframes() {
    let mut state: AnimationState<&str> = AnimationState::default();
    assert_eq!(state.frame_duration, 500);
    assert_eq!(state.current_keyframe, 0);
    assert!(!state.flip_x);
    state.keyframes = vec!["a", "b", "c"];
    state.update_animation_state_at(0);
    assert_eq!(state.current_keyframe, 0);
    state.update_animation_state_at(499);
    assert_eq!(state.current_keyframe, 0);
    state.update_animation_state_at(500);
    assert_eq!(state.current_keyframe, 1);
    state.update_animation_state_at(1250);
    assert_eq!(state.current_keyframe, 2);
    state.update_animation_state_at(1500);
    assert_eq!(state.current_keyframe, 0);
    state.update_animation_state();
    assert!(state.current_keyframe < 3);
}

#[test]
fn bitmap_font_glyphs() {
    let font = BitmapFont::new(
        Some("font.json".to_string()),
        Some("font_texture".to_string()),
        Some((0u32, 0u32, 64u32, 64u32)),
        8,
        2,
        1,
        true,
        vec![
            ('a', BitmapGlyph::new((0u32, 0u32, 8u32, 8u32))),
            ('b', BitmapGlyph::new((8u32, 0u32, 8u32, 8u32))),
            ('a', BitmapGlyph::new((16u32, 0u32, 8u32, 8u32))),
        ],
    );
    assert_eq!(font.font_atlas(), Some(&"font.json".to_string()));
    assert_eq!(font.font_atlas_texture(), Some(&"font_texture".to_string()));
    assert_eq!(font.font_atlas_region(), Some(&(0, 0, 64, 64)));
    assert_eq!(font.line_height(), 8);
    assert_eq!(font.line_spacing(), 2);
    assert_eq!(font.letter_spacing(), 1);
    assert!(font.ignore_case());
    assert_eq!(font.glyph_count(), 2);
    assert_eq!(font.glyph('a').map(|g| *g.region()), Some((16, 0, 8, 8)));
    assert_eq!(font.glyph('b').map(|g| *g.region()), Some((8, 0, 8, 8)));
    assert!(font.glyph('c').is_none());
}

#[test]
fn render_graph_runs_passes_in_order() {
    let mut resources = RenderGraphResources::new();
    let first = resources.import_texture_view("surface");
    let second = resources.import_texture_view("depth");
    assert_eq!(*resources.texture_view(first), "surface");
    assert_eq!(*resources.texture_view(second), "depth");

    let mut graph: RenderGraph<&str, u8, u32> = RenderGraph::new(&resources);
    graph.add_pass("geometry").with_color_attachment(second, 2).with_color_attachment(first, 1).dispatch(&mut graph, 10);
    graph.add_pass("composition").dispatch(&mut graph, 20);
    graph.compile();
    let passes = graph.execute();
    assert_eq!(passes.len(), 2);
    assert_eq!(passes[0].identifier, "composition");
    assert_eq!(passes[0].dispatch_fn, 20);
    assert_eq!(passes[1].identifier, "geometry");
    assert_eq!(passes[1].color_attachments.len(), 2);
    assert_eq!(passes[1].color_attachments[0].as_ref().map(|a| (*a.view, a.clear_color)), Some(("depth", 2)));
    assert_eq!(passes[1].color_attachments[1].as_ref().map(|a| (*a.view, a.clear_color)), Some(("surface", 1)));
}

#[test]
fn render_resource_store_keeps_the_surface_view() {
    let mut store = RenderResourceStore::new();
    let handle = store.store_current_surface_texture_view("view");
    assert!(handle.is_a_texture_view());
    assert!(handle.kind() == RenderResourceKind::CurrentSurfaceTextureView);
    assert_eq!(store.texture_view(handle), Some(&"view"));
    store.store_current_surface_texture_view("next");
    assert_eq!(store.texture_view(handle), Some(&"next"));
}

#[test]
fn immediate_gui_turns_frames_into_quads() {
    let mut gui = ImmediateGUI::new();
    gui.frame((10, 20), 1);
    gui.frame((30, 40), 2);
    let quads = gui.generate_quads(|size: (i32, i32), transform: i32| size.0 * size.1 + transform);
    assert_eq!(quads, vec![201, 1202]);
    let again = gui.generate_quads(|size: (i32, i32), transform: i32| size.0 + transform);
    assert!(again.is_empty());
}

#[test]
fn parse_from_json() {
    let json = r#"
    {
        "font_atlas": "font_atlas",
        "font_atlas_texture": "font_atlas_texture",
        "font_atlas_region": { "x": 0, "y": 0, "width": 0, "height": 0 },
        "line_height": 32,
        "line_spacing": 4,
        "ignore_case": false,
        "letter_spacing": 2,
        "glyphs": {
            "A": { "region": { "x": 0, "y": 0, "width": 32, "height": 32 } },
            "D": { "region": { "x": 32, "y": 0, "width": 32, "height": 32 } }
        }
    }
    "#;
    let value: serde_json::Value = serde_json::from_str(json).unwrap();
    let region = |v: &serde_json::Value| {
        (v["x"].as_u64().unwrap(), v["y"].as_u64().unwrap(), v["width"].as_u64().unwrap(), v["height"].as_u64().unwrap())
    };
    let glyphs: Vec<(char, BitmapGlyph<(u64, u64, u64, u64)>)> = value["glyphs"]
        .as_object()
        .unwrap()
        .iter()
        .map(|(c, g)| (c.chars().next().unwrap(), BitmapGlyph::new(region(&g["region"]))))
        .collect();
    let font = BitmapFont::new(
        value["font_atlas"].as_str().map(|s| s.to_string()),
        value["font_atlas_texture"].as_str().map(|s| s.to_string()),
        Some(region(&value["font_atlas_region"])),
        value["line_height"].as_u64().unwrap() as u32,
        value["line_spacing"].as_u64().unwrap() as u32,
        value["letter_spacing"].as_u64().unwrap() as u32,
        value["ignore_case"].as_bool().unwrap(),
        glyphs,
    );
    assert_eq!(font.font_atlas(), Some(&"font_atlas".to_string()));
    assert_eq!(font.font_atlas_texture(), Some(&"font_atlas_texture".to_string()));
    assert_eq!(font.line_height(), 32);
    assert_eq!(font.line_spacing(), 4);
    assert_eq!(font.letter_spacing(), 2);
    assert!(!font.ignore_case());
    assert_eq!(font.glyph_count(), 2);
    assert!(font.glyph('A').is_some());
    assert!(font.glyph('D').is_some());
    assert_eq!(font.glyph('D').map(|g| *g.region()), Some((32, 0, 32, 32)));
    assert_eq!(font.glyph_entries().len(), 2);
}

fn font_with_upper_a(ignore_case: bool) -> BitmapFont<u32> {
    BitmapFont::new(None, None, None, 8, 0, 0, ignore_case, vec![('A', BitmapGlyph::new(1)), ('b', BitmapGlyph::new(2))])
}

#[test]
fn ignore_case_finds_the_other_case() {
    let font = font_with_upper_a(true);
    assert_eq!(font.glyph('a').map(|g| *g.region()), Some(1));
    assert_eq!(font.glyph('A').map(|g| *g.region()), Some(1));
    assert_eq!(font.glyph('B').map(|g| *g.region()), Some(2));
    assert!(font.glyph('c').is_none());
    assert!(font.glyph('[').is_none());
}

#[test]
fn case_counts_unless_ignored() {
    let font = font_with_upper_a(false);
    assert!(font.glyph('a').is_none());
    assert_eq!(font.glyph('A').map(|g| *g.region()), Some(1));
    assert!(font.glyph('B').is_none());
}

#[test]
fn ignore_case_takes_the_last_entry_of_either_case() {
    let font = BitmapFont::new(None, None, None, 8, 0, 0, true, vec![('a', BitmapGlyph::new(1u32)), ('A', BitmapGlyph::new(2u32))]);
    assert_eq!(font.glyph('a').map(|g| *g.region()), Some(2));
    assert_eq!(font.glyph('A').map(|g| *g.region()), Some(2));
}
