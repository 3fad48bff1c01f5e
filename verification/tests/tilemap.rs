use tuber::tilemap::{IntoTag, Tag, Tile, Tilemap};

#[test]
fn tag_keeps_its_identifier() {
    let tag = Tag::new("grass");
    assert_eq!(tag.identifier(), "grass");
    assert!(tag == Tag::new("grass"));
    assert!(tag != Tag::new("water"));
}

#[test]
fn str_into_tag() {
    let tag = "wall".into_tag();
    assert_eq!(tag.identifier(), "wall");
    let again = tag.into_tag();
    assert_eq!(again.identifier(), "wall");
}

#[test]
fn tile_with_tags_holds_each_tag_once() {
    let tile = Tile::with_tags(&["grass", "solid", "grass"]);
    assert!(tile.has_tag("grass"));
    assert!(tile.has_tag("solid"));
    assert!(!tile.has_tag("water"));
    assert_eq!(tile.tags.len(), 2);
}

#[test]
fn tile_without_tags() {
    let none: [&str; 0] = [];
    let tile = Tile::with_tags(&none);
    assert!(!tile.has_tag("grass"));
    assert_eq!(tile.tags.len(), 0);
}

#[test]
fn tilemap_fills_every_tile_with_default_tags() {
    let map = Tilemap::new(3, 2, 16, 8, &[Tag::new("floor")]);
    assert_eq!(map.width, 3);
    assert_eq!(map.height, 2);
    assert_eq!(map.tile_width, 16);
    assert_eq!(map.tile_height, 8);
    assert_eq!(map.tiles.len(), 6);
    for tile in &map.tiles {
        assert!(tile.has_tag("floor"));
        assert!(!tile.has_tag("wall"));
    }
}

#[test]
fn empty_tilemap() {
    let map = Tilemap::new(0, 5, 1, 1, &["x"]);
    assert_eq!(map.tiles.len(), 0);
}
