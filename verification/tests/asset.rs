use tuber::asset::{AssetMetadata, AssetStore, CoreError};

const TEXTURE: u64 = 1;
const SOUND: u64 = 2;

type Loader = fn(&AssetMetadata) -> String;

fn load_texture(metadata: &AssetMetadata) -> String {
    format!("texture:{}:{}", metadata.identifier, metadata.asset_path)
}

fn load_sound(metadata: &AssetMetadata) -> String {
    format!("sound:{}", metadata.identifier)
}

fn metadata(identifier: &str, kind: &str) -> AssetMetadata {
    AssetMetadata {
        identifier: identifier.to_string(),
        kind: kind.to_string(),
        metadata: vec![("width".to_string(), "16".to_string())],
        asset_path: "assets/sprites".to_string(),
    }
}

#[test]
fn loads_with_the_loader_of_the_kind() {
    let mut store: AssetStore<String, Loader> = AssetStore::new();
    store.register_loaders(vec![(TEXTURE, load_texture as Loader), (SOUND, load_sound as Loader)]);
    store.add_asset_metadata(metadata("player", "texture"));
    assert!(!store.has_asset(TEXTURE, "player"));
    assert_eq!(store.load(TEXTURE, "player"), Ok(()));
    assert!(store.has_asset(TEXTURE, "player"));
    assert_eq!(store.stored_asset(TEXTURE, "player"), Ok(&"texture:player:assets/sprites".to_string()));
    // Loading again keeps what is held.
    assert_eq!(store.load(TEXTURE, "player"), Ok(()));
    assert_eq!(store.asset(TEXTURE, "player"), Ok(&"texture:player:assets/sprites".to_string()));
}

#[test]
fn asset_loads_on_first_read() {
    let mut store: AssetStore<String, Loader> = AssetStore::new();
    store.register_loader(SOUND, load_sound as Loader);
    store.add_asset_metadata(metadata("boom", "sound"));
    assert_eq!(store.asset(SOUND, "boom"), Ok(&"sound:boom".to_string()));
    assert!(store.has_asset(SOUND, "boom"));
}

#[test]
fn later_loader_replaces_earlier() {
    let mut store: AssetStore<String, Loader> = AssetStore::new();
    store.register_loader(TEXTURE, load_sound as Loader);
    store.register_loader(TEXTURE, load_texture as Loader);
    store.add_asset_metadata(metadata("tiles", "texture"));
    assert_eq!(store.asset(TEXTURE, "tiles"), Ok(&"texture:tiles:assets/sprites".to_string()));
}

#[test]
fn missing_metadata() {
    let mut store: AssetStore<String, Loader> = AssetStore::new();
    store.register_loader(TEXTURE, load_texture as Loader);
    assert_eq!(store.load(TEXTURE, "ghost"), Err(CoreError::AssetMetadataNotFound));
    assert_eq!(store.asset(TEXTURE, "ghost"), Err(CoreError::AssetMetadataNotFound));
}

#[test]
fn missing_loader() {
    let mut store: AssetStore<String, Loader> = AssetStore::new();
    store.add_asset_metadata(metadata("player", "texture"));
    assert_eq!(store.load(TEXTURE, "player"), Err(CoreError::AssetLoaderNotFound));
    // The storage for the kind was opened, but holds nothing.
    assert_eq!(store.stored_asset(TEXTURE, "player"), Err(CoreError::AssetNotFound));
}

#[test]
fn stored_asset_errors() {
    let store: AssetStore<String, Loader> = AssetStore::new();
    assert_eq!(store.stored_asset(TEXTURE, "player"), Err(CoreError::AssetStorageNotFound));
}

#[test]
fn inserted_asset_is_stored() {
    let mut store: AssetStore<String, Loader> = AssetStore::new();
    assert_eq!(store.insert_asset(SOUND, metadata("click", "sound"), "raw".to_string()), Ok(()));
    assert!(store.has_asset(SOUND, "click"));
    assert_eq!(store.stored_asset(SOUND, "click"), Ok(&"raw".to_string()));
    assert_eq!(store.stored_asset(SOUND, "other"), Err(CoreError::AssetNotFound));
    assert_eq!(store.stored_asset(TEXTURE, "click"), Err(CoreError::AssetStorageNotFound));
}

#[test]
fn metadata_values_by_key() {
    let mut meta = metadata("font", "font");
    meta.metadata.push(("font_data".to_string(), "font.json".to_string()));
    meta.metadata.push(("font_data".to_string(), "other.json".to_string()));
    assert_eq!(meta.metadata_value("width"), Some(&"16".to_string()));
    assert_eq!(meta.metadata_value("font_data"), Some(&"other.json".to_string()));
    assert_eq!(meta.metadata_value("height"), None);
}
