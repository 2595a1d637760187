use mine_clone::block::{get_block_texture_ids, try_get_block_texture_ids, Block, Cardinal};
use mine_clone::texture::{classify_texture_file, ConfigurationError, TextureFile, TextureManager};

fn atlas(names: &[&str]) -> TextureManager {
    TextureManager::new(names.iter().map(|n| n.to_string()).collect())
}

fn full_atlas() -> TextureManager {
    atlas(&["bedrock", "cobblestone", "dirt", "grass_side", "grass_top", "stone"])
}

#[test]
fn atlas_numbers_layers_in_order() {
    let manager = full_atlas();
    assert_eq!(manager.len(), 6);
    assert_eq!(manager.try_get_id("bedrock".to_string()), Ok(0));
    assert_eq!(manager.try_get_id("dirt".to_string()), Ok(2));
    assert_eq!(manager.try_get_id("stone".to_string()), Ok(5));
}

#[test]
fn atlas_reports_the_unknown_name() {
    let manager = full_atlas();
    assert_eq!(
        manager.try_get_id("water".to_string()),
        Err(ConfigurationError { name: "water".to_string() })
    );
}

#[test]
fn empty_atlas_knows_no_name() {
    let manager = atlas(&[]);
    assert_eq!(manager.len(), 0);
    assert_eq!(
        manager.try_get_id("dirt".to_string()),
        Err(ConfigurationError { name: "dirt".to_string() })
    );
}

#[test]
fn later_layer_of_the_same_name_wins() {
    let manager = atlas(&["dirt", "stone", "dirt"]);
    assert_eq!(manager.try_get_id("dirt".to_string()), Ok(2));
    assert_eq!(manager.try_get_id("stone".to_string()), Ok(1));
}

#[test]
fn names_are_compared_whole() {
    let manager = atlas(&["grass_top", "grass"]);
    assert_eq!(manager.try_get_id("grass".to_string()), Ok(1));
    assert_eq!(
        manager.try_get_id("grass_".to_string()),
        Err(ConfigurationError { name: "grass_".to_string() })
    );
}

#[test]
fn grass_has_top_bottom_and_side_textures() {
    let manager = full_atlas();
    let ids = try_get_block_texture_ids(Block::Grass, &manager).unwrap();
    assert_eq!(ids[Cardinal::Up.index()], 4);
    assert_eq!(ids[Cardinal::Down.index()], 2);
    assert_eq!(ids[Cardinal::North.index()], 3);
    assert_eq!(ids[Cardinal::South.index()], 3);
    assert_eq!(ids[Cardinal::East.index()], 3);
    assert_eq!(ids[Cardinal::West.index()], 3);
    assert_eq!(ids, [4, 2, 3, 3, 3, 3]);
}

#[test]
fn other_solid_blocks_show_one_texture_on_all_faces() {
    let manager = full_atlas();
    assert_eq!(try_get_block_texture_ids(Block::Dirt, &manager), Ok([2; 6]));
    assert_eq!(try_get_block_texture_ids(Block::Stone, &manager), Ok([5; 6]));
    assert_eq!(try_get_block_texture_ids(Block::Cobblestone, &manager), Ok([1; 6]));
    assert_eq!(try_get_block_texture_ids(Block::Bedrock, &manager), Ok([0; 6]));
}

#[test]
fn air_needs_no_texture() {
    assert_eq!(try_get_block_texture_ids(Block::Air, &atlas(&[])), Ok([0; 6]));
    assert_eq!(try_get_block_texture_ids(Block::Air, &full_atlas()), Ok([0; 6]));
}

#[test]
fn missing_texture_is_reported_by_name() {
    let manager = atlas(&["dirt", "grass_side", "grass_top"]);
    assert_eq!(
        try_get_block_texture_ids(Block::Stone, &manager),
        Err(ConfigurationError { name: "stone".to_string() })
    );
    assert_eq!(
        try_get_block_texture_ids(Block::Cobblestone, &manager),
        Err(ConfigurationError { name: "cobblestone".to_string() })
    );
    assert_eq!(
        try_get_block_texture_ids(Block::Bedrock, &manager),
        Err(ConfigurationError { name: "bedrock".to_string() })
    );
    assert_eq!(
        try_get_block_texture_ids(Block::Dirt, &atlas(&["stone"])),
        Err(ConfigurationError { name: "dirt".to_string() })
    );
}

#[test]
fn grass_reports_the_first_texture_it_misses() {
    assert_eq!(
        try_get_block_texture_ids(Block::Grass, &atlas(&[])),
        Err(ConfigurationError { name: "grass_top".to_string() })
    );
    assert_eq!(
        try_get_block_texture_ids(Block::Grass, &atlas(&["grass_top", "grass_side"])),
        Err(ConfigurationError { name: "dirt".to_string() })
    );
    assert_eq!(
        try_get_block_texture_ids(Block::Grass, &atlas(&["grass_top", "dirt"])),
        Err(ConfigurationError { name: "grass_side".to_string() })
    );
}

#[test]
fn default_block_is_air() {
    assert_eq!(Block::default(), Block::Air);
}

#[test]
fn directions_are_numbered_and_paired() {
    assert_eq!(Cardinal::Up.index(), 0);
    assert_eq!(Cardinal::Down.index(), 1);
    assert_eq!(Cardinal::North.index(), 2);
    assert_eq!(Cardinal::South.index(), 3);
    assert_eq!(Cardinal::East.index(), 4);
    assert_eq!(Cardinal::West.index(), 5);
    assert_eq!(Cardinal::Up.opposite(), Cardinal::Down);
    assert_eq!(Cardinal::Down.opposite(), Cardinal::Up);
    assert_eq!(Cardinal::North.opposite(), Cardinal::South);
    assert_eq!(Cardinal::South.opposite(), Cardinal::North);
    assert_eq!(Cardinal::East.opposite(), Cardinal::West);
    assert_eq!(Cardinal::West.opposite(), Cardinal::East);
}

#[test]
fn png_files_are_layers_named_after_the_file() {
    assert_eq!(classify_texture_file("dirt.png"), TextureFile::Layer("dirt".to_string()));
    assert_eq!(classify_texture_file("grass_top.png"), TextureFile::Layer("grass_top".to_string()));
    assert_eq!(classify_texture_file(".png"), TextureFile::Layer("".to_string()));
    assert_eq!(classify_texture_file("gr\u{e4}s.png"), TextureFile::Layer("gr\u{e4}s".to_string()));
}

#[test]
fn other_extensions_are_no_layers() {
    assert_eq!(classify_texture_file("dirt.jpg"), TextureFile::Other);
    assert_eq!(classify_texture_file("dirt.PNG"), TextureFile::Other);
    assert_eq!(classify_texture_file("dirt.pn"), TextureFile::Other);
    assert_eq!(classify_texture_file("dirt.pngs"), TextureFile::Other);
    assert_eq!(classify_texture_file("dirt."), TextureFile::Other);
    assert_eq!(classify_texture_file("."), TextureFile::Other);
}

#[test]
fn file_name_is_split_at_its_first_dot() {
    assert_eq!(classify_texture_file("dirt.old.png"), TextureFile::Other);
    assert_eq!(classify_texture_file("dirt.png.png"), TextureFile::Other);
    assert_eq!(classify_texture_file("..png"), TextureFile::Other);
}

#[test]
fn file_name_without_a_dot_has_no_extension() {
    assert_eq!(classify_texture_file("dirt"), TextureFile::NoExtension);
    assert_eq!(classify_texture_file("png"), TextureFile::NoExtension);
    assert_eq!(classify_texture_file(""), TextureFile::NoExtension);
}

#[test]
fn known_name_selects_its_layer() {
    let manager = atlas(&["dirt", "stone", "dirt"]);
    assert_eq!(manager.get_id("dirt".to_string()), 2);
    assert_eq!(manager.get_id("stone".to_string()), 1);
    assert_eq!(full_atlas().get_id("grass_top".to_string()), 4);
}

#[test]
fn known_blocks_have_their_six_layers() {
    let manager = full_atlas();
    assert_eq!(get_block_texture_ids(Block::Grass, &manager), [4, 2, 3, 3, 3, 3]);
    assert_eq!(get_block_texture_ids(Block::Dirt, &manager), [2; 6]);
    assert_eq!(get_block_texture_ids(Block::Stone, &manager), [5; 6]);
    assert_eq!(get_block_texture_ids(Block::Cobblestone, &manager), [1; 6]);
    assert_eq!(get_block_texture_ids(Block::Bedrock, &manager), [0; 6]);
    assert_eq!(get_block_texture_ids(Block::Air, &atlas(&[])), [0; 6]);
    // only the textures of the block itself are needed
    assert_eq!(get_block_texture_ids(Block::Stone, &atlas(&["x", "stone"])), [1; 6]);
}
