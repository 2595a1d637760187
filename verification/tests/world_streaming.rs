use mine_clone::block::{Block, Cardinal};
use mine_clone::chunk::{ChunkCoordinate, MeshHandle};
use mine_clone::terrain::generate_terrain;
use mine_clone::texture::{ConfigurationError, TextureManager};
use mine_clone::world::World;

fn c(x: i32, z: i32) -> ChunkCoordinate {
    ChunkCoordinate { x, z }
}

fn h(x: i32, z: i32) -> MeshHandle {
    MeshHandle { chunk: c(x, z) }
}

fn atlas(names: &[&str]) -> TextureManager {
    TextureManager::new(names.iter().map(|n| n.to_string()).collect())
}

fn full_atlas() -> TextureManager {
    atlas(&["bedrock", "cobblestone", "dirt", "grass_side", "grass_top", "stone"])
}

/// Heights that differ from chunk to chunk and from column to column.
fn heights_at(at: ChunkCoordinate) -> [[i64; 16]; 16] {
    let mut heights = [[0i64; 16]; 16];
    for x in 0..16i64 {
        for z in 0..16i64 {
            let wx = at.x as i64 * 16 + x;
            let wz = at.z as i64 * 16 + z;
            heights[x as usize][z as usize] = 20 + (wx * 3 + wz * 5).rem_euclid(40);
        }
    }
    heights
}

fn generate_missing(world: &mut World, cam_pos: (i64, i64)) -> Vec<ChunkCoordinate> {
    let missing = world.missing_chunks(cam_pos);
    for at in &missing {
        assert_eq!(world.generate_chunk(*at, &heights_at(*at)), None);
    }
    missing
}

fn blocks_of(world: &World, at: ChunkCoordinate) -> Vec<Block> {
    let chunk = world.get_chunk(at).unwrap();
    let mut blocks = vec![];
    for y in 0..256 {
        for x in 0..16 {
            for z in 0..16 {
                blocks.push(chunk.block(y, x, z));
            }
        }
    }
    blocks
}

#[test]
fn new_world_is_empty() {
    let world = World::new("seed".to_string(), 20);
    assert_eq!(world.render_distance(), 20);
    assert!(!world.is_chunk_available(&c(0, 0)));
    assert!(world.get_chunk(c(0, 0)).is_none());
}

#[test]
fn seed_string_is_hashed_into_the_seed() {
    assert_eq!(World::new("seed".to_string(), 1).noise_seed(), 8);
    assert_eq!(World::new("".to_string(), 1).noise_seed(), 183);
    assert_eq!(World::new("world".to_string(), 1).noise_seed(), 197);
    assert_eq!(World::new("Seed".to_string(), 1).noise_seed(), 78);
}

#[test]
fn same_seed_string_gives_the_same_seed() {
    let a = World::new("stripy zebra".to_string(), 1);
    let b = World::new("stripy zebra".to_string(), 7);
    assert_eq!(a.noise_seed(), b.noise_seed());
}

#[test]
fn generated_chunk_is_resident_and_unmeshed() {
    let mut world = World::new("seed".to_string(), 1);
    assert_eq!(world.generate_chunk(c(3, -2), &heights_at(c(3, -2))), None);
    assert!(world.is_chunk_available(&c(3, -2)));
    assert!(!world.is_chunk_available(&c(-2, 3)));
    let chunk = world.get_chunk(c(3, -2)).unwrap();
    assert_eq!(chunk.position(), c(3, -2));
    assert_eq!(chunk.buffer(), None);
    assert_eq!(chunk.buffers_created(), 0);
    let expected = generate_terrain(c(3, -2), &heights_at(c(3, -2)));
    for y in 0..256 {
        for x in 0..16 {
            for z in 0..16 {
                assert_eq!(chunk.block(y, x, z), expected.block(y, x, z));
            }
        }
    }
}

#[test]
fn chunks_at_the_corners_of_the_grid_are_told_apart() {
    let mut world = World::new("seed".to_string(), 1);
    let corners = [
        c(i32::MIN, i32::MIN),
        c(i32::MIN, i32::MAX),
        c(i32::MAX, i32::MIN),
        c(i32::MAX, i32::MAX),
        c(0, -1),
        c(-1, 0),
    ];
    for (i, at) in corners.iter().enumerate() {
        world.generate_chunk(*at, &[[i as i64 + 100; 16]; 16]);
    }
    for (i, at) in corners.iter().enumerate() {
        let chunk = world.get_chunk(*at).unwrap();
        assert_eq!(chunk.position(), *at);
        assert_eq!(chunk.block(i + 100, 0, 0), Block::Grass);
    }
    assert!(!world.is_chunk_available(&c(0, 0)));
}

#[test]
fn missing_chunks_are_the_unloaded_part_of_the_disc() {
    let mut world = World::new("seed".to_string(), 1);
    assert_eq!(world.missing_chunks((0, 0)), vec![c(-1, 0), c(0, -1), c(0, 0), c(0, 1), c(1, 0)]);
    world.generate_chunk(c(0, 0), &heights_at(c(0, 0)));
    world.generate_chunk(c(1, 0), &heights_at(c(1, 0)));
    world.generate_chunk(c(9, 9), &heights_at(c(9, 9)));
    assert_eq!(world.missing_chunks((0, 0)), vec![c(-1, 0), c(0, -1), c(0, 1)]);
    generate_missing(&mut world, (0, 0));
    assert_eq!(world.missing_chunks((0, 0)), vec![]);
}

#[test]
fn side_blocks_come_from_resident_neighbours_and_stone_else() {
    let mut world = World::new("seed".to_string(), 1);
    world.generate_chunk(c(0, 0), &[[10; 16]; 16]);
    world.generate_chunk(c(1, 0), &[[30; 16]; 16]);
    world.generate_chunk(c(0, -1), &[[40; 16]; 16]);
    let sides = world.side_blocks(c(0, 0));
    let north = world.get_chunk(c(1, 0)).unwrap().get_side_blocks(Cardinal::South);
    let east = world.get_chunk(c(0, -1)).unwrap().get_side_blocks(Cardinal::East);
    assert_eq!(sides[0], *north);
    assert_eq!(sides[1], [[Block::Stone; 16]; 256]);
    assert_eq!(sides[2], *east);
    assert_eq!(sides[3], [[Block::Stone; 16]; 256]);
    assert_eq!(sides[0][30][0], Block::Grass);
    assert_eq!(sides[0][31][0], Block::Air);
    assert_eq!(sides[2][40][0], Block::Grass);
    // seen from the other side
    let back = world.side_blocks(c(1, 0));
    assert_eq!(back[1], *world.get_chunk(c(0, 0)).unwrap().get_side_blocks(Cardinal::North));
    let west_of = world.side_blocks(c(0, -1));
    assert_eq!(west_of[3], *world.get_chunk(c(0, 0)).unwrap().get_side_blocks(Cardinal::West));
}

#[test]
fn side_blocks_at_the_edge_of_the_grid_are_stone() {
    let mut world = World::new("seed".to_string(), 1);
    world.generate_chunk(c(i32::MAX, i32::MIN), &[[10; 16]; 16]);
    let sides = world.side_blocks(c(i32::MAX, i32::MIN));
    for side in 0..4 {
        assert_eq!(sides[side], [[Block::Stone; 16]; 256]);
    }
}

#[test]
fn first_cycle_meshes_the_whole_disc() {
    let mut world = World::new("seed".to_string(), 1);
    let disc = generate_missing(&mut world, (0, 0));
    assert_eq!(disc, vec![c(-1, 0), c(0, -1), c(0, 0), c(0, 1), c(1, 0)]);
    let cycle = world.try_generate_mesh(&full_atlas(), (0, 0)).unwrap();
    assert_eq!(cycle.buffers.len(), 5);
    assert_eq!(cycle.uploads.len(), 5);
    assert_eq!(cycle.released, vec![]);
    for (k, at) in disc.iter().enumerate() {
        let (handle, count) = cycle.buffers[k];
        assert_eq!(handle, MeshHandle { chunk: *at });
        assert!(count > 0);
        assert_eq!(count % 6, 0);
        assert_eq!(cycle.uploads[k].handle, handle);
        assert_eq!(cycle.uploads[k].vertices.len(), count);
        let chunk = world.get_chunk(*at).unwrap();
        assert_eq!(chunk.buffer(), Some((handle, count)));
        assert_eq!(chunk.buffers_created(), 1);
    }
}

#[test]
fn cycle_meshes_against_the_neighbours_resident_at_its_start() {
    let mut world = World::new("seed".to_string(), 1);
    generate_missing(&mut world, (0, 0));
    let mut twin = World::new("seed".to_string(), 1);
    generate_missing(&mut twin, (0, 0));
    let cycle = world.try_generate_mesh(&full_atlas(), (0, 0)).unwrap();
    for upload in &cycle.uploads {
        let at = upload.handle.chunk;
        let sides = twin.side_blocks(at);
        let expected = twin.get_chunk(at).unwrap().try_mesh(&full_atlas(), &sides).unwrap();
        assert_eq!(upload.vertices, expected);
    }
}

#[test]
fn second_cycle_reuses_the_meshes() {
    let mut world = World::new("seed".to_string(), 1);
    generate_missing(&mut world, (0, 0));
    let first = world.try_generate_mesh(&full_atlas(), (0, 0)).unwrap();
    let second = world.try_generate_mesh(&full_atlas(), (7, 9)).unwrap();
    assert_eq!(second.buffers, first.buffers);
    assert_eq!(second.uploads, vec![]);
    assert_eq!(second.released, vec![]);
    // nothing is asked of the atlas when nothing is meshed
    let third = world.try_generate_mesh(&atlas(&[]), (0, 0)).unwrap();
    assert_eq!(third.buffers, first.buffers);
}

#[test]
fn unloaded_chunks_of_the_disc_are_passed_over() {
    let mut world = World::new("seed".to_string(), 1);
    world.generate_chunk(c(0, 0), &heights_at(c(0, 0)));
    world.generate_chunk(c(0, 1), &heights_at(c(0, 1)));
    let cycle = world.try_generate_mesh(&full_atlas(), (0, 0)).unwrap();
    assert_eq!(cycle.buffers.len(), 2);
    assert_eq!(cycle.buffers[0].0, h(0, 0));
    assert_eq!(cycle.buffers[1].0, h(0, 1));
    assert_eq!(cycle.uploads.len(), 2);
    assert!(!world.is_chunk_available(&c(1, 0)));
}

#[test]
fn empty_world_cycles_to_nothing() {
    let mut world = World::new("seed".to_string(), 3);
    let cycle = world.try_generate_mesh(&full_atlas(), (100, -100)).unwrap();
    assert_eq!(cycle.buffers, vec![]);
    assert_eq!(cycle.uploads, vec![]);
    assert_eq!(cycle.released, vec![]);
}

#[test]
fn moving_the_focus_far_away_evicts_and_reloads() {
    let mut world = World::new("seed".to_string(), 1);
    generate_missing(&mut world, (0, 0));
    world.try_generate_mesh(&full_atlas(), (0, 0)).unwrap();
    assert!(world.is_chunk_available(&c(0, 0)));

    // chunk (5, 5): more than 1 + 5 chunks from every chunk around (0, 0)
    let there = (5 * 16, 5 * 16);
    let missing = generate_missing(&mut world, there);
    assert_eq!(missing, vec![c(4, 5), c(5, 4), c(5, 5), c(5, 6), c(6, 5)]);
    let cycle = world.try_generate_mesh(&full_atlas(), there).unwrap();
    assert!(!world.is_chunk_available(&c(0, 0)));
    assert!(!world.is_chunk_available(&c(1, 0)));
    assert!(!world.is_chunk_available(&c(0, 1)));
    assert!(!world.is_chunk_available(&c(-1, 0)));
    assert!(!world.is_chunk_available(&c(0, -1)));
    let chunk = world.get_chunk(c(5, 5)).unwrap();
    assert!(chunk.buffer().is_some());
    assert_eq!(cycle.buffers.len(), 5);
    assert_eq!(cycle.uploads.len(), 5);
    let mut released = cycle.released.clone();
    released.sort_by_key(|r| (r.chunk.x, r.chunk.z));
    assert_eq!(released, vec![h(-1, 0), h(0, -1), h(0, 0), h(0, 1), h(1, 0)]);
}

#[test]
fn chunks_within_the_margin_stay() {
    let mut world = World::new("seed".to_string(), 1);
    generate_missing(&mut world, (0, 0));
    world.try_generate_mesh(&full_atlas(), (0, 0)).unwrap();
    // focus at chunk (0, 5): chunk (0, -1) is exactly 1 + 5 chunks away and
    // stays; so do (1, 0) and (-1, 0), with 1 + 25 <= 36
    let there = (5 * 16, 0);
    generate_missing(&mut world, there);
    let cycle = world.try_generate_mesh(&full_atlas(), there).unwrap();
    assert_eq!(cycle.released, vec![]);
    assert!(world.is_chunk_available(&c(0, -1)));
    assert!(world.is_chunk_available(&c(1, 0)));
    assert!(world.is_chunk_available(&c(0, 0)));
    // one chunk further, (0, -1) is 7 away, (1, 0) and (-1, 0) have
    // 1 + 36 > 36, and (0, 0) is exactly 6 away
    let further = (6 * 16, 0);
    generate_missing(&mut world, further);
    let cycle = world.try_generate_mesh(&full_atlas(), further).unwrap();
    let mut released = cycle.released.clone();
    released.sort_by_key(|r| (r.chunk.x, r.chunk.z));
    assert_eq!(released, vec![h(-1, 0), h(0, -1), h(1, 0)]);
    assert!(!world.is_chunk_available(&c(0, -1)));
    assert!(!world.is_chunk_available(&c(1, 0)));
    assert!(world.is_chunk_available(&c(0, 0)));
    assert!(world.is_chunk_available(&c(0, 1)));
}

#[test]
fn evicted_chunk_is_regenerated_as_it_was() {
    let mut world = World::new("seed".to_string(), 1);
    generate_missing(&mut world, (0, 0));
    let first = world.try_generate_mesh(&full_atlas(), (0, 0)).unwrap();
    let first_grid = blocks_of(&world, c(0, 0));

    let away = (100 * 16, 100 * 16);
    generate_missing(&mut world, away);
    world.try_generate_mesh(&full_atlas(), away).unwrap();
    assert!(!world.is_chunk_available(&c(0, 0)));

    let missing = generate_missing(&mut world, (0, 0));
    assert!(missing.contains(&c(0, 0)));
    let again = world.try_generate_mesh(&full_atlas(), (0, 0)).unwrap();
    assert_eq!(blocks_of(&world, c(0, 0)), first_grid);
    assert_eq!(again.buffers, first.buffers);
    assert_eq!(again.uploads, first.uploads);
}

#[test]
fn evict_distant_drops_only_far_chunks() {
    let mut world = World::new("seed".to_string(), 2);
    for at in [c(0, 0), c(7, 0), c(8, 0), c(5, 5), c(-7, -1), c(0, -7)] {
        world.generate_chunk(at, &heights_at(at));
    }
    // nothing is meshed, so nothing is released
    assert_eq!(world.evict_distant((0, 0)), vec![]);
    assert!(world.is_chunk_available(&c(0, 0)));
    assert!(world.is_chunk_available(&c(7, 0)));
    assert!(world.is_chunk_available(&c(0, -7)));
    assert!(!world.is_chunk_available(&c(8, 0)));
    assert!(!world.is_chunk_available(&c(5, 5)));
    assert!(!world.is_chunk_available(&c(-7, -1)));
}

#[test]
fn missing_texture_leaves_the_world_as_it_was() {
    let mut world = World::new("seed".to_string(), 1);
    generate_missing(&mut world, (0, 0));
    world.generate_chunk(c(50, 50), &heights_at(c(50, 50)));
    let no_stone = atlas(&["bedrock", "dirt", "grass_side", "grass_top"]);
    assert_eq!(
        world.try_generate_mesh(&no_stone, (0, 0)),
        Err(ConfigurationError { name: "stone".to_string() })
    );
    for at in [c(-1, 0), c(0, -1), c(0, 0), c(0, 1), c(1, 0)] {
        assert_eq!(world.get_chunk(at).unwrap().buffer(), None);
    }
    // not even the far chunk has left
    assert!(world.is_chunk_available(&c(50, 50)));
    let cycle = world.try_generate_mesh(&full_atlas(), (0, 0)).unwrap();
    assert_eq!(cycle.uploads.len(), 5);
    assert!(!world.is_chunk_available(&c(50, 50)));
}

#[test]
fn replacing_a_meshed_chunk_releases_its_mesh() {
    let mut world = World::new("seed".to_string(), 0);
    world.generate_chunk(c(0, 0), &[[10; 16]; 16]);
    let cycle = world.try_generate_mesh(&full_atlas(), (0, 0)).unwrap();
    assert_eq!(cycle.buffers, vec![(h(0, 0), 6 * 512)]);
    assert_eq!(world.generate_chunk(c(0, 0), &[[31; 16]; 16]), Some(h(0, 0)));
    let chunk = world.get_chunk(c(0, 0)).unwrap();
    assert_eq!(chunk.buffer(), None);
    assert_eq!(chunk.block(31, 0, 0), Block::Grass);
    assert_eq!(chunk.buffers_created(), 0);
    assert_eq!(world.generate_chunk(c(0, 0), &[[12; 16]; 16]), None);
}

#[test]
fn lone_chunk_is_meshed_against_stone() {
    let mut world = World::new("seed".to_string(), 0);
    world.generate_chunk(c(0, 0), &[[10; 16]; 16]);
    let cycle = world.try_generate_mesh(&full_atlas(), (0, 0)).unwrap();
    // top and bottom only: the unloaded neighbours count as solid
    assert_eq!(cycle.uploads[0].vertices.len(), 6 * 512);
}

#[test]
fn focus_is_read_along_the_vertex_axes() {
    let mut world = World::new("seed".to_string(), 0);
    // first axis 40 (chunk z = 2), third axis -20 (chunk x = -2)
    assert_eq!(world.missing_chunks((40, -20)), vec![c(-2, 2)]);
    world.generate_chunk(c(-2, 2), &[[10; 16]; 16]);
    let cycle = world.try_generate_mesh(&full_atlas(), (40, -20)).unwrap();
    let first = cycle.uploads[0].vertices[0].position;
    assert!(32 <= first[0] && first[0] <= 48);
    assert!(-32 <= first[2] && first[2] <= -16);
}

#[test]
fn cycle_on_a_complete_atlas_needs_no_result() {
    let mut world = World::new("seed".to_string(), 1);
    generate_missing(&mut world, (0, 0));
    let mut twin = World::new("seed".to_string(), 1);
    generate_missing(&mut twin, (0, 0));
    assert_eq!(world.missing_texture(&full_atlas(), (0, 0)), None);
    let cycle = world.generate_mesh(&full_atlas(), (0, 0));
    assert_eq!(Ok(cycle.clone()), twin.try_generate_mesh(&full_atlas(), (0, 0)));
    assert_eq!(cycle.buffers.len(), 5);
    // with everything meshed, no texture is needed
    assert_eq!(world.missing_texture(&atlas(&[]), (0, 0)), None);
    let again = world.generate_mesh(&atlas(&[]), (0, 0));
    assert_eq!(again.buffers, cycle.buffers);
    assert_eq!(again.uploads, vec![]);
}

#[test]
fn missing_texture_of_a_cycle_is_found_beforehand() {
    let mut world = World::new("seed".to_string(), 1);
    assert_eq!(world.missing_texture(&atlas(&[]), (0, 0)), None);
    generate_missing(&mut world, (0, 0));
    assert_eq!(
        world.missing_texture(&atlas(&[]), (0, 0)),
        Some(ConfigurationError { name: "bedrock".to_string() })
    );
    assert_eq!(
        world.missing_texture(&atlas(&["bedrock", "stone", "grass_side", "grass_top"]), (0, 0)),
        Some(ConfigurationError { name: "dirt".to_string() })
    );
    // chunks outside the disc are not looked at
    assert_eq!(world.missing_texture(&atlas(&[]), (1000, 1000)), None);
    for at in [c(-1, 0), c(0, -1), c(0, 0), c(0, 1), c(1, 0)] {
        assert_eq!(world.get_chunk(at).unwrap().buffer(), None);
    }
}

#[test]
fn meshes_built_are_counted_per_chunk() {
    let mut world = World::new("seed".to_string(), 1);
    generate_missing(&mut world, (0, 0));
    for at in [c(-1, 0), c(0, -1), c(0, 0), c(0, 1), c(1, 0)] {
        assert_eq!(world.get_chunk(at).unwrap().buffers_created(), 0);
    }
    world.generate_mesh(&full_atlas(), (0, 0));
    for at in [c(-1, 0), c(0, -1), c(0, 0), c(0, 1), c(1, 0)] {
        assert_eq!(world.get_chunk(at).unwrap().buffers_created(), 1);
    }
    // a cycle that reuses the meshes builds none
    world.generate_mesh(&full_atlas(), (16, 0));
    assert_eq!(world.get_chunk(c(0, 0)).unwrap().buffers_created(), 1);
    assert_eq!(world.get_chunk(c(-1, 0)).unwrap().buffers_created(), 1);
    // a chunk that comes back after eviction starts from zero
    generate_missing(&mut world, (1000, 1000));
    world.generate_mesh(&full_atlas(), (1000, 1000));
    generate_missing(&mut world, (0, 0));
    assert_eq!(world.get_chunk(c(0, 0)).unwrap().buffers_created(), 0);
    world.generate_mesh(&full_atlas(), (0, 0));
    assert_eq!(world.get_chunk(c(0, 0)).unwrap().buffers_created(), 1);
}
