use mine_clone::block::{Block, Cardinal};
use mine_clone::chunk::{Chunk, ChunkCoordinate};
use mine_clone::terrain::{
    clamp_height, column_block_at, generate_terrain, MAX_SURFACE_HEIGHT, MIN_SURFACE_HEIGHT,
    SOIL_DEPTH,
};

fn flat(h: i64) -> [[i64; 16]; 16] {
    [[h; 16]; 16]
}

fn column(chunk: &Chunk, x: usize, z: usize) -> Vec<Block> {
    (0..256).map(|y| chunk.block(y, x, z)).collect()
}

#[test]
fn heights_are_clamped_between_twenty_and_the_top() {
    assert_eq!(MIN_SURFACE_HEIGHT, 20);
    assert_eq!(MAX_SURFACE_HEIGHT, 255);
    assert_eq!(clamp_height(-1), 20);
    assert_eq!(clamp_height(i64::MIN), 20);
    assert_eq!(clamp_height(0), 20);
    assert_eq!(clamp_height(5), 20);
    assert_eq!(clamp_height(19), 20);
    assert_eq!(clamp_height(20), 20);
    assert_eq!(clamp_height(21), 21);
    assert_eq!(clamp_height(254), 254);
    assert_eq!(clamp_height(255), 255);
    assert_eq!(clamp_height(256), 255);
    assert_eq!(clamp_height(i64::MAX), 255);
}

#[test]
fn soil_is_four_blocks_deep() {
    assert_eq!(SOIL_DEPTH, 4);
}

#[test]
fn column_bands_under_a_high_surface() {
    let h = 100;
    assert_eq!(column_block_at(h, 0), Block::Bedrock);
    assert_eq!(column_block_at(h, 1), Block::Stone);
    assert_eq!(column_block_at(h, 95), Block::Stone);
    assert_eq!(column_block_at(h, 96), Block::Dirt);
    assert_eq!(column_block_at(h, 99), Block::Dirt);
    assert_eq!(column_block_at(h, 100), Block::Grass);
    assert_eq!(column_block_at(h, 101), Block::Air);
    assert_eq!(column_block_at(h, 255), Block::Air);
}

#[test]
fn column_bands_under_a_low_surface() {
    assert_eq!(column_block_at(3, 0), Block::Bedrock);
    assert_eq!(column_block_at(3, 1), Block::Stone);
    assert_eq!(column_block_at(3, 2), Block::Stone);
    assert_eq!(column_block_at(3, 3), Block::Grass);
    assert_eq!(column_block_at(3, 4), Block::Air);
    assert_eq!(column_block_at(4, 0), Block::Bedrock);
    assert_eq!(column_block_at(4, 1), Block::Dirt);
    assert_eq!(column_block_at(4, 3), Block::Dirt);
    assert_eq!(column_block_at(4, 4), Block::Grass);
    assert_eq!(column_block_at(5, 1), Block::Dirt);
    assert_eq!(column_block_at(6, 1), Block::Stone);
    assert_eq!(column_block_at(6, 2), Block::Dirt);
}

#[test]
fn surface_at_the_bottom_is_bedrock() {
    assert_eq!(column_block_at(0, 0), Block::Bedrock);
    assert_eq!(column_block_at(0, 1), Block::Air);
}

#[test]
fn surface_at_the_top_is_grass() {
    assert_eq!(column_block_at(255, 255), Block::Grass);
    assert_eq!(column_block_at(255, 254), Block::Dirt);
    assert_eq!(column_block_at(255, 250), Block::Stone);
}

fn expected_column(h: usize) -> Vec<Block> {
    (0..256usize)
        .map(|y| {
            if y == 0 {
                Block::Bedrock
            } else if y > h {
                Block::Air
            } else if y == h {
                Block::Grass
            } else if h < 4 || y + 4 < h {
                Block::Stone
            } else {
                Block::Dirt
            }
        })
        .collect()
}

#[test]
fn generated_columns_follow_their_heights() {
    let mut heights = [[0i64; 16]; 16];
    for x in 0..16 {
        for z in 0..16 {
            heights[x][z] = (x * 16 + z) as i64;
        }
    }
    let chunk = generate_terrain(ChunkCoordinate { x: 3, z: -4 }, &heights);
    assert_eq!(chunk.position(), ChunkCoordinate { x: 3, z: -4 });
    assert_eq!(chunk.buffer(), None);
    assert_eq!(chunk.buffers_created(), 0);
    for x in 0..16 {
        for z in 0..16 {
            let h = (x * 16 + z).max(20);
            assert_eq!(column(&chunk, x, z), expected_column(h), "column {} {}", x, z);
        }
    }
}

#[test]
fn heights_out_of_range_are_clamped_before_use() {
    let mut heights = flat(40);
    heights[0][0] = -7;
    heights[0][1] = 0;
    heights[0][2] = 19;
    heights[15][15] = 1000;
    let chunk = generate_terrain(ChunkCoordinate { x: 0, z: 0 }, &heights);
    assert_eq!(column(&chunk, 0, 0), expected_column(20));
    assert_eq!(column(&chunk, 0, 1), expected_column(20));
    assert_eq!(column(&chunk, 0, 2), expected_column(20));
    assert_eq!(column(&chunk, 15, 15), expected_column(255));
    assert_eq!(column(&chunk, 7, 7), expected_column(40));
}

#[test]
fn surface_of_every_column_lies_between_twenty_and_the_top() {
    let mut heights = flat(0);
    for x in 0..16 {
        for z in 0..16 {
            heights[x][z] = (x as i64 * 16 + z as i64) * 3 - 200;
        }
    }
    let chunk = generate_terrain(ChunkCoordinate { x: 0, z: 0 }, &heights);
    for x in 0..16 {
        for z in 0..16 {
            let blocks = column(&chunk, x, z);
            let surface = (0..256).rev().find(|y| blocks[*y] != Block::Air).unwrap();
            assert!(20 <= surface && surface <= 255);
            assert_eq!(surface as i64, heights[x][z].clamp(20, 255));
            assert_eq!(blocks[surface], Block::Grass);
            assert!(blocks[..surface].iter().all(|b| *b != Block::Air));
        }
    }
}

#[test]
fn generation_is_repeatable() {
    let mut heights = flat(0);
    for x in 0..16 {
        for z in 0..16 {
            heights[x][z] = 20 + ((x * 7 + z * 13) % 200) as i64;
        }
    }
    let a = generate_terrain(ChunkCoordinate { x: 1, z: 2 }, &heights);
    let b = generate_terrain(ChunkCoordinate { x: 1, z: 2 }, &heights);
    for x in 0..16 {
        for z in 0..16 {
            assert_eq!(column(&a, x, z), column(&b, x, z));
        }
    }
}

#[test]
fn new_chunk_is_air_without_a_mesh() {
    let chunk = Chunk::new(ChunkCoordinate { x: -2, z: 9 });
    assert_eq!(chunk.position(), ChunkCoordinate { x: -2, z: 9 });
    assert_eq!(chunk.buffer(), None);
    assert_eq!(chunk.buffers_created(), 0);
    for y in [0usize, 1, 100, 255] {
        for x in 0..16 {
            for z in 0..16 {
                assert_eq!(chunk.block(y, x, z), Block::Air);
            }
        }
    }
}

#[test]
fn default_chunk_is_air_at_the_origin() {
    let chunk = Chunk::default();
    assert_eq!(chunk.position(), ChunkCoordinate { x: 0, z: 0 });
    assert_eq!(chunk.buffer(), None);
    assert_eq!(chunk.block(0, 0, 0), Block::Air);
    assert_eq!(chunk.block(255, 15, 15), Block::Air);
}

#[test]
fn side_blocks_are_the_outermost_layers() {
    let mut heights = [[0i64; 16]; 16];
    for x in 0..16 {
        for z in 0..16 {
            heights[x][z] = (10 + x * 16 + z) as i64 % 256;
        }
    }
    let chunk = generate_terrain(ChunkCoordinate { x: 0, z: 0 }, &heights);
    let north = chunk.get_side_blocks(Cardinal::North);
    let south = chunk.get_side_blocks(Cardinal::South);
    let east = chunk.get_side_blocks(Cardinal::East);
    let west = chunk.get_side_blocks(Cardinal::West);
    for y in 0..256 {
        for i in 0..16 {
            assert_eq!(north[y][i], chunk.block(y, 15, i));
            assert_eq!(south[y][i], chunk.block(y, 0, i));
            assert_eq!(east[y][i], chunk.block(y, i, 15));
            assert_eq!(west[y][i], chunk.block(y, i, 0));
        }
    }
    assert_eq!(north[250][0], Block::Grass);
    assert_eq!(north[20][15], Block::Grass);
    assert_eq!(south[20][0], Block::Grass);
}

#[test]
fn up_and_down_name_no_layer() {
    let chunk = generate_terrain(ChunkCoordinate { x: 0, z: 0 }, &flat(200));
    let up = chunk.get_side_blocks(Cardinal::Up);
    let down = chunk.get_side_blocks(Cardinal::Down);
    for y in 0..256 {
        for i in 0..16 {
            assert_eq!(up[y][i], Block::Air);
            assert_eq!(down[y][i], Block::Air);
        }
    }
}
