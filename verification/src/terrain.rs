//! Terrain columns: from a surface height to the blocks of a column, and from
//! a height map to a filled chunk.

use vstd::prelude::*;
use crate::block::Block;
use crate::chunk::{in_chunk, Chunk, ChunkCoordinate};

verus! {

/// Depth of the soil under the surface block.
pub const SOIL_DEPTH: usize = 4;

/// The lowest surface that terrain has.
pub const MIN_SURFACE_HEIGHT: usize = 20;

/// The highest surface that terrain has: the top of the grid.
pub const MAX_SURFACE_HEIGHT: usize = 255;

/// The surface height that a sampled height stands for: the sample itself
/// where it lies between the lowest and the highest surface, and the nearer
/// of the two where it lies outside.
pub open spec fn surface_height(raw: int) -> int {
    if raw < MIN_SURFACE_HEIGHT {
        MIN_SURFACE_HEIGHT as int
    } else if raw > MAX_SURFACE_HEIGHT {
        MAX_SURFACE_HEIGHT as int
    } else {
        raw
    }
}

/// The block at height `y` of a column whose surface lies at height `h`.
///
/// The bottom of every column is Bedrock. Above it, the surface block is
/// Grass, the four blocks under the surface are Dirt, what lies deeper is
/// Stone, and so is everything under a surface lower than four. Above the
/// surface there is Air.
pub open spec fn column_block(h: int, y: int) -> Block {
    if y == 0 {
        Block::Bedrock
    } else if y > h {
        Block::Air
    } else if y == h {
        Block::Grass
    } else if h < SOIL_DEPTH || y < h - SOIL_DEPTH {
        Block::Stone
    } else {
        Block::Dirt
    }
}

/// `chunk` holds, in every column, the blocks that the height sampled for
/// that column calls for.
pub open spec fn is_terrain(chunk: &Chunk, heights: &[[i64; 16]; 16]) -> bool {
    forall|y: int, x: int, z: int|
        in_chunk(y, x, z) ==> #[trigger] chunk.block_at(y, x, z) == column_block(
            surface_height(heights[x][z] as int),
            y,
        )
}

/// Brings a sampled height between the lowest and the highest surface.
pub fn clamp_height(raw: i64) -> (h: usize)
    ensures
        h == surface_height(raw as int),
        MIN_SURFACE_HEIGHT <= h <= MAX_SURFACE_HEIGHT,
{
    if raw < MIN_SURFACE_HEIGHT as i64 {
        MIN_SURFACE_HEIGHT
    } else if raw > MAX_SURFACE_HEIGHT as i64 {
        MAX_SURFACE_HEIGHT
    } else {
        raw as usize
    }
}

/// The block at height `y` of a column whose surface lies at height `h`.
pub fn column_block_at(h: usize, y: usize) -> (block: Block)
    ensures
        block == column_block(h as int, y as int),
{
    if y == 0 {
        Block::Bedrock
    } else if y > h {
        Block::Air
    } else if y == h {
        Block::Grass
    } else if h < SOIL_DEPTH || y < h - SOIL_DEPTH {
        Block::Stone
    } else {
        Block::Dirt
    }
}

/// Whether column `(x2, z2)` comes before column `(x, z)` when columns are
/// filled by `x`, then `z`.
spec fn column_done(x2: int, z2: int, x: int, z: int) -> bool {
    x2 < x || (x2 == x && z2 < z)
}

/// A chunk at `position` whose column `(x, z)` is the terrain column of
/// surface height `heights[x][z]`, brought between the lowest and the
/// highest surface. The chunk has no mesh yet, and none has been built for it.
pub fn generate_terrain(position: ChunkCoordinate, heights: &[[i64; 16]; 16]) -> (chunk: Chunk)
    ensures
        chunk.spec_position() == position,
        chunk.spec_buffer() is None,
        chunk.spec_buffers_created() == 0,
        is_terrain(&chunk, heights),
{
    let mut chunk = Chunk::new(position);
    let mut x: usize = 0;
    while x < 16
        invariant
            x <= 16,
            chunk.spec_position() == position,
            chunk.spec_buffer() is None,
            chunk.spec_buffers_created() == 0,
            forall|y2: int, x2: int, z2: int|
                in_chunk(y2, x2, z2) ==> #[trigger] chunk.block_at(y2, x2, z2) == if column_done(
                    x2,
                    z2,
                    x as int,
                    0,
                ) {
                    column_block(surface_height(heights[x2][z2] as int), y2)
                } else {
                    Block::Air
                },
        decreases 16 - x,
    {
        let mut z: usize = 0;
        while z < 16
            invariant
                x < 16,
                z <= 16,
                chunk.spec_position() == position,
                chunk.spec_buffer() is None,
                chunk.spec_buffers_created() == 0,
                forall|y2: int, x2: int, z2: int|
                    in_chunk(y2, x2, z2) ==> #[trigger] chunk.block_at(y2, x2, z2) == if column_done(
                        x2,
                        z2,
                        x as int,
                        z as int,
                    ) {
                        column_block(surface_height(heights[x2][z2] as int), y2)
                    } else {
                        Block::Air
                    },
            decreases 16 - z,
        {
            let h = clamp_height(heights[x][z]);
            let mut y: usize = 0;
            while y <= h
                invariant
                    x < 16,
                    z < 16,
                    h < 256,
                    y <= h + 1,
                    h == surface_height(heights[x as int][z as int] as int),
                    chunk.spec_position() == position,
                    chunk.spec_buffer() is None,
                    chunk.spec_buffers_created() == 0,
                    forall|y2: int, x2: int, z2: int|
                        in_chunk(y2, x2, z2) ==> #[trigger] chunk.block_at(y2, x2, z2) == if column_done(
                            x2,
                            z2,
                            x as int,
                            z as int,
                        ) || (x2 == x && z2 == z && y2 < y) {
                            column_block(surface_height(heights[x2][z2] as int), y2)
                        } else {
                            Block::Air
                        },
                decreases h + 1 - y,
            {
                chunk.set_block(y, x, z, column_block_at(h, y));
                y += 1;
            }
            z += 1;
        }
        x += 1;
    }
    chunk
}

/// The heights determine the terrain: two chunks made from the same heights
/// hold the same blocks, whenever and wherever they were made.
pub proof fn lemma_terrain_is_determined(a: &Chunk, b: &Chunk, heights: &[[i64; 16]; 16])
    requires
        is_terrain(a, heights),
        is_terrain(b, heights),
    ensures
        forall|y: int, x: int, z: int| in_chunk(y, x, z) ==> a.block_at(y, x, z) == b.block_at(y, x, z),
        a.grid() == b.grid(),
{
    assert forall|y: int| 0 <= y < 256 implies a.grid()[y] == b.grid()[y] by {
        assert forall|x: int| 0 <= x < 16 implies a.grid()[y][x] == b.grid()[y][x] by {
            assert forall|z: int| 0 <= z < 16 implies a.grid()[y][x][z] == b.grid()[y][x][z] by {
                assert(in_chunk(y, x, z));
                assert(a.block_at(y, x, z) == b.block_at(y, x, z));
            }
            assert(a.grid()[y][x] =~= b.grid()[y][x]);
        }
        assert(a.grid()[y] =~= b.grid()[y]);
    }
    assert(a.grid() =~= b.grid());
}

/// In every terrain column the block at the surface height is Grass, the
/// blocks from four below the surface up to the surface are Dirt, every
/// block deeper than that is Stone, as is every block under a surface lower
/// than four, the block at height 0 is Bedrock whatever the surface, and
/// above the surface there is Air.
pub proof fn lemma_column_bands(h: int, y: int)
    requires
        0 <= h < 256,
        0 <= y < 256,
    ensures
        y == 0 ==> column_block(h, y) == Block::Bedrock,
        y == h && y > 0 ==> column_block(h, y) == Block::Grass,
        0 < y < h && h >= 4 && y >= h - 4 ==> column_block(h, y) == Block::Dirt,
        0 < y < h && h >= 4 && y < h - 4 ==> column_block(h, y) == Block::Stone,
        0 < y < h && h < 4 ==> column_block(h, y) == Block::Stone,
        y > h ==> column_block(h, y) == Block::Air,
{
}

/// The surface of every terrain column lies between the lowest and the
/// highest surface, whatever height was sampled for it: the block there is
/// Grass, every block above it is Air, and no block below it is.
pub proof fn lemma_terrain_surface(chunk: &Chunk, heights: &[[i64; 16]; 16], x: int, z: int)
    requires
        is_terrain(chunk, heights),
        0 <= x < 16,
        0 <= z < 16,
    ensures
        ({
            let h = surface_height(heights[x][z] as int);
            &&& MIN_SURFACE_HEIGHT <= h <= MAX_SURFACE_HEIGHT
            &&& chunk.block_at(h, x, z) == Block::Grass
            &&& forall|y: int| h < y < 256 ==> #[trigger] chunk.block_at(y, x, z) == Block::Air
            &&& forall|y: int| 0 <= y <= h ==> #[trigger] chunk.block_at(y, x, z) != Block::Air
        }),
{
    let h = surface_height(heights[x][z] as int);
    assert(in_chunk(h, x, z));
    assert forall|y: int| h < y < 256 implies #[trigger] chunk.block_at(y, x, z) == Block::Air by {
        assert(in_chunk(y, x, z));
    }
    assert forall|y: int| 0 <= y <= h implies #[trigger] chunk.block_at(y, x, z) != Block::Air by {
        assert(in_chunk(y, x, z));
    }
}

} // verus!
