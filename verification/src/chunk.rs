//! Chunks: a dense 16 x 16 x 256 grid of blocks at a place on the horizontal
//! chunk grid, with the handle of its mesh once one has been built.

use vstd::prelude::*;
use crate::block::{Block, Cardinal};

verus! {

/// Where a chunk lies on the horizontal grid, in units of chunks.
#[derive(Clone, Copy, PartialEq, Eq, Structural, Debug, Hash)]
pub struct ChunkCoordinate {
    pub x: i32,
    pub z: i32,
}

/// Names the uploaded mesh of the chunk at `chunk`.
///
/// A chunk has at most one mesh at a time, so its coordinate identifies the
/// mesh among those of the resident chunks.
#[derive(Clone, Copy, PartialEq, Eq, Structural, Debug, Hash)]
pub struct MeshHandle {
    pub chunk: ChunkCoordinate,
}

/// `(y, x, z)` addresses a voxel of a chunk.
pub open spec fn in_chunk(y: int, x: int, z: int) -> bool {
    0 <= y < 256 && 0 <= x < 16 && 0 <= z < 16
}

/// One chunk of the world.
#[derive(Clone, Debug)]
pub struct Chunk {
    block_data: [[[Block; 16]; 16]; 256],
    position: ChunkCoordinate,
    buffer: Option<(MeshHandle, usize)>,
    buffers_created: u32,
}

impl Chunk {
    /// The voxel grid, addressed as `grid()[y][x][z]`.
    pub closed spec fn grid(&self) -> [[[Block; 16]; 16]; 256] {
        self.block_data
    }

    /// The block at height `y`, column `(x, z)`.
    pub open spec fn block_at(&self, y: int, x: int, z: int) -> Block {
        self.grid()[y][x][z]
    }

    /// Where the chunk lies on the chunk grid.
    pub closed spec fn spec_position(&self) -> ChunkCoordinate {
        self.position
    }

    /// The handle and vertex count of the chunk's mesh, once built.
    pub closed spec fn spec_buffer(&self) -> Option<(MeshHandle, usize)> {
        self.buffer
    }

    /// How many meshes have been built for the chunk.
    pub closed spec fn spec_buffers_created(&self) -> u32 {
        self.buffers_created
    }

    /// Every voxel holds Air.
    pub open spec fn is_empty(&self) -> bool {
        forall|y: int, x: int, z: int| in_chunk(y, x, z) ==> #[trigger] self.block_at(y, x, z) == Block::Air
    }

    /// The block that `get_side_blocks(side)` reports at height `y`, place
    /// `i` along the layer.
    ///
    /// North names the layer at `x = 15` and south the one at `x = 0`, both
    /// running along `z`. East names the layer at `z = 15` and west the one at
    /// `z = 0`, both running along `x`. Up and down name no layer.
    pub open spec fn side_block(&self, side: Cardinal, y: int, i: int) -> Block {
        match side {
            Cardinal::North => self.block_at(y, 15, i),
            Cardinal::South => self.block_at(y, 0, i),
            Cardinal::East => self.block_at(y, i, 15),
            Cardinal::West => self.block_at(y, i, 0),
            _ => Block::Air,
        }
    }

    /// A chunk of Air at `position`, without a mesh; none has been built
    /// for it.
    pub fn new(position: ChunkCoordinate) -> (chunk: Chunk)
        ensures
            chunk.is_empty(),
            chunk.spec_position() == position,
            chunk.spec_buffer() is None,
            chunk.spec_buffers_created() == 0,
    {
        Chunk { block_data: [[[Block::Air; 16]; 16]; 256], position, buffer: None, buffers_created: 0 }
    }

    /// How many meshes have been built for the chunk.
    #[verifier::when_used_as_spec(spec_buffers_created)]
    pub fn buffers_created(&self) -> (count: u32)
        ensures
            count == self.spec_buffers_created(),
    {
        self.buffers_created
    }

    /// Where the chunk lies on the chunk grid.
    #[verifier::when_used_as_spec(spec_position)]
    pub fn position(&self) -> (position: ChunkCoordinate)
        ensures
            position == self.spec_position(),
    {
        self.position
    }

    /// The handle and vertex count of the chunk's mesh, once built.
    #[verifier::when_used_as_spec(spec_buffer)]
    pub fn buffer(&self) -> (buffer: Option<(MeshHandle, usize)>)
        ensures
            buffer == self.spec_buffer(),
    {
        self.buffer
    }

    /// The block at height `y`, column `(x, z)`.
    pub fn block(&self, y: usize, x: usize, z: usize) -> (block: Block)
        requires
            in_chunk(y as int, x as int, z as int),
        ensures
            block == self.block_at(y as int, x as int, z as int),
    {
        self.block_data[y][x][z]
    }

    pub(crate) fn set_block(&mut self, y: usize, x: usize, z: usize, block: Block)
        requires
            in_chunk(y as int, x as int, z as int),
        ensures
            final(self).block_at(y as int, x as int, z as int) == block,
            forall|y2: int, x2: int, z2: int|
                in_chunk(y2, x2, z2) && !(y2 == y && x2 == x && z2 == z) ==> #[trigger] final(self).block_at(y2, x2, z2) == old(self).block_at(y2, x2, z2),
            final(self).spec_position() == old(self).spec_position(),
            final(self).spec_buffer() == old(self).spec_buffer(),
            final(self).spec_buffers_created() == old(self).spec_buffers_created(),
    {
        self.block_data[y][x][z] = block;
    }

    /// Remembers a mesh that has just been built, and counts it.
    pub(crate) fn remember_mesh(&mut self, handle: MeshHandle, vertex_count: usize)
        requires
            old(self).spec_buffers_created() < u32::MAX,
        ensures
            final(self).grid() == old(self).grid(),
            final(self).spec_position() == old(self).spec_position(),
            final(self).spec_buffer() == Some((handle, vertex_count)),
            final(self).spec_buffers_created() == old(self).spec_buffers_created() + 1,
    {
        self.buffer = Some((handle, vertex_count));
        self.buffers_created = self.buffers_created + 1;
    }

    /// Copies out the outermost layer of voxels on one side of the chunk:
    /// 256 rows by height, 16 blocks each.
    pub fn get_side_blocks(&self, side: Cardinal) -> (blocks: Box<[[Block; 16]; 256]>)
        ensures
            forall|y: int, i: int|
                0 <= y < 256 && 0 <= i < 16 ==> #[trigger] blocks[y][i] == self.side_block(side, y, i),
    {
        let mut blocks = [[Block::Air; 16]; 256];
        let mut y: usize = 0;
        while y < 256
            invariant
                y <= 256,
                forall|y2: int, i: int|
                    0 <= y2 < y && 0 <= i < 16 ==> #[trigger] blocks[y2][i] == self.side_block(side, y2, i),
                forall|y2: int, i: int|
                    y <= y2 < 256 && 0 <= i < 16 ==> #[trigger] blocks[y2][i] == Block::Air,
            decreases 256 - y,
        {
            let mut i: usize = 0;
            while i < 16
                invariant
                    y < 256,
                    i <= 16,
                    forall|y2: int, i2: int|
                        0 <= y2 < y && 0 <= i2 < 16 ==> #[trigger] blocks[y2][i2] == self.side_block(
                            side,
                            y2,
                            i2,
                        ),
                    forall|i2: int|
                        0 <= i2 < i ==> #[trigger] blocks[y as int][i2] == self.side_block(side, y as int, i2),
                    forall|i2: int| i <= i2 < 16 ==> #[trigger] blocks[y as int][i2] == Block::Air,
                    forall|y2: int, i2: int|
                        y < y2 < 256 && 0 <= i2 < 16 ==> #[trigger] blocks[y2][i2] == Block::Air,
                decreases 16 - i,
            {
                let block = match side {
                    Cardinal::North => self.block_data[y][15][i],
                    Cardinal::South => self.block_data[y][0][i],
                    Cardinal::East => self.block_data[y][i][15],
                    Cardinal::West => self.block_data[y][i][0],
                    _ => Block::Air,
                };
                set_side_block(&mut blocks, y, i, block);
                i += 1;
            }
            y += 1;
        }
        Box::new(blocks)
    }
}

fn set_side_block(blocks: &mut [[Block; 16]; 256], y: usize, i: usize, block: Block)
    requires
        y < 256,
        i < 16,
    ensures
        final(blocks)[y as int][i as int] == block,
        forall|y2: int, i2: int|
            0 <= y2 < 256 && 0 <= i2 < 16 && !(y2 == y && i2 == i) ==> #[trigger] final(blocks)[y2][i2] == old(blocks)[y2][i2],
{
    blocks[y][i] = block;
}

impl Default for Chunk {
    /// A chunk of Air at the origin of the chunk grid.
    fn default() -> (chunk: Chunk)
        ensures
            chunk.is_empty(),
            chunk.spec_position() == (ChunkCoordinate { x: 0, z: 0 }),
            chunk.spec_buffer() is None,
            chunk.spec_buffers_created() == 0,
    {
        Chunk::new(ChunkCoordinate { x: 0, z: 0 })
    }
}

} // verus!
