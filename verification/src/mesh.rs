//! The chunk mesher: two triangles for every face of a solid voxel that
//! borders Air, and nothing for any other face.

use vstd::prelude::*;
use crate::block::{
    block_texture_ids, texture_ids_match, try_get_block_texture_ids, Block, Cardinal,
};
use crate::chunk::{in_chunk, Chunk, ChunkCoordinate, MeshHandle};
use crate::texture::{ConfigurationError, TextureManager, TextureSlot};
use crate::vertex::{face, face_vertices, Vertex};

verus! {

/// One side of one voxel of a chunk.
pub struct VoxelFace {
    pub y: int,
    pub x: int,
    pub z: int,
    pub direction: Cardinal,
}

/// The direction whose `Cardinal::index` is `i`.
pub open spec fn direction_at(i: int) -> Cardinal {
    if i == 0 {
        Cardinal::Up
    } else if i == 1 {
        Cardinal::Down
    } else if i == 2 {
        Cardinal::North
    } else if i == 3 {
        Cardinal::South
    } else if i == 4 {
        Cardinal::East
    } else {
        Cardinal::West
    }
}

/// The block next to voxel `(y, x, z)` of `chunk` towards `direction`.
///
/// Inside the grid it is read from the grid. Across a horizontal edge it is
/// read from the boundary layer supplied for that side: `side_blocks[0]` to
/// the north, `[1]` to the south, `[2]` to the east, `[3]` to the west, each
/// addressed by height and by the place along the edge. Above the top and
/// below the bottom of the grid there is Air.
pub open spec fn adjacent_block(
    chunk: &Chunk,
    side_blocks: &[[[Block; 16]; 256]; 4],
    y: int,
    x: int,
    z: int,
    direction: Cardinal,
) -> Block {
    match direction {
        Cardinal::Up => if y < 255 { chunk.block_at(y + 1, x, z) } else { Block::Air },
        Cardinal::Down => if y > 0 { chunk.block_at(y - 1, x, z) } else { Block::Air },
        Cardinal::North => if x < 15 { chunk.block_at(y, x + 1, z) } else { side_blocks[0][y][z] },
        Cardinal::South => if x > 0 { chunk.block_at(y, x - 1, z) } else { side_blocks[1][y][z] },
        Cardinal::East => if z > 0 { chunk.block_at(y, x, z - 1) } else { side_blocks[2][y][x] },
        Cardinal::West => if z < 15 { chunk.block_at(y, x, z + 1) } else { side_blocks[3][y][x] },
    }
}

/// A face is drawn exactly when its voxel is solid and the block it looks at
/// is Air.
pub open spec fn face_visible(
    chunk: &Chunk,
    side_blocks: &[[[Block; 16]; 256]; 4],
    f: VoxelFace,
) -> bool {
    &&& in_chunk(f.y, f.x, f.z)
    &&& chunk.block_at(f.y, f.x, f.z) != Block::Air
    &&& adjacent_block(chunk, side_blocks, f.y, f.x, f.z, f.direction) == Block::Air
}

/// The drawn faces of voxel `(y, x, z)` among its first `n` directions, in
/// the order of `Cardinal::index`.
pub open spec fn voxel_faces(
    chunk: &Chunk,
    side_blocks: &[[[Block; 16]; 256]; 4],
    y: int,
    x: int,
    z: int,
    n: int,
) -> Seq<VoxelFace>
    decreases n,
{
    if n <= 0 {
        Seq::empty()
    } else {
        let before = voxel_faces(chunk, side_blocks, y, x, z, n - 1);
        let f = VoxelFace { y, x, z, direction: direction_at(n - 1) };
        if face_visible(chunk, side_blocks, f) {
            before.push(f)
        } else {
            before
        }
    }
}

/// The drawn faces of the first `n` voxels of row `(y, x)`, by ascending `z`.
pub open spec fn row_faces(
    chunk: &Chunk,
    side_blocks: &[[[Block; 16]; 256]; 4],
    y: int,
    x: int,
    n: int,
) -> Seq<VoxelFace>
    decreases n,
{
    if n <= 0 {
        Seq::empty()
    } else {
        row_faces(chunk, side_blocks, y, x, n - 1) + voxel_faces(chunk, side_blocks, y, x, n - 1, 6)
    }
}

/// The drawn faces of the first `n` rows of the layer at height `y`, by
/// ascending `x`.
pub open spec fn layer_faces(
    chunk: &Chunk,
    side_blocks: &[[[Block; 16]; 256]; 4],
    y: int,
    n: int,
) -> Seq<VoxelFace>
    decreases n,
{
    if n <= 0 {
        Seq::empty()
    } else {
        layer_faces(chunk, side_blocks, y, n - 1) + row_faces(chunk, side_blocks, y, n - 1, 16)
    }
}

/// The drawn faces of the lowest `n` layers, by ascending height.
pub open spec fn faces_below(
    chunk: &Chunk,
    side_blocks: &[[[Block; 16]; 256]; 4],
    n: int,
) -> Seq<VoxelFace>
    decreases n,
{
    if n <= 0 {
        Seq::empty()
    } else {
        faces_below(chunk, side_blocks, n - 1) + layer_faces(chunk, side_blocks, n - 1, 16)
    }
}

/// Every drawn face of the chunk, in the order in which the mesher walks the
/// grid: by height, then `x`, then `z`, then direction.
pub open spec fn chunk_faces(chunk: &Chunk, side_blocks: &[[[Block; 16]; 256]; 4]) -> Seq<VoxelFace> {
    faces_below(chunk, side_blocks, 256)
}

/// The texture layer of face `f`: the slot that the catalogue gives the
/// voxel's block for the face's direction.
pub open spec fn face_texture(chunk: &Chunk, names: Seq<Seq<char>>, f: VoxelFace) -> TextureSlot {
    match block_texture_ids(chunk.block_at(f.y, f.x, f.z), names) {
        Ok(ids) => ids[f.direction.index() as int],
        Err(_) => 0,
    }
}

/// The six vertices of face `f`, placed in the world: the voxel's offset in
/// the chunk plus sixteen times the chunk's coordinate.
pub open spec fn face_mesh(chunk: &Chunk, names: Seq<Seq<char>>, f: VoxelFace) -> Seq<Vertex> {
    face_vertices(
        f.direction,
        f.x + 16 * chunk.spec_position().x,
        f.y,
        f.z + 16 * chunk.spec_position().z,
        face_texture(chunk, names, f),
    )
}

/// The vertices of `faces`, face after face.
pub open spec fn faces_mesh(chunk: &Chunk, names: Seq<Seq<char>>, faces: Seq<VoxelFace>) -> Seq<Vertex>
    decreases faces.len(),
{
    if faces.len() == 0 {
        Seq::empty()
    } else {
        faces_mesh(chunk, names, faces.drop_last()) + face_mesh(chunk, names, faces.last())
    }
}

/// The mesh of a chunk: the vertices of its drawn faces.
pub open spec fn chunk_mesh(
    chunk: &Chunk,
    side_blocks: &[[[Block; 16]; 256]; 4],
    names: Seq<Seq<char>>,
) -> Seq<Vertex> {
    faces_mesh(chunk, names, chunk_faces(chunk, side_blocks))
}

/// The voxel is Air, or the atlas holds every texture of its block.
pub open spec fn voxel_resolves(chunk: &Chunk, names: Seq<Seq<char>>, y: int, x: int, z: int) -> bool {
    chunk.block_at(y, x, z) == Block::Air || block_texture_ids(chunk.block_at(y, x, z), names) is Ok
}

/// Place of a voxel in the order in which the mesher walks the grid.
pub open spec fn voxel_rank(y: int, x: int, z: int) -> int {
    (y * 16 + x) * 16 + z
}

/// Every voxel before rank `rank` resolves.
pub open spec fn resolves_before(chunk: &Chunk, names: Seq<Seq<char>>, rank: int) -> bool {
    forall|y: int, x: int, z: int|
        in_chunk(y, x, z) && voxel_rank(y, x, z) < rank ==> #[trigger] voxel_resolves(chunk, names, y, x, z)
}

/// Every voxel of the chunk resolves: the atlas holds every texture that the
/// chunk's mesh needs.
pub open spec fn resolves(chunk: &Chunk, names: Seq<Seq<char>>) -> bool {
    resolves_before(chunk, names, 65536)
}

/// `name` is the texture that the first voxel of the chunk which does not
/// resolve asks for in vain.
pub open spec fn first_missing_texture(chunk: &Chunk, names: Seq<Seq<char>>, name: Seq<char>) -> bool {
    exists|y: int, x: int, z: int|
        {
            &&& in_chunk(y, x, z)
            &&& chunk.block_at(y, x, z) != Block::Air
            &&& #[trigger] block_texture_ids(chunk.block_at(y, x, z), names) == Err::<
                Seq<TextureSlot>,
                Seq<char>,
            >(name)
            &&& resolves_before(chunk, names, voxel_rank(y, x, z))
        }
}

/// What meshing `chunk` yields: its mesh when every voxel resolves, and
/// otherwise the texture name that the first voxel which does not resolve
/// asks for in vain.
pub open spec fn mesh_outcome(
    chunk: &Chunk,
    side_blocks: &[[[Block; 16]; 256]; 4],
    names: Seq<Seq<char>>,
    result: Result<Seq<Vertex>, Seq<char>>,
) -> bool {
    match result {
        Ok(vertices) => {
            &&& resolves(chunk, names)
            &&& vertices == chunk_mesh(chunk, side_blocks, names)
        },
        Err(name) => first_missing_texture(chunk, names, name),
    }
}

/// A chunk with a missing texture does not resolve.
pub proof fn lemma_missing_texture_does_not_resolve(chunk: &Chunk, names: Seq<Seq<char>>, name: Seq<char>)
    requires
        first_missing_texture(chunk, names, name),
    ensures
        !resolves(chunk, names),
{
    let (y, x, z) = choose|y: int, x: int, z: int|
        {
            &&& in_chunk(y, x, z)
            &&& chunk.block_at(y, x, z) != Block::Air
            &&& #[trigger] block_texture_ids(chunk.block_at(y, x, z), names) == Err::<
                Seq<TextureSlot>,
                Seq<char>,
            >(name)
            &&& resolves_before(chunk, names, voxel_rank(y, x, z))
        };
    assert(!voxel_resolves(chunk, names, y, x, z));
    assert(voxel_rank(y, x, z) < 65536);
}

/// A meshing result as the mesh or the missing texture name that it holds.
pub open spec fn mesh_result_view(result: Result<Vec<Vertex>, ConfigurationError>) -> Result<
    Seq<Vertex>,
    Seq<char>,
> {
    match result {
        Ok(vertices) => Ok(vertices@),
        Err(e) => Err(e.name@),
    }
}

/// The handle under which the mesh of the chunk at `position` is known.
pub open spec fn handle_of(position: ChunkCoordinate) -> MeshHandle {
    MeshHandle { chunk: position }
}

/// A freshly built mesh, to be handed to the GPU under `handle`.
#[derive(Clone, Debug, PartialEq, Eq)]
pub struct MeshUpload {
    pub handle: MeshHandle,
    pub vertices: Vec<Vertex>,
}

proof fn lemma_faces_mesh_push(chunk: &Chunk, names: Seq<Seq<char>>, faces: Seq<VoxelFace>, f: VoxelFace)
    ensures
        faces_mesh(chunk, names, faces.push(f)) == faces_mesh(chunk, names, faces) + face_mesh(
            chunk,
            names,
            f,
        ),
{
    assert(faces.push(f).drop_last() =~= faces);
}

proof fn lemma_faces_mesh_concat(
    chunk: &Chunk,
    names: Seq<Seq<char>>,
    a: Seq<VoxelFace>,
    b: Seq<VoxelFace>,
)
    ensures
        faces_mesh(chunk, names, a + b) == faces_mesh(chunk, names, a) + faces_mesh(chunk, names, b),
    decreases b.len(),
{
    if b.len() == 0 {
        assert(a + b =~= a);
        assert(faces_mesh(chunk, names, a) + faces_mesh(chunk, names, b) =~= faces_mesh(chunk, names, a));
    } else {
        lemma_faces_mesh_concat(chunk, names, a, b.drop_last());
        assert((a + b).drop_last() =~= a + b.drop_last());
        assert((a + b).last() == b.last());
        assert((faces_mesh(chunk, names, a) + faces_mesh(chunk, names, b.drop_last())) + face_mesh(
            chunk,
            names,
            b.last(),
        ) =~= faces_mesh(chunk, names, a) + (faces_mesh(chunk, names, b.drop_last()) + face_mesh(
            chunk,
            names,
            b.last(),
        )));
    }
}

/// An Air voxel has no drawn face.
proof fn lemma_air_voxel_faces(
    chunk: &Chunk,
    side_blocks: &[[[Block; 16]; 256]; 4],
    y: int,
    x: int,
    z: int,
    n: int,
)
    requires
        chunk.block_at(y, x, z) == Block::Air,
    ensures
        voxel_faces(chunk, side_blocks, y, x, z, n) == Seq::<VoxelFace>::empty(),
    decreases n,
{
    if n > 0 {
        lemma_air_voxel_faces(chunk, side_blocks, y, x, z, n - 1);
    }
}

proof fn lemma_voxel_faces_depend_on_grid(
    a: &Chunk,
    b: &Chunk,
    side_blocks: &[[[Block; 16]; 256]; 4],
    y: int,
    x: int,
    z: int,
    n: int,
)
    requires
        a.grid() == b.grid(),
    ensures
        voxel_faces(a, side_blocks, y, x, z, n) == voxel_faces(b, side_blocks, y, x, z, n),
    decreases n,
{
    if n > 0 {
        lemma_voxel_faces_depend_on_grid(a, b, side_blocks, y, x, z, n - 1);
    }
}

proof fn lemma_row_faces_depend_on_grid(
    a: &Chunk,
    b: &Chunk,
    side_blocks: &[[[Block; 16]; 256]; 4],
    y: int,
    x: int,
    n: int,
)
    requires
        a.grid() == b.grid(),
    ensures
        row_faces(a, side_blocks, y, x, n) == row_faces(b, side_blocks, y, x, n),
    decreases n,
{
    if n > 0 {
        lemma_row_faces_depend_on_grid(a, b, side_blocks, y, x, n - 1);
        lemma_voxel_faces_depend_on_grid(a, b, side_blocks, y, x, n - 1, 6);
    }
}

proof fn lemma_layer_faces_depend_on_grid(
    a: &Chunk,
    b: &Chunk,
    side_blocks: &[[[Block; 16]; 256]; 4],
    y: int,
    n: int,
)
    requires
        a.grid() == b.grid(),
    ensures
        layer_faces(a, side_blocks, y, n) == layer_faces(b, side_blocks, y, n),
    decreases n,
{
    if n > 0 {
        lemma_layer_faces_depend_on_grid(a, b, side_blocks, y, n - 1);
        lemma_row_faces_depend_on_grid(a, b, side_blocks, y, n - 1, 16);
    }
}

proof fn lemma_faces_below_depend_on_grid(
    a: &Chunk,
    b: &Chunk,
    side_blocks: &[[[Block; 16]; 256]; 4],
    n: int,
)
    requires
        a.grid() == b.grid(),
    ensures
        faces_below(a, side_blocks, n) == faces_below(b, side_blocks, n),
    decreases n,
{
    if n > 0 {
        lemma_faces_below_depend_on_grid(a, b, side_blocks, n - 1);
        lemma_layer_faces_depend_on_grid(a, b, side_blocks, n - 1, 16);
    }
}

proof fn lemma_faces_mesh_depends_on_grid(
    a: &Chunk,
    b: &Chunk,
    names: Seq<Seq<char>>,
    faces: Seq<VoxelFace>,
)
    requires
        a.grid() == b.grid(),
        a.spec_position() == b.spec_position(),
    ensures
        faces_mesh(a, names, faces) == faces_mesh(b, names, faces),
    decreases faces.len(),
{
    if faces.len() > 0 {
        lemma_faces_mesh_depends_on_grid(a, b, names, faces.drop_last());
    }
}

/// What meshing yields depends only on the chunk's grid and place, not on
/// the mesh it remembers.
pub proof fn lemma_mesh_outcome_depends_on_grid(
    a: &Chunk,
    b: &Chunk,
    side_blocks: &[[[Block; 16]; 256]; 4],
    names: Seq<Seq<char>>,
    result: Result<Seq<Vertex>, Seq<char>>,
)
    requires
        a.grid() == b.grid(),
        a.spec_position() == b.spec_position(),
        mesh_outcome(a, side_blocks, names, result),
    ensures
        mesh_outcome(b, side_blocks, names, result),
{
    lemma_faces_below_depend_on_grid(a, b, side_blocks, 256);
    lemma_faces_mesh_depends_on_grid(a, b, names, chunk_faces(a, side_blocks));
    assert forall|rank: int| resolves_before(a, names, rank) implies resolves_before(b, names, rank) by {
        assert forall|y: int, x: int, z: int|
            in_chunk(y, x, z) && voxel_rank(y, x, z) < rank implies #[trigger] voxel_resolves(
            b,
            names,
            y,
            x,
            z,
        ) by {
            assert(voxel_resolves(a, names, y, x, z));
        }
    }
    match result {
        Ok(_) => {},
        Err(name) => {
            let (y, x, z) = choose|y: int, x: int, z: int|
                {
                    &&& in_chunk(y, x, z)
                    &&& a.block_at(y, x, z) != Block::Air
                    &&& #[trigger] block_texture_ids(a.block_at(y, x, z), names) == Err::<
                        Seq<TextureSlot>,
                        Seq<char>,
                    >(name)
                    &&& resolves_before(a, names, voxel_rank(y, x, z))
                };
            assert(block_texture_ids(b.block_at(y, x, z), names) == Err::<Seq<TextureSlot>, Seq<char>>(
                name,
            ));
        },
    }
}

fn block_index(block: Block) -> (i: usize)
    ensures
        i < 6,
        i == 0 <==> block == Block::Air,
        i == 1 <==> block == Block::Grass,
        i == 2 <==> block == Block::Dirt,
        i == 3 <==> block == Block::Stone,
        i == 4 <==> block == Block::Cobblestone,
        i == 5 <==> block == Block::Bedrock,
{
    match block {
        Block::Air => 0,
        Block::Grass => 1,
        Block::Dirt => 2,
        Block::Stone => 3,
        Block::Cobblestone => 4,
        Block::Bedrock => 5,
    }
}

spec fn block_of_index(i: int) -> Block {
    if i == 0 {
        Block::Air
    } else if i == 1 {
        Block::Grass
    } else if i == 2 {
        Block::Dirt
    } else if i == 3 {
        Block::Stone
    } else if i == 4 {
        Block::Cobblestone
    } else {
        Block::Bedrock
    }
}

/// The slots already resolved during one meshing call, by block kind.
struct TextureIdCache {
    entries: [Option<[TextureSlot; 6]>; 6],
}

impl TextureIdCache {
    spec fn wf(&self, names: Seq<Seq<char>>) -> bool {
        forall|i: int|
            0 <= i < 6 ==> (#[trigger] self.entries[i] matches Some(ids) ==> block_texture_ids(
                block_of_index(i),
                names,
            ) == Ok::<Seq<TextureSlot>, Seq<char>>(ids@))
    }

    fn new(Ghost(names): Ghost<Seq<Seq<char>>>) -> (cache: Self)
        ensures
            cache.wf(names),
    {
        TextureIdCache { entries: [None, None, None, None, None, None] }
    }

    /// The slots of `block`, asking the catalogue only the first time a kind
    /// is met.
    fn lookup(&mut self, block: Block, texture_manager: &TextureManager) -> (result: Result<
        [TextureSlot; 6],
        ConfigurationError,
    >)
        requires
            old(self).wf(texture_manager.names()),
        ensures
            final(self).wf(texture_manager.names()),
            texture_ids_match(result, block_texture_ids(block, texture_manager.names())),
    {
        let i = block_index(block);
        match self.entries[i] {
            Some(ids) => Ok(ids),
            None => {
                match try_get_block_texture_ids(block, texture_manager) {
                    Ok(ids) => {
                        self.entries[i] = Some(ids);
                        Ok(ids)
                    },
                    Err(e) => Err(e),
                }
            },
        }
    }
}

fn push_face(vertices: &mut Vec<Vertex>, quad: &[Vertex; 6])
    ensures
        final(vertices)@ == old(vertices)@ + quad@,
{
    vertices.push(quad[0]);
    vertices.push(quad[1]);
    vertices.push(quad[2]);
    vertices.push(quad[3]);
    vertices.push(quad[4]);
    vertices.push(quad[5]);
    assert(vertices@ =~= old(vertices)@ + quad@);
}

impl Chunk {
    /// The block next to voxel `(y, x, z)` towards `direction`.
    fn adjacent(
        &self,
        side_blocks: &[[[Block; 16]; 256]; 4],
        y: usize,
        x: usize,
        z: usize,
        direction: Cardinal,
    ) -> (block: Block)
        requires
            in_chunk(y as int, x as int, z as int),
        ensures
            block == adjacent_block(self, side_blocks, y as int, x as int, z as int, direction),
    {
        match direction {
            Cardinal::Up => if y < 255 { self.block(y + 1, x, z) } else { Block::Air },
            Cardinal::Down => if y > 0 { self.block(y - 1, x, z) } else { Block::Air },
            Cardinal::North => if x < 15 { self.block(y, x + 1, z) } else { side_blocks[0][y][z] },
            Cardinal::South => if x > 0 { self.block(y, x - 1, z) } else { side_blocks[1][y][z] },
            Cardinal::East => if z > 0 { self.block(y, x, z - 1) } else { side_blocks[2][y][x] },
            Cardinal::West => if z < 15 { self.block(y, x, z + 1) } else { side_blocks[3][y][x] },
        }
    }

    /// Appends the drawn faces of the solid voxel `(y, x, z)`.
    fn push_voxel(
        &self,
        side_blocks: &[[[Block; 16]; 256]; 4],
        ids: &[TextureSlot; 6],
        y: usize,
        x: usize,
        z: usize,
        vertices: &mut Vec<Vertex>,
        Ghost(names): Ghost<Seq<Seq<char>>>,
    )
        requires
            in_chunk(y as int, x as int, z as int),
            self.block_at(y as int, x as int, z as int) != Block::Air,
            block_texture_ids(self.block_at(y as int, x as int, z as int), names) == Ok::<
                Seq<TextureSlot>,
                Seq<char>,
            >(ids@),
        ensures
            final(vertices)@ == old(vertices)@ + faces_mesh(
                self,
                names,
                voxel_faces(self, side_blocks, y as int, x as int, z as int, 6),
            ),
    {
        let origin = self.position();
        let position: [i64; 3] = [x as i64 + 16 * (origin.x as i64), y as i64, z as i64 + 16 * (origin.z as i64)];
        let directions = [
            Cardinal::Up,
            Cardinal::Down,
            Cardinal::North,
            Cardinal::South,
            Cardinal::East,
            Cardinal::West,
        ];
        let mut i: usize = 0;
        while i < 6
            invariant
                i <= 6,
                in_chunk(y as int, x as int, z as int),
                origin == self.spec_position(),
                self.block_at(y as int, x as int, z as int) != Block::Air,
                position[0] == x + 16 * origin.x,
                position[1] == y,
                position[2] == z + 16 * origin.z,
                forall|k: int| 0 <= k < 6 ==> directions[k] == direction_at(k),
                block_texture_ids(self.block_at(y as int, x as int, z as int), names) == Ok::<
                    Seq<TextureSlot>,
                    Seq<char>,
                >(ids@),
                vertices@ == old(vertices)@ + faces_mesh(
                    self,
                    names,
                    voxel_faces(self, side_blocks, y as int, x as int, z as int, i as int),
                ),
            decreases 6 - i,
        {
            let direction = directions[i];
            let ghost f = VoxelFace { y: y as int, x: x as int, z: z as int, direction };
            let ghost before = voxel_faces(self, side_blocks, y as int, x as int, z as int, i as int);
            assert(voxel_faces(self, side_blocks, y as int, x as int, z as int, i + 1) == if face_visible(
                self,
                side_blocks,
                f,
            ) {
                before.push(f)
            } else {
                before
            });
            if self.adjacent(side_blocks, y, x, z, direction) == Block::Air {
                let quad = face(direction, position, ids[direction.index()]);
                push_face(vertices, &quad);
                proof {
                    lemma_faces_mesh_push(self, names, before, f);
                    assert(quad@ == face_mesh(self, names, f));
                    assert(old(vertices)@ + faces_mesh(self, names, before) + quad@ =~= old(vertices)@
                        + (faces_mesh(self, names, before) + quad@));
                }
            }
            i += 1;
        }
    }

    /// Builds the mesh of this chunk, given the boundary layers of its four
    /// horizontal neighbours, or tells which texture the atlas lacks.
    ///
    /// The grid is walked by height, then `x`, then `z`. Each solid voxel has
    /// its texture slots resolved (once per block kind), and contributes the
    /// two triangles of each face whose adjacent block is Air. The walk stops
    /// at the first solid voxel whose textures the atlas lacks.
    pub fn try_mesh(
        &self,
        texture_manager: &TextureManager,
        side_blocks: &[[[Block; 16]; 256]; 4],
    ) -> (result: Result<Vec<Vertex>, ConfigurationError>)
        ensures
            mesh_outcome(self, side_blocks, texture_manager.names(), mesh_result_view(result)),
    {
        let ghost names = texture_manager.names();
        let mut cache = TextureIdCache::new(Ghost(names));
        let mut vertices: Vec<Vertex> = Vec::new();
        let mut y: usize = 0;
        while y < 256
            invariant
                y <= 256,
                names == texture_manager.names(),
                cache.wf(names),
                resolves_before(self, names, voxel_rank(y as int, 0, 0)),
                vertices@ == faces_mesh(self, names, faces_below(self, side_blocks, y as int)),
            decreases 256 - y,
        {
            let ghost below = faces_below(self, side_blocks, y as int);
            let mut x: usize = 0;
            assert(below + layer_faces(self, side_blocks, y as int, 0) =~= below);
            while x < 16
                invariant
                    y < 256,
                    x <= 16,
                    names == texture_manager.names(),
                    cache.wf(names),
                    below == faces_below(self, side_blocks, y as int),
                    resolves_before(self, names, voxel_rank(y as int, x as int, 0)),
                    vertices@ == faces_mesh(
                        self,
                        names,
                        below + layer_faces(self, side_blocks, y as int, x as int),
                    ),
                decreases 16 - x,
            {
                let ghost layer = layer_faces(self, side_blocks, y as int, x as int);
                let mut z: usize = 0;
                assert(below + layer + row_faces(self, side_blocks, y as int, x as int, 0) =~= below
                    + layer);
                while z < 16
                    invariant
                        y < 256,
                        x < 16,
                        z <= 16,
                        names == texture_manager.names(),
                        cache.wf(names),
                        below == faces_below(self, side_blocks, y as int),
                        layer == layer_faces(self, side_blocks, y as int, x as int),
                        resolves_before(self, names, voxel_rank(y as int, x as int, z as int)),
                        vertices@ == faces_mesh(
                            self,
                            names,
                            below + layer + row_faces(self, side_blocks, y as int, x as int, z as int),
                        ),
                    decreases 16 - z,
                {
                    let ghost row = row_faces(self, side_blocks, y as int, x as int, z as int);
                    let ghost voxel = voxel_faces(self, side_blocks, y as int, x as int, z as int, 6);
                    let current = self.block(y, x, z);
                    if current != Block::Air {
                        match cache.lookup(current, texture_manager) {
                            Ok(ids) => {
                                self.push_voxel(side_blocks, &ids, y, x, z, &mut vertices, Ghost(names));
                            },
                            Err(e) => {
                                return Err(e);
                            },
                        }
                    } else {
                        proof {
                            lemma_air_voxel_faces(self, side_blocks, y as int, x as int, z as int, 6);
                            assert(faces_mesh(self, names, voxel) =~= Seq::<Vertex>::empty());
                            assert(vertices@ + faces_mesh(self, names, voxel) =~= vertices@);
                        }
                    }
                    proof {
                        lemma_faces_mesh_concat(self, names, below + layer + row, voxel);
                        assert((below + layer + row) + voxel =~= below + layer + (row + voxel));
                        assert(voxel_resolves(self, names, y as int, x as int, z as int));
                        assert forall|y2: int, x2: int, z2: int|
                            in_chunk(y2, x2, z2) && voxel_rank(y2, x2, z2) < voxel_rank(
                                y as int,
                                x as int,
                                z + 1,
                            ) implies #[trigger] voxel_resolves(self, names, y2, x2, z2) by {
                            if voxel_rank(y2, x2, z2) == voxel_rank(y as int, x as int, z as int) {
                                assert(y2 == y && x2 == x && z2 == z);
                            }
                        }
                    }
                    z += 1;
                }
                assert(below + layer + row_faces(self, side_blocks, y as int, x as int, 16) =~= below + (
                layer + row_faces(self, side_blocks, y as int, x as int, 16)));
                x += 1;
            }
            y += 1;
        }
        Ok(vertices)
    }

    /// The texture that the first voxel which does not resolve asks for in
    /// vain, or nothing when the atlas holds every texture that the chunk's
    /// mesh needs.
    pub fn missing_texture(&self, texture_manager: &TextureManager) -> (missing: Option<
        ConfigurationError,
    >)
        ensures
            match missing {
                None => resolves(self, texture_manager.names()),
                Some(e) => first_missing_texture(self, texture_manager.names(), e.name@),
            },
    {
        let ghost names = texture_manager.names();
        let mut cache = TextureIdCache::new(Ghost(names));
        let mut y: usize = 0;
        while y < 256
            invariant
                y <= 256,
                names == texture_manager.names(),
                cache.wf(names),
                resolves_before(self, names, voxel_rank(y as int, 0, 0)),
            decreases 256 - y,
        {
            let mut x: usize = 0;
            while x < 16
                invariant
                    y < 256,
                    x <= 16,
                    names == texture_manager.names(),
                    cache.wf(names),
                    resolves_before(self, names, voxel_rank(y as int, x as int, 0)),
                decreases 16 - x,
            {
                let mut z: usize = 0;
                while z < 16
                    invariant
                        y < 256,
                        x < 16,
                        z <= 16,
                        names == texture_manager.names(),
                        cache.wf(names),
                        resolves_before(self, names, voxel_rank(y as int, x as int, z as int)),
                    decreases 16 - z,
                {
                    let current = self.block(y, x, z);
                    if current != Block::Air {
                        match cache.lookup(current, texture_manager) {
                            Ok(_) => {},
                            Err(e) => {
                                return Some(e);
                            },
                        }
                    }
                    proof {
                        assert(voxel_resolves(self, names, y as int, x as int, z as int));
                        assert forall|y2: int, x2: int, z2: int|
                            in_chunk(y2, x2, z2) && voxel_rank(y2, x2, z2) < voxel_rank(
                                y as int,
                                x as int,
                                z + 1,
                            ) implies #[trigger] voxel_resolves(self, names, y2, x2, z2) by {
                            if voxel_rank(y2, x2, z2) == voxel_rank(y as int, x as int, z as int) {
                                assert(y2 == y && x2 == x && z2 == z);
                            }
                        }
                    }
                    z += 1;
                }
                x += 1;
            }
            y += 1;
        }
        None
    }

    /// Builds the mesh of this chunk, given the boundary layers of its four
    /// horizontal neighbours. The atlas must hold every texture that the
    /// mesh needs; `missing_texture` tells whether it does.
    pub fn mesh(
        &self,
        texture_manager: &TextureManager,
        side_blocks: &[[[Block; 16]; 256]; 4],
    ) -> (vertices: Vec<Vertex>)
        requires
            resolves(self, texture_manager.names()),
        ensures
            vertices@ == chunk_mesh(self, side_blocks, texture_manager.names()),
    {
        match self.try_mesh(texture_manager, side_blocks) {
            Ok(vertices) => vertices,
            Err(e) => {
                proof {
                    lemma_missing_texture_does_not_resolve(self, texture_manager.names(), e.name@);
                }
                Vec::new()
            },
        }
    }

    /// Builds the mesh anew, whether or not a mesh was remembered before,
    /// remembers its handle and vertex count, and counts it among the meshes
    /// built. The vertices come back for upload. The atlas must hold every
    /// texture that the mesh needs; `missing_texture` tells whether it does.
    pub fn generate_mesh(
        &mut self,
        texture_manager: &TextureManager,
        side_blocks: &[[[Block; 16]; 256]; 4],
    ) -> (upload: MeshUpload)
        requires
            resolves(old(self), texture_manager.names()),
            old(self).spec_buffers_created() < u32::MAX,
        ensures
            final(self).grid() == old(self).grid(),
            final(self).spec_position() == old(self).spec_position(),
            upload.vertices@ == chunk_mesh(old(self), side_blocks, texture_manager.names()),
            upload.handle == handle_of(old(self).spec_position()),
            final(self).spec_buffer() == Some((upload.handle, upload.vertices.len())),
            final(self).spec_buffers_created() == old(self).spec_buffers_created() + 1,
    {
        let vertices = self.mesh(texture_manager, side_blocks);
        let handle = MeshHandle { chunk: self.position() };
        self.remember_mesh(handle, vertices.len());
        MeshUpload { handle, vertices }
    }

    /// The remembered handle and vertex count if the chunk has a mesh, and
    /// nothing built. Otherwise a freshly built mesh, remembered and counted
    /// from now on, together with its vertices for upload; the atlas must
    /// then hold every texture that the mesh needs.
    pub fn get_or_generate_mesh(
        &mut self,
        texture_manager: &TextureManager,
        side_blocks: &[[[Block; 16]; 256]; 4],
    ) -> (result: ((MeshHandle, usize), Option<MeshUpload>))
        requires
            old(self).spec_buffer() is None ==> resolves(old(self), texture_manager.names()) && old(self).spec_buffers_created() < u32::MAX,
        ensures
            final(self).grid() == old(self).grid(),
            final(self).spec_position() == old(self).spec_position(),
            match old(self).spec_buffer() {
                Some(buffer) => {
                    &&& result == (buffer, None::<MeshUpload>)
                    &&& final(self).spec_buffer() == old(self).spec_buffer()
                    &&& final(self).spec_buffers_created() == old(self).spec_buffers_created()
                },
                None => {
                    &&& result.1 matches Some(u)
                    &&& u.vertices@ == chunk_mesh(old(self), side_blocks, texture_manager.names())
                    &&& u.handle == handle_of(old(self).spec_position())
                    &&& result.0 == (u.handle, u.vertices.len())
                    &&& final(self).spec_buffer() == Some(result.0)
                    &&& final(self).spec_buffers_created() == old(self).spec_buffers_created() + 1
                },
            },
    {
        match self.buffer() {
            Some(buffer) => (buffer, None),
            None => {
                let upload = self.generate_mesh(texture_manager, side_blocks);
                ((upload.handle, upload.vertices.len()), Some(upload))
            },
        }
    }
}

} // verus!
