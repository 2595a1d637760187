//! What the mesher draws and what it leaves out: which faces are in a
//! chunk's mesh, how faces between solid voxels are culled, and how the
//! meshes of two neighbouring chunks meet at their seam.

use vstd::prelude::*;
use crate::block::{Block, Cardinal};
use crate::chunk::{in_chunk, Chunk};
use crate::mesh::{
    chunk_faces, chunk_mesh, direction_at, face_mesh, face_texture, face_visible,
    faces_below, faces_mesh, layer_faces, resolves_before, row_faces, voxel_faces, voxel_resolves,
    VoxelFace,
};
use crate::seq_facts::{lemma_concat_contains, lemma_push_contains};
use crate::terrain::{is_terrain, surface_height};
use crate::vertex::{lemma_triangle_on_side_belongs_to_it, on_side, Vertex};

verus! {

proof fn lemma_voxel_faces_contains(
    chunk: &Chunk,
    side_blocks: &[[[Block; 16]; 256]; 4],
    y: int,
    x: int,
    z: int,
    n: int,
    f: VoxelFace,
)
    requires
        0 <= n <= 6,
    ensures
        voxel_faces(chunk, side_blocks, y, x, z, n).contains(f) <==> {
            &&& f.y == y
            &&& f.x == x
            &&& f.z == z
            &&& f.direction.index() < n
            &&& face_visible(chunk, side_blocks, f)
        },
    decreases n,
{
    if n > 0 {
        lemma_voxel_faces_contains(chunk, side_blocks, y, x, z, n - 1, f);
        let before = voxel_faces(chunk, side_blocks, y, x, z, n - 1);
        let g = VoxelFace { y, x, z, direction: direction_at(n - 1) };
        lemma_push_contains(before, g, f);
        assert(f.direction.index() == n - 1 <==> f.direction == direction_at(n - 1));
    }
}

proof fn lemma_row_faces_contains(
    chunk: &Chunk,
    side_blocks: &[[[Block; 16]; 256]; 4],
    y: int,
    x: int,
    n: int,
    f: VoxelFace,
)
    requires
        0 <= n <= 16,
    ensures
        row_faces(chunk, side_blocks, y, x, n).contains(f) <==> {
            &&& f.y == y
            &&& f.x == x
            &&& 0 <= f.z < n
            &&& face_visible(chunk, side_blocks, f)
        },
    decreases n,
{
    if n > 0 {
        lemma_row_faces_contains(chunk, side_blocks, y, x, n - 1, f);
        lemma_voxel_faces_contains(chunk, side_blocks, y, x, n - 1, 6, f);
        lemma_concat_contains(
            row_faces(chunk, side_blocks, y, x, n - 1),
            voxel_faces(chunk, side_blocks, y, x, n - 1, 6),
            f,
        );
    }
}

proof fn lemma_layer_faces_contains(
    chunk: &Chunk,
    side_blocks: &[[[Block; 16]; 256]; 4],
    y: int,
    n: int,
    f: VoxelFace,
)
    requires
        0 <= n <= 16,
    ensures
        layer_faces(chunk, side_blocks, y, n).contains(f) <==> {
            &&& f.y == y
            &&& 0 <= f.x < n
            &&& face_visible(chunk, side_blocks, f)
        },
    decreases n,
{
    if n > 0 {
        lemma_layer_faces_contains(chunk, side_blocks, y, n - 1, f);
        lemma_row_faces_contains(chunk, side_blocks, y, n - 1, 16, f);
        lemma_concat_contains(
            layer_faces(chunk, side_blocks, y, n - 1),
            row_faces(chunk, side_blocks, y, n - 1, 16),
            f,
        );
    }
}

proof fn lemma_faces_below_contains(
    chunk: &Chunk,
    side_blocks: &[[[Block; 16]; 256]; 4],
    n: int,
    f: VoxelFace,
)
    requires
        0 <= n <= 256,
    ensures
        faces_below(chunk, side_blocks, n).contains(f) <==> {
            &&& 0 <= f.y < n
            &&& face_visible(chunk, side_blocks, f)
        },
    decreases n,
{
    if n > 0 {
        lemma_faces_below_contains(chunk, side_blocks, n - 1, f);
        lemma_layer_faces_contains(chunk, side_blocks, n - 1, 16, f);
        lemma_concat_contains(
            faces_below(chunk, side_blocks, n - 1),
            layer_faces(chunk, side_blocks, n - 1, 16),
            f,
        );
    }
}

/// A face is among the drawn faces of a chunk exactly when its voxel is
/// solid and the block that it looks at is Air.
pub proof fn lemma_drawn_faces(chunk: &Chunk, side_blocks: &[[[Block; 16]; 256]; 4], f: VoxelFace)
    ensures
        chunk_faces(chunk, side_blocks).contains(f) <==> face_visible(chunk, side_blocks, f),
{
    lemma_faces_below_contains(chunk, side_blocks, 256, f);
}

/// The voxel one step from `(y, x, z)` towards `direction`.
pub open spec fn step(y: int, x: int, z: int, direction: Cardinal) -> (int, int, int) {
    match direction {
        Cardinal::Up => (y + 1, x, z),
        Cardinal::Down => (y - 1, x, z),
        Cardinal::North => (y, x + 1, z),
        Cardinal::South => (y, x - 1, z),
        Cardinal::East => (y, x, z - 1),
        Cardinal::West => (y, x, z + 1),
    }
}

/// The face that two solid voxels of a chunk share is drawn from neither
/// side, whatever their kinds and whatever the neighbouring chunks hold.
pub proof fn lemma_shared_face_is_culled(
    chunk: &Chunk,
    side_blocks: &[[[Block; 16]; 256]; 4],
    y: int,
    x: int,
    z: int,
    direction: Cardinal,
)
    requires
        in_chunk(y, x, z),
        in_chunk(step(y, x, z, direction).0, step(y, x, z, direction).1, step(y, x, z, direction).2),
        chunk.block_at(y, x, z) != Block::Air,
        chunk.block_at(
            step(y, x, z, direction).0,
            step(y, x, z, direction).1,
            step(y, x, z, direction).2,
        ) != Block::Air,
    ensures
        !chunk_faces(chunk, side_blocks).contains(VoxelFace { y, x, z, direction }),
        !chunk_faces(chunk, side_blocks).contains(
            VoxelFace {
                y: step(y, x, z, direction).0,
                x: step(y, x, z, direction).1,
                z: step(y, x, z, direction).2,
                direction: direction.opposite(),
            },
        ),
{
    let there = step(y, x, z, direction);
    lemma_drawn_faces(chunk, side_blocks, VoxelFace { y, x, z, direction });
    lemma_drawn_faces(
        chunk,
        side_blocks,
        VoxelFace { y: there.0, x: there.1, z: there.2, direction: direction.opposite() },
    );
}

/// `north_sides` and `south_sides` hold, on the side where the two chunks
/// meet, the boundary layer that the other chunk really has.
pub open spec fn sides_exchanged_along_x(
    south: &Chunk,
    south_sides: &[[[Block; 16]; 256]; 4],
    north: &Chunk,
    north_sides: &[[[Block; 16]; 256]; 4],
) -> bool {
    forall|y: int, i: int|
        0 <= y < 256 && 0 <= i < 16 ==> {
            &&& #[trigger] south_sides[0][y][i] == north.side_block(Cardinal::South, y, i)
            &&& #[trigger] north_sides[1][y][i] == south.side_block(Cardinal::North, y, i)
        }
}

/// Where a chunk and its northern neighbour meet, each meshed with the
/// other's real boundary layer, the two meshes agree on every cell of the
/// seam: the chunk draws its north face at `x = 15` exactly when its voxel is
/// solid and the neighbour's is Air, the neighbour draws its south face at
/// `x = 0` exactly in the mirrored case, so the seam face is never drawn
/// twice, and it is drawn once exactly when one of the two voxels is solid
/// and the other is Air. Where both voxels are solid or both are Air, the
/// two sides show the same: nothing.
pub proof fn lemma_seam_faces_agree_along_x(
    south: &Chunk,
    south_sides: &[[[Block; 16]; 256]; 4],
    north: &Chunk,
    north_sides: &[[[Block; 16]; 256]; 4],
    y: int,
    z: int,
)
    requires
        sides_exchanged_along_x(south, south_sides, north, north_sides),
        0 <= y < 256,
        0 <= z < 16,
    ensures
        ({
            let here = south.block_at(y, 15, z) != Block::Air;
            let there = north.block_at(y, 0, z) != Block::Air;
            let from_south = chunk_faces(south, south_sides).contains(
                VoxelFace { y, x: 15, z, direction: Cardinal::North },
            );
            let from_north = chunk_faces(north, north_sides).contains(
                VoxelFace { y, x: 0, z, direction: Cardinal::South },
            );
            &&& from_south <==> here && !there
            &&& from_north <==> there && !here
            &&& !(from_south && from_north)
            &&& (from_south || from_north) <==> here != there
            &&& here == there ==> from_south == from_north
        }),
{
    lemma_drawn_faces(south, south_sides, VoxelFace { y, x: 15, z, direction: Cardinal::North });
    lemma_drawn_faces(north, north_sides, VoxelFace { y, x: 0, z, direction: Cardinal::South });
    assert(south_sides[0][y][z] == north.side_block(Cardinal::South, y, z));
    assert(north_sides[1][y][z] == south.side_block(Cardinal::North, y, z));
}

/// `west_sides` and `east_sides` hold, on the side where the two chunks
/// meet, the boundary layer that the other chunk really has.
pub open spec fn sides_exchanged_along_z(
    east: &Chunk,
    east_sides: &[[[Block; 16]; 256]; 4],
    west: &Chunk,
    west_sides: &[[[Block; 16]; 256]; 4],
) -> bool {
    forall|y: int, i: int|
        0 <= y < 256 && 0 <= i < 16 ==> {
            &&& #[trigger] east_sides[3][y][i] == west.side_block(Cardinal::West, y, i)
            &&& #[trigger] west_sides[2][y][i] == east.side_block(Cardinal::East, y, i)
        }
}

/// The same agreement where a chunk meets its western neighbour (the one at
/// the next larger `z`): the west face at `z = 15` and the neighbour's east
/// face at `z = 0` are never both drawn, and one of them is drawn exactly
/// when one of the two voxels is solid and the other is Air.
pub proof fn lemma_seam_faces_agree_along_z(
    east: &Chunk,
    east_sides: &[[[Block; 16]; 256]; 4],
    west: &Chunk,
    west_sides: &[[[Block; 16]; 256]; 4],
    y: int,
    x: int,
)
    requires
        sides_exchanged_along_z(east, east_sides, west, west_sides),
        0 <= y < 256,
        0 <= x < 16,
    ensures
        ({
            let here = east.block_at(y, x, 15) != Block::Air;
            let there = west.block_at(y, x, 0) != Block::Air;
            let from_east = chunk_faces(east, east_sides).contains(
                VoxelFace { y, x, z: 15, direction: Cardinal::West },
            );
            let from_west = chunk_faces(west, west_sides).contains(
                VoxelFace { y, x, z: 0, direction: Cardinal::East },
            );
            &&& from_east <==> here && !there
            &&& from_west <==> there && !here
            &&& !(from_east && from_west)
            &&& (from_east || from_west) <==> here != there
            &&& here == there ==> from_east == from_west
        }),
{
    lemma_drawn_faces(east, east_sides, VoxelFace { y, x, z: 15, direction: Cardinal::West });
    lemma_drawn_faces(west, west_sides, VoxelFace { y, x, z: 0, direction: Cardinal::East });
    assert(east_sides[3][y][x] == west.side_block(Cardinal::West, y, x));
    assert(west_sides[2][y][x] == east.side_block(Cardinal::East, y, x));
}

/// A mesh has six vertices for every drawn face.
pub proof fn lemma_mesh_len(chunk: &Chunk, names: Seq<Seq<char>>, faces: Seq<VoxelFace>)
    ensures
        faces_mesh(chunk, names, faces).len() == 6 * faces.len(),
    decreases faces.len(),
{
    if faces.len() > 0 {
        lemma_mesh_len(chunk, names, faces.drop_last());
    }
}

/// A chunk that holds nothing but Air has no drawn face, an empty mesh, and
/// asks the atlas for nothing.
pub proof fn lemma_empty_chunk_has_empty_mesh(
    chunk: &Chunk,
    side_blocks: &[[[Block; 16]; 256]; 4],
    names: Seq<Seq<char>>,
)
    requires
        chunk.is_empty(),
    ensures
        chunk_faces(chunk, side_blocks) == Seq::<VoxelFace>::empty(),
        chunk_mesh(chunk, side_blocks, names) == Seq::<Vertex>::empty(),
        resolves_before(chunk, names, 65536),
{
    let faces = chunk_faces(chunk, side_blocks);
    if faces.len() > 0 {
        let f = faces[0];
        assert(faces.contains(f));
        lemma_drawn_faces(chunk, side_blocks, f);
        assert(chunk.block_at(f.y, f.x, f.z) == Block::Air);
    }
    assert(faces =~= Seq::<VoxelFace>::empty());
    assert forall|y: int, x: int, z: int| in_chunk(y, x, z) implies #[trigger] voxel_resolves(
        chunk,
        names,
        y,
        x,
        z,
    ) by {
        assert(chunk.block_at(y, x, z) == Block::Air);
    }
}

/// Terrain shows its surface: the topmost block of every column is drawn
/// from above, whatever the neighbouring chunks hold. So the mesh of a
/// terrain chunk is never empty.
pub proof fn lemma_terrain_shows_its_surface(
    chunk: &Chunk,
    heights: &[[i64; 16]; 16],
    side_blocks: &[[[Block; 16]; 256]; 4],
    names: Seq<Seq<char>>,
    x: int,
    z: int,
)
    requires
        is_terrain(chunk, heights),
        0 <= x < 16,
        0 <= z < 16,
    ensures
        chunk_faces(chunk, side_blocks).contains(
            VoxelFace { y: surface_height(heights[x][z] as int), x, z, direction: Cardinal::Up },
        ),
        chunk_mesh(chunk, side_blocks, names).len() == 6 * chunk_faces(chunk, side_blocks).len(),
        chunk_mesh(chunk, side_blocks, names).len() >= 6,
{
    let h = surface_height(heights[x][z] as int);
    let f = VoxelFace { y: h, x, z, direction: Cardinal::Up };
    assert(in_chunk(h, x, z));
    assert(chunk.block_at(h, x, z) != Block::Air);
    if h < 255 {
        assert(in_chunk(h + 1, x, z));
        assert(chunk.block_at(h + 1, x, z) == Block::Air);
    }
    lemma_drawn_faces(chunk, side_blocks, f);
    lemma_mesh_len(chunk, names, chunk_faces(chunk, side_blocks));
}

/// Vertex `i` of the `k`-th drawn face stands at place `6 * k + i` of the
/// mesh.
pub proof fn lemma_mesh_is_made_of_faces(
    chunk: &Chunk,
    names: Seq<Seq<char>>,
    faces: Seq<VoxelFace>,
    k: int,
    i: int,
)
    requires
        0 <= k < faces.len(),
        0 <= i < 6,
    ensures
        6 * k + i < faces_mesh(chunk, names, faces).len(),
        faces_mesh(chunk, names, faces)[6 * k + i] == face_mesh(chunk, names, faces[k])[i],
    decreases faces.len(),
{
    lemma_mesh_len(chunk, names, faces);
    lemma_mesh_len(chunk, names, faces.drop_last());
    if k < faces.len() - 1 {
        lemma_mesh_is_made_of_faces(chunk, names, faces.drop_last(), k, i);
    }
}

/// No triangle of a chunk's mesh lies on the face that two solid voxels of
/// the chunk share: of any three vertices that make up a triangle of the
/// mesh, at least one is off the unit square between the two voxels.
pub proof fn lemma_no_triangle_on_shared_face(
    chunk: &Chunk,
    side_blocks: &[[[Block; 16]; 256]; 4],
    names: Seq<Seq<char>>,
    y: int,
    x: int,
    z: int,
    direction: Cardinal,
    t: int,
)
    requires
        in_chunk(y, x, z),
        in_chunk(step(y, x, z, direction).0, step(y, x, z, direction).1, step(y, x, z, direction).2),
        chunk.block_at(y, x, z) != Block::Air,
        chunk.block_at(
            step(y, x, z, direction).0,
            step(y, x, z, direction).1,
            step(y, x, z, direction).2,
        ) != Block::Air,
        0 <= t,
        3 * t + 3 <= chunk_mesh(chunk, side_blocks, names).len(),
    ensures
        ({
            let mesh = chunk_mesh(chunk, side_blocks, names);
            let wx = x + 16 * chunk.spec_position().x;
            let wz = z + 16 * chunk.spec_position().z;
            !({
                &&& on_side(mesh[3 * t].position, wx, y, wz, direction)
                &&& on_side(mesh[3 * t + 1].position, wx, y, wz, direction)
                &&& on_side(mesh[3 * t + 2].position, wx, y, wz, direction)
            })
        }),
{
    let faces = chunk_faces(chunk, side_blocks);
    let mesh = chunk_mesh(chunk, side_blocks, names);
    let wx = x + 16 * chunk.spec_position().x;
    let wz = z + 16 * chunk.spec_position().z;
    lemma_mesh_len(chunk, names, faces);
    let k = t / 2;
    let first = 3 * (t % 2);
    assert(0 <= k < faces.len());
    assert(3 * t == 6 * k + first);
    let g = faces[k];
    assert(faces.contains(g));
    lemma_drawn_faces(chunk, side_blocks, g);
    lemma_mesh_is_made_of_faces(chunk, names, faces, k, first);
    lemma_mesh_is_made_of_faces(chunk, names, faces, k, first + 1);
    lemma_mesh_is_made_of_faces(chunk, names, faces, k, first + 2);
    if on_side(mesh[3 * t].position, wx, y, wz, direction) && on_side(
        mesh[3 * t + 1].position,
        wx,
        y,
        wz,
        direction,
    ) && on_side(mesh[3 * t + 2].position, wx, y, wz, direction) {
        lemma_triangle_on_side_belongs_to_it(
            g.direction,
            g.x + 16 * chunk.spec_position().x,
            g.y,
            g.z + 16 * chunk.spec_position().z,
            face_texture(chunk, names, g),
            first,
            direction,
            wx,
            y,
            wz,
        );
        lemma_shared_face_is_culled(chunk, side_blocks, y, x, z, direction);
        let there = step(y, x, z, direction);
        if g.direction == direction {
            assert(g == VoxelFace { y, x, z, direction });
        } else {
            assert(g == VoxelFace {
                y: there.0,
                x: there.1,
                z: there.2,
                direction: direction.opposite(),
            });
        }
    }
}

} // verus!
