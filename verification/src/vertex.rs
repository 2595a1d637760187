//! Mesh vertices and the two triangles that cover one face of a voxel.
//!
//! A vertex position is stored as `[z, y - HEIGHT_BASELINE, x]` of the world
//! position it stands for: the first axis runs along world `z`, the second is
//! the height lowered by the baseline, the third runs along world `x`.

use vstd::prelude::*;
use crate::block::Cardinal;
use crate::texture::TextureSlot;

verus! {

/// Heights are lowered by this much when a voxel becomes geometry.
pub const HEIGHT_BASELINE: i64 = 60;

/// One corner of a triangle: where it is, and which texel of which texture
/// layer it shows (`tex_coord` is `[u, v, layer]`).
#[derive(Clone, Copy, PartialEq, Eq, Debug)]
pub struct Vertex {
    pub position: [i64; 3],
    pub tex_coord: [TextureSlot; 3],
}

/// Offset of cube corner `i` (0 to 7) from the cube's anchor, along the three
/// vertex axes.
pub open spec fn corner_offset(i: int) -> (int, int, int) {
    if i == 0 {
        (0, 0, 0)
    } else if i == 1 {
        (1, 1, 0)
    } else if i == 2 {
        (1, 0, 0)
    } else if i == 3 {
        (0, 1, 0)
    } else if i == 4 {
        (1, 1, 1)
    } else if i == 5 {
        (0, 1, 1)
    } else if i == 6 {
        (1, 0, 1)
    } else {
        (0, 0, 1)
    }
}

/// The cube corner that vertex `k` (0 to 5) of the face towards `direction`
/// sits on. Vertices 0 to 2 are the first triangle, 3 to 5 the second.
pub open spec fn face_corner(direction: Cardinal, k: int) -> int {
    match direction {
        Cardinal::North => if k == 0 { 6 } else if k == 1 { 5 } else if k == 2 { 7 } else if k == 3 { 6 } else if k == 4 { 4 } else { 5 },
        Cardinal::South => if k == 0 { 0 } else if k == 1 { 3 } else if k == 2 { 1 } else if k == 3 { 0 } else if k == 4 { 1 } else { 2 },
        Cardinal::East => if k == 0 { 7 } else if k == 1 { 3 } else if k == 2 { 0 } else if k == 3 { 7 } else if k == 4 { 5 } else { 3 },
        Cardinal::West => if k == 0 { 2 } else if k == 1 { 4 } else if k == 2 { 6 } else if k == 3 { 2 } else if k == 4 { 1 } else { 4 },
        Cardinal::Up => if k == 0 { 3 } else if k == 1 { 5 } else if k == 2 { 4 } else if k == 3 { 3 } else if k == 4 { 4 } else { 1 },
        Cardinal::Down => if k == 0 { 2 } else if k == 1 { 7 } else if k == 2 { 0 } else if k == 3 { 2 } else if k == 4 { 6 } else { 7 },
    }
}

/// The texel `(u, v)` that vertex `k` of the face towards `direction` shows.
pub open spec fn face_uv(direction: Cardinal, k: int) -> (int, int) {
    match direction {
        Cardinal::South | Cardinal::Up => if k == 0 { (0, 1) } else if k == 1 { (0, 0) } else if k == 2 { (1, 0) } else if k == 3 { (0, 1) } else if k == 4 { (1, 0) } else { (1, 1) },
        _ => if k == 0 { (0, 1) } else if k == 1 { (1, 0) } else if k == 2 { (1, 1) } else if k == 3 { (0, 1) } else if k == 4 { (0, 0) } else { (1, 0) },
    }
}

/// Vertex `k` of the face towards `direction` of the voxel at world position
/// `(x, y, z)`, textured with `texture_id`.
pub open spec fn face_vertex(
    direction: Cardinal,
    x: int,
    y: int,
    z: int,
    texture_id: TextureSlot,
    k: int,
) -> Vertex {
    let offset = corner_offset(face_corner(direction, k));
    let uv = face_uv(direction, k);
    Vertex {
        position: [(z + offset.0) as i64, (y - HEIGHT_BASELINE + offset.1) as i64, (x + offset.2) as i64],
        tex_coord: [uv.0 as usize, uv.1 as usize, texture_id],
    }
}

/// The six vertices of the face towards `direction` of the voxel at world
/// position `(x, y, z)`.
pub open spec fn face_vertices(
    direction: Cardinal,
    x: int,
    y: int,
    z: int,
    texture_id: TextureSlot,
) -> Seq<Vertex> {
    Seq::new(6, |k: int| face_vertex(direction, x, y, z, texture_id, k))
}

/// The positions for which every corner of the voxel's cube is representable.
pub open spec fn position_in_range(x: int, y: int, z: int) -> bool {
    &&& i64::MIN <= x < i64::MAX
    &&& i64::MIN + HEIGHT_BASELINE <= y < i64::MAX
    &&& i64::MIN <= z < i64::MAX
}

fn vertex(corner: [i64; 3], u: TextureSlot, v: TextureSlot, texture_id: TextureSlot) -> (r: Vertex)
    ensures
        r == (Vertex { position: corner, tex_coord: [u, v, texture_id] }),
{
    Vertex { position: corner, tex_coord: [u, v, texture_id] }
}

/// Builds the two triangles of the face towards `direction` of the voxel at
/// world position `position` (`[x, y, z]`), textured with `texture_id`.
pub fn face(direction: Cardinal, position: [i64; 3], texture_id: TextureSlot) -> (vertices: [Vertex; 6])
    requires
        position_in_range(position[0] as int, position[1] as int, position[2] as int),
    ensures
        vertices@ == face_vertices(
            direction,
            position[0] as int,
            position[1] as int,
            position[2] as int,
            texture_id,
        ),
{
    let x = position[0];
    let y = position[1] - HEIGHT_BASELINE;
    let z = position[2];
    let c0: [i64; 3] = [z, y, x];
    let c1: [i64; 3] = [z + 1, y + 1, x];
    let c2: [i64; 3] = [z + 1, y, x];
    let c3: [i64; 3] = [z, y + 1, x];
    let c4: [i64; 3] = [z + 1, y + 1, x + 1];
    let c5: [i64; 3] = [z, y + 1, x + 1];
    let c6: [i64; 3] = [z + 1, y, x + 1];
    let c7: [i64; 3] = [z, y, x + 1];
    let t = texture_id;
    let vertices = match direction {
        Cardinal::North => [
            vertex(c6, 0, 1, t),
            vertex(c5, 1, 0, t),
            vertex(c7, 1, 1, t),
            vertex(c6, 0, 1, t),
            vertex(c4, 0, 0, t),
            vertex(c5, 1, 0, t),
        ],
        Cardinal::South => [
            vertex(c0, 0, 1, t),
            vertex(c3, 0, 0, t),
            vertex(c1, 1, 0, t),
            vertex(c0, 0, 1, t),
            vertex(c1, 1, 0, t),
            vertex(c2, 1, 1, t),
        ],
        Cardinal::East => [
            vertex(c7, 0, 1, t),
            vertex(c3, 1, 0, t),
            vertex(c0, 1, 1, t),
            vertex(c7, 0, 1, t),
            vertex(c5, 0, 0, t),
            vertex(c3, 1, 0, t),
        ],
        Cardinal::West => [
            vertex(c2, 0, 1, t),
            vertex(c4, 1, 0, t),
            vertex(c6, 1, 1, t),
            vertex(c2, 0, 1, t),
            vertex(c1, 0, 0, t),
            vertex(c4, 1, 0, t),
        ],
        Cardinal::Up => [
            vertex(c3, 0, 1, t),
            vertex(c5, 0, 0, t),
            vertex(c4, 1, 0, t),
            vertex(c3, 0, 1, t),
            vertex(c4, 1, 0, t),
            vertex(c1, 1, 1, t),
        ],
        Cardinal::Down => [
            vertex(c2, 0, 1, t),
            vertex(c7, 1, 0, t),
            vertex(c0, 1, 1, t),
            vertex(c2, 0, 1, t),
            vertex(c6, 0, 0, t),
            vertex(c7, 1, 0, t),
        ],
    };
    assert(vertices@ =~= face_vertices(
        direction,
        position[0] as int,
        position[1] as int,
        position[2] as int,
        texture_id,
    ));
    vertices
}

/// The unit step towards `direction`, along the three vertex axes.
pub open spec fn outward_normal(direction: Cardinal) -> (int, int, int) {
    match direction {
        Cardinal::Up => (0, 1, 0),
        Cardinal::Down => (0, -1, 0),
        Cardinal::North => (0, 0, 1),
        Cardinal::South => (0, 0, -1),
        Cardinal::East => (-1, 0, 0),
        Cardinal::West => (1, 0, 0),
    }
}

/// Cross product of `b - a` and `c - a`.
pub open spec fn triangle_normal(a: Vertex, b: Vertex, c: Vertex) -> (int, int, int) {
    let u = (b.position[0] - a.position[0], b.position[1] - a.position[1], b.position[2] - a.position[2]);
    let v = (c.position[0] - a.position[0], c.position[1] - a.position[1], c.position[2] - a.position[2]);
    (u.1 * v.2 - u.2 * v.1, u.2 * v.0 - u.0 * v.2, u.0 * v.1 - u.1 * v.0)
}

/// The position `p` of a vertex lies on the unit square that is the side
/// towards `direction` of the voxel at world position `(x, y, z)`.
pub open spec fn on_side(p: [i64; 3], x: int, y: int, z: int, direction: Cardinal) -> bool {
    &&& z <= p[0] <= z + 1
    &&& y - HEIGHT_BASELINE <= p[1] <= y - HEIGHT_BASELINE + 1
    &&& x <= p[2] <= x + 1
    &&& match direction {
        Cardinal::East => p[0] == z,
        Cardinal::West => p[0] == z + 1,
        Cardinal::Down => p[1] == y - HEIGHT_BASELINE,
        Cardinal::Up => p[1] == y - HEIGHT_BASELINE + 1,
        Cardinal::South => p[2] == x,
        Cardinal::North => p[2] == x + 1,
    }
}

/// The world position one step from `(x, y, z)` towards `direction`.
pub open spec fn step_towards(x: int, y: int, z: int, direction: Cardinal) -> (int, int, int) {
    match direction {
        Cardinal::Up => (x, y + 1, z),
        Cardinal::Down => (x, y - 1, z),
        Cardinal::North => (x + 1, y, z),
        Cardinal::South => (x - 1, y, z),
        Cardinal::East => (x, y, z - 1),
        Cardinal::West => (x, y, z + 1),
    }
}

/// Only two faces have a triangle on a given side of a given voxel: the face
/// of that voxel towards that side, and the face of the voxel beyond, which
/// looks back at it.
pub proof fn lemma_triangle_on_side_belongs_to_it(
    facing: Cardinal,
    wx: int,
    wy: int,
    wz: int,
    texture_id: TextureSlot,
    first: int,
    direction: Cardinal,
    x: int,
    y: int,
    z: int,
)
    requires
        position_in_range(wx, wy, wz),
        first == 0 || first == 3,
        ({
            let f = face_vertices(facing, wx, wy, wz, texture_id);
            &&& on_side(f[first].position, x, y, z, direction)
            &&& on_side(f[first + 1].position, x, y, z, direction)
            &&& on_side(f[first + 2].position, x, y, z, direction)
        }),
    ensures
        (facing == direction && (wx, wy, wz) == (x, y, z)) || (facing == direction.opposite() && (
            wx,
            wy,
            wz,
        ) == step_towards(x, y, z, direction)),
{
    let f = face_vertices(facing, wx, wy, wz, texture_id);
    let a = f[first].position;
    let b = f[first + 1].position;
    let c = f[first + 2].position;
    assert(a[0] == wz + corner_offset(face_corner(facing, first)).0);
    assert(b[0] == wz + corner_offset(face_corner(facing, first + 1)).0);
    assert(c[0] == wz + corner_offset(face_corner(facing, first + 2)).0);
    assert(a[1] == wy - HEIGHT_BASELINE + corner_offset(face_corner(facing, first)).1);
    assert(b[1] == wy - HEIGHT_BASELINE + corner_offset(face_corner(facing, first + 1)).1);
    assert(c[1] == wy - HEIGHT_BASELINE + corner_offset(face_corner(facing, first + 2)).1);
    assert(a[2] == wx + corner_offset(face_corner(facing, first)).2);
    assert(b[2] == wx + corner_offset(face_corner(facing, first + 1)).2);
    assert(c[2] == wx + corner_offset(face_corner(facing, first + 2)).2);
}

/// Every vertex of a face is a corner of the voxel's unit cube and lies on
/// the side of the cube that the face is named after.
pub proof fn lemma_face_lies_on_its_side(
    direction: Cardinal,
    x: int,
    y: int,
    z: int,
    texture_id: TextureSlot,
    k: int,
)
    requires
        position_in_range(x, y, z),
        0 <= k < 6,
    ensures
        on_side(face_vertices(direction, x, y, z, texture_id)[k].position, x, y, z, direction),
{
}

/// Both triangles of a face wind so that their normal is the unit step
/// towards the face's direction: seen from outside the cube they run
/// counter-clockwise, and each covers half of the unit square.
pub proof fn lemma_face_winds_outward(
    direction: Cardinal,
    x: int,
    y: int,
    z: int,
    texture_id: TextureSlot,
)
    requires
        position_in_range(x, y, z),
    ensures
        ({
            let f = face_vertices(direction, x, y, z, texture_id);
            &&& triangle_normal(f[0], f[1], f[2]) == outward_normal(direction)
            &&& triangle_normal(f[3], f[4], f[5]) == outward_normal(direction)
        }),
{
    let f = face_vertices(direction, x, y, z, texture_id);
    match direction {
        Cardinal::Up => {
            lemma_triangle_normal(f[0], f[1], f[2], 0, 0, 1, 1, 0, 1);
            lemma_triangle_normal(f[3], f[4], f[5], 1, 0, 1, 1, 0, 0);
        },
        Cardinal::Down => {
            lemma_triangle_normal(f[0], f[1], f[2], -1, 0, 1, -1, 0, 0);
            lemma_triangle_normal(f[3], f[4], f[5], 0, 0, 1, -1, 0, 1);
        },
        Cardinal::North => {
            lemma_triangle_normal(f[0], f[1], f[2], -1, 1, 0, -1, 0, 0);
            lemma_triangle_normal(f[3], f[4], f[5], 0, 1, 0, -1, 1, 0);
        },
        Cardinal::South => {
            lemma_triangle_normal(f[0], f[1], f[2], 0, 1, 0, 1, 1, 0);
            lemma_triangle_normal(f[3], f[4], f[5], 1, 1, 0, 1, 0, 0);
        },
        Cardinal::East => {
            lemma_triangle_normal(f[0], f[1], f[2], 0, 1, -1, 0, 0, -1);
            lemma_triangle_normal(f[3], f[4], f[5], 0, 1, 0, 0, 1, -1);
        },
        Cardinal::West => {
            lemma_triangle_normal(f[0], f[1], f[2], 0, 1, 1, 0, 0, 1);
            lemma_triangle_normal(f[3], f[4], f[5], 0, 1, 0, 0, 1, 1);
        },
    }
}

proof fn lemma_triangle_normal(
    a: Vertex,
    b: Vertex,
    c: Vertex,
    u0: int,
    u1: int,
    u2: int,
    v0: int,
    v1: int,
    v2: int,
)
    requires
        b.position[0] - a.position[0] == u0,
        b.position[1] - a.position[1] == u1,
        b.position[2] - a.position[2] == u2,
        c.position[0] - a.position[0] == v0,
        c.position[1] - a.position[1] == v1,
        c.position[2] - a.position[2] == v2,
    ensures
        triangle_normal(a, b, c) == (u1 * v2 - u2 * v1, u2 * v0 - u0 * v2, u0 * v1 - u1 * v0),
{
}

/// Every vertex of a face carries the face's texture layer, and a texel
/// coordinate that is a corner of the texture.
pub proof fn lemma_face_texture(
    direction: Cardinal,
    x: int,
    y: int,
    z: int,
    texture_id: TextureSlot,
    k: int,
)
    requires
        0 <= k < 6,
    ensures
        ({
            let t = face_vertices(direction, x, y, z, texture_id)[k].tex_coord;
            &&& t[0] <= 1
            &&& t[1] <= 1
            &&& t[2] == texture_id
        }),
{
}

} // verus!
