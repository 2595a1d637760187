//! What one streaming cycle owes: which boundary layers a chunk is meshed
//! against, which chunks get a mesh, what is handed out for upload and for
//! drawing, and which chunks leave.

use vstd::prelude::*;
use crate::block::{Block, Cardinal};
use crate::chunk::{Chunk, ChunkCoordinate, MeshHandle};
use crate::mesh::{
    handle_of, lemma_missing_texture_does_not_resolve, mesh_outcome, resolves, resolves_before,
    MeshUpload,
};
use crate::seq_facts::{lemma_filter_agrees, lemma_filter_contains, lemma_filter_keeps_all};
use crate::terrain::is_terrain;
use crate::texture::ConfigurationError;
use crate::vertex::Vertex;
use crate::window::{is_kept, render_disc};

verus! {

/// The chunk next to `c` on side `side` of the four horizontal sides
/// (0 north, 1 south, 2 east, 3 west), if the chunk grid reaches that far.
pub open spec fn neighbour(c: ChunkCoordinate, side: int) -> Option<ChunkCoordinate> {
    if side == 0 {
        if c.x < i32::MAX {
            Some(ChunkCoordinate { x: (c.x + 1) as i32, z: c.z })
        } else {
            None
        }
    } else if side == 1 {
        if c.x > i32::MIN {
            Some(ChunkCoordinate { x: (c.x - 1) as i32, z: c.z })
        } else {
            None
        }
    } else if side == 2 {
        if c.z > i32::MIN {
            Some(ChunkCoordinate { x: c.x, z: (c.z - 1) as i32 })
        } else {
            None
        }
    } else {
        if c.z < i32::MAX {
            Some(ChunkCoordinate { x: c.x, z: (c.z + 1) as i32 })
        } else {
            None
        }
    }
}

/// The layer of the neighbour on side `side` that touches the chunk: the
/// northern neighbour's layer at `x = 0`, the southern neighbour's at
/// `x = 15`, the eastern neighbour's at `z = 15`, the western neighbour's at
/// `z = 0`, each named as `Chunk::get_side_blocks` names it.
pub open spec fn touching_layer(side: int) -> Cardinal {
    if side == 0 {
        Cardinal::South
    } else if side == 1 {
        Cardinal::North
    } else if side == 2 {
        Cardinal::East
    } else {
        Cardinal::West
    }
}

/// The block that the chunk at `c` sees across its edge on side `side`, at
/// height `y` and place `i` along the edge: the neighbour's block where the
/// neighbour is resident, and Stone where it is not, so that the edge of the
/// loaded area shows no faces that would vanish once the neighbour arrives.
pub open spec fn boundary_block(
    chunks: Map<ChunkCoordinate, Chunk>,
    c: ChunkCoordinate,
    side: int,
    y: int,
    i: int,
) -> Block {
    match neighbour(c, side) {
        Some(n) => if chunks.contains_key(n) {
            chunks[n].side_block(touching_layer(side), y, i)
        } else {
            Block::Stone
        },
        None => Block::Stone,
    }
}

/// `side_blocks` are the four boundary layers of the chunk at `c`.
pub open spec fn is_boundary_of(
    chunks: Map<ChunkCoordinate, Chunk>,
    c: ChunkCoordinate,
    side_blocks: &[[[Block; 16]; 256]; 4],
) -> bool {
    forall|side: int, y: int, i: int|
        0 <= side < 4 && 0 <= y < 256 && 0 <= i < 16 ==> #[trigger] side_blocks[side][y][i]
            == boundary_block(chunks, c, side, y, i)
}

/// The four boundary layers of the chunk at `c`.
pub open spec fn boundary_of(chunks: Map<ChunkCoordinate, Chunk>, c: ChunkCoordinate) -> [[[Block; 16]; 256]; 4] {
    choose|side_blocks: [[[Block; 16]; 256]; 4]| is_boundary_of(chunks, c, &side_blocks)
}

/// Boundary layers are determined by the resident chunks.
pub proof fn lemma_boundary_is_unique(
    chunks: Map<ChunkCoordinate, Chunk>,
    c: ChunkCoordinate,
    side_blocks: &[[[Block; 16]; 256]; 4],
)
    requires
        is_boundary_of(chunks, c, side_blocks),
    ensures
        *side_blocks == boundary_of(chunks, c),
        is_boundary_of(chunks, c, &boundary_of(chunks, c)),
{
    let other = boundary_of(chunks, c);
    assert(is_boundary_of(chunks, c, &other));
    assert forall|side: int| 0 <= side < 4 implies side_blocks[side] == other[side] by {
        assert forall|y: int| 0 <= y < 256 implies side_blocks[side][y] == other[side][y] by {
            assert forall|i: int| 0 <= i < 16 implies side_blocks[side][y][i] == other[side][y][i] by {
                assert(side_blocks[side][y][i] == boundary_block(chunks, c, side, y, i));
                assert(other[side][y][i] == boundary_block(chunks, c, side, y, i));
            }
            assert(side_blocks[side][y] =~= other[side][y]);
        }
        assert(side_blocks[side] =~= other[side]);
    }
    assert(*side_blocks =~= other);
}

/// What meshing the chunk at `c` against its boundary layers yields.
pub open spec fn mesh_outcome_in(
    chunks: Map<ChunkCoordinate, Chunk>,
    c: ChunkCoordinate,
    names: Seq<Seq<char>>,
    result: Result<Seq<Vertex>, Seq<char>>,
) -> bool {
    mesh_outcome(&chunks[c], &boundary_of(chunks, c), names, result)
}

/// The coordinates without a resident chunk.
pub open spec fn is_missing(chunks: Map<ChunkCoordinate, Chunk>) -> spec_fn(ChunkCoordinate) -> bool {
    |c: ChunkCoordinate| !chunks.contains_key(c)
}

/// The coordinates whose chunk is resident and has no mesh yet.
pub open spec fn needs_mesh(chunks: Map<ChunkCoordinate, Chunk>) -> spec_fn(ChunkCoordinate) -> bool {
    |c: ChunkCoordinate| chunks.contains_key(c) && chunks[c].spec_buffer() is None
}

/// The coordinates whose chunk is resident and has a mesh.
pub open spec fn has_mesh(chunks: Map<ChunkCoordinate, Chunk>) -> spec_fn(ChunkCoordinate) -> bool {
    |c: ChunkCoordinate| chunks.contains_key(c) && chunks[c].spec_buffer() is Some
}

/// The handle and vertex count that the chunk at a coordinate remembers.
pub open spec fn buffer_in(chunks: Map<ChunkCoordinate, Chunk>) -> spec_fn(ChunkCoordinate) -> (
    MeshHandle,
    usize,
) {
    |c: ChunkCoordinate| chunks[c].spec_buffer()->0
}

/// The render batch over `disc`: handle and vertex count of every meshed
/// chunk of the disc, in the order of the disc.
pub open spec fn render_batch(chunks: Map<ChunkCoordinate, Chunk>, disc: Seq<ChunkCoordinate>) -> Seq<
    (MeshHandle, usize),
> {
    disc.filter(has_mesh(chunks)).map_values(buffer_in(chunks))
}

/// `upload` is the mesh of the chunk at `c`, under that chunk's handle.
pub open spec fn is_upload_of(
    upload: MeshUpload,
    chunks: Map<ChunkCoordinate, Chunk>,
    names: Seq<Seq<char>>,
    c: ChunkCoordinate,
) -> bool {
    &&& upload.handle == handle_of(c)
    &&& mesh_outcome_in(chunks, c, names, Ok(upload.vertices@))
}

/// `uploads` are the meshes of the chunks at `pending`, one for one.
pub open spec fn are_uploads_of(
    uploads: Seq<MeshUpload>,
    chunks: Map<ChunkCoordinate, Chunk>,
    names: Seq<Seq<char>>,
    pending: Seq<ChunkCoordinate>,
) -> bool {
    &&& uploads.len() == pending.len()
    &&& forall|k: int| 0 <= k < pending.len() ==> is_upload_of(#[trigger] uploads[k], chunks, names, pending[k])
}

/// Meshing the chunks at `pending` in order stops with the missing texture
/// `name`: some chunk fails with it, and every chunk before resolves.
pub open spec fn fails_with(
    chunks: Map<ChunkCoordinate, Chunk>,
    names: Seq<Seq<char>>,
    pending: Seq<ChunkCoordinate>,
    name: Seq<char>,
) -> bool {
    exists|k: int|
        {
            &&& 0 <= k < pending.len()
            &&& #[trigger] mesh_outcome_in(chunks, pending[k], names, Err(name))
            &&& forall|j: int|
                0 <= j < k ==> resolves_before(&chunks[#[trigger] pending[j]], names, 65536)
        }
}

/// What one streaming cycle hands out.
#[derive(Clone, Debug, PartialEq, Eq)]
pub struct StreamingCycle {
    /// The render batch: handle and vertex count of every chunk to draw.
    pub buffers: Vec<(MeshHandle, usize)>,
    /// The meshes built in this cycle, to be uploaded under their handles.
    pub uploads: Vec<MeshUpload>,
    /// The handles of the meshes whose chunks were dropped in this cycle.
    pub released: Vec<MeshHandle>,
}

/// Every pending chunk of the render disc around `focus` resolves: the
/// atlas holds every texture that a cycle there needs.
pub open spec fn pending_resolve(
    chunks: Map<ChunkCoordinate, Chunk>,
    names: Seq<Seq<char>>,
    focus: (int, int),
    distance: u32,
) -> bool {
    let pending = render_disc(focus, distance).filter(needs_mesh(chunks));
    forall|k: int| 0 <= k < pending.len() ==> resolves(&chunks[#[trigger] pending[k]], names)
}

/// A cycle that fails has a pending chunk that does not resolve.
pub proof fn lemma_failing_cycle_does_not_resolve(
    chunks: Map<ChunkCoordinate, Chunk>,
    names: Seq<Seq<char>>,
    focus: (int, int),
    distance: u32,
    name: Seq<char>,
)
    requires
        fails_with(chunks, names, render_disc(focus, distance).filter(needs_mesh(chunks)), name),
    ensures
        !pending_resolve(chunks, names, focus, distance),
{
    let pending = render_disc(focus, distance).filter(needs_mesh(chunks));
    let k = choose|k: int|
        {
            &&& 0 <= k < pending.len()
            &&& #[trigger] mesh_outcome_in(chunks, pending[k], names, Err(name))
            &&& forall|j: int| 0 <= j < k ==> resolves_before(&chunks[#[trigger] pending[j]], names, 65536)
        };
    lemma_missing_texture_does_not_resolve(&chunks[pending[k]], names, name);
}

/// What one streaming cycle around `focus` makes of the resident chunks
/// `before`.
///
/// Where every pending chunk resolves, the cycle succeeds. The pending
/// chunks, which are the resident chunks of the render disc without a mesh,
/// are meshed in the order of the disc, each against its boundary layers in
/// `before`; their meshes are handed out for upload, remembered, and counted
/// among the meshes built for their chunks. No block changes. Exactly the chunks beyond the render distance plus the eviction
/// margin leave, and the handles of their meshes are released, in no
/// particular order. The render batch lists the meshed chunks of the disc,
/// which are all its resident chunks.
///
/// Otherwise the cycle fails with the texture name that the first pending
/// chunk which does not resolve asks for in vain, and the resident chunks
/// stay as they were.
pub open spec fn cycle_outcome(
    before: Map<ChunkCoordinate, Chunk>,
    after: Map<ChunkCoordinate, Chunk>,
    names: Seq<Seq<char>>,
    focus: (int, int),
    distance: u32,
    result: Result<StreamingCycle, ConfigurationError>,
) -> bool {
    let disc = render_disc(focus, distance);
    let pending = disc.filter(needs_mesh(before));
    match result {
        Ok(cycle) => {
            &&& are_uploads_of(cycle.uploads@, before, names, pending)
            &&& forall|c: ChunkCoordinate| #[trigger]
                after.contains_key(c) <==> before.contains_key(c) && is_kept(
                    focus,
                    distance,
                    c,
                )
            &&& forall|c: ChunkCoordinate| #[trigger]
                after.contains_key(c) ==> {
                    &&& after[c].grid() == before[c].grid()
                    &&& after[c].spec_position() == before[c].spec_position()
                    &&& !pending.contains(c) ==> after[c].spec_buffer()
                        == before[c].spec_buffer()
                }
            &&& forall|c: ChunkCoordinate| #[trigger]
                after.contains_key(c) ==> after[c].spec_buffers_created() == before[c].spec_buffers_created()
                    + if pending.contains(c) {
                    1int
                } else {
                    0int
                }
            &&& forall|k: int|
                0 <= k < pending.len() ==> after.contains_key(#[trigger] pending[k])
                    && after[pending[k]].spec_buffer() == Some(
                    (cycle.uploads@[k].handle, cycle.uploads@[k].vertices.len()),
                )
            &&& forall|i: int|
                0 <= i < disc.len() && before.contains_key(#[trigger] disc[i])
                    ==> after.contains_key(disc[i]) && after[disc[i]].spec_buffer() is Some
            &&& cycle.buffers@ == render_batch(after, disc)
            &&& forall|h: MeshHandle| #[trigger]
                cycle.released@.contains(h) <==> {
                    &&& before.contains_key(h.chunk)
                    &&& !is_kept(focus, distance, h.chunk)
                    &&& before[h.chunk].spec_buffer() is Some
                }
            &&& cycle.released@.no_duplicates()
        },
        Err(e) => {
            &&& fails_with(before, names, pending, e.name@)
            &&& after == before
        },
    }
}

/// How many of `missing` chunks can be loaded from `given` height maps.
pub open spec fn loadable(missing: nat, given: nat) -> int {
    if missing <= given {
        missing as int
    } else {
        given as int
    }
}

/// `loaded` is `before` with a terrain chunk added at each of the first `n`
/// coordinates of `missing`, the `k`-th made from `heights[k]`.
pub open spec fn is_loaded(
    before: Map<ChunkCoordinate, Chunk>,
    loaded: Map<ChunkCoordinate, Chunk>,
    missing: Seq<ChunkCoordinate>,
    heights: Seq<[[i64; 16]; 16]>,
    n: int,
) -> bool {
    &&& forall|c: ChunkCoordinate| #[trigger]
        loaded.contains_key(c) <==> before.contains_key(c) || missing.take(n).contains(c)
    &&& forall|c: ChunkCoordinate|
        before.contains_key(c) && !missing.take(n).contains(c) ==> #[trigger] loaded[c] == before[c]
    &&& forall|k: int|
        0 <= k < n ==> {
            &&& (#[trigger] loaded[missing[k]]).spec_position() == missing[k]
            &&& loaded[missing[k]].spec_buffer() is None
            &&& loaded[missing[k]].spec_buffers_created() == 0
            &&& is_terrain(&loaded[missing[k]], &heights[k])
        }
}

/// Two sets of resident chunks that agree on the chunks of `disc` give the
/// same render batch over `disc`.
pub proof fn lemma_render_batch_agrees(
    a: Map<ChunkCoordinate, Chunk>,
    b: Map<ChunkCoordinate, Chunk>,
    disc: Seq<ChunkCoordinate>,
)
    requires
        forall|i: int|
            0 <= i < disc.len() ==> (a.contains_key(#[trigger] disc[i]) <==> b.contains_key(disc[i])),
        forall|i: int|
            0 <= i < disc.len() && a.contains_key(#[trigger] disc[i]) ==> a[disc[i]].spec_buffer()
                == b[disc[i]].spec_buffer(),
    ensures
        render_batch(a, disc) == render_batch(b, disc),
{
    assert forall|i: int| 0 <= i < disc.len() implies has_mesh(a)(#[trigger] disc[i]) == has_mesh(b)(
        disc[i],
    ) by {}
    lemma_filter_agrees(disc, has_mesh(a), has_mesh(b));
    let kept = disc.filter(has_mesh(a));
    assert forall|j: int| 0 <= j < kept.len() implies buffer_in(a)(kept[j]) == buffer_in(b)(kept[j]) by {
        assert(kept.contains(kept[j]));
        lemma_filter_contains(disc, has_mesh(a), kept[j]);
        let i = choose|i: int| 0 <= i < disc.len() && disc[i] == kept[j];
        assert(a.contains_key(disc[i]));
    }
    assert(kept.map_values(buffer_in(a)) =~= kept.map_values(buffer_in(b)));
}

/// Nothing of `disc` is missing exactly when every chunk of `disc` is
/// resident.
pub proof fn lemma_nothing_missing(chunks: Map<ChunkCoordinate, Chunk>, disc: Seq<ChunkCoordinate>)
    ensures
        disc.filter(is_missing(chunks)).len() == 0 <==> forall|i: int|
            0 <= i < disc.len() ==> chunks.contains_key(#[trigger] disc[i]),
{
    let missing = disc.filter(is_missing(chunks));
    if missing.len() == 0 {
        assert forall|i: int| 0 <= i < disc.len() implies chunks.contains_key(#[trigger] disc[i]) by {
            lemma_filter_contains(disc, is_missing(chunks), disc[i]);
            if !chunks.contains_key(disc[i]) {
                assert(disc.contains(disc[i]));
                assert(missing.contains(disc[i]));
                let j = choose|j: int| 0 <= j < missing.len() && missing[j] == disc[i];
            }
        }
    } else {
        lemma_filter_contains(disc, is_missing(chunks), missing[0]);
        assert(missing.contains(missing[0]));
        let i = choose|i: int| 0 <= i < disc.len() && disc[i] == missing[0];
        assert(!chunks.contains_key(disc[i]));
    }
}

/// Where every chunk of `disc` is resident and meshed, the render batch has
/// one entry for each chunk of `disc`, in the order of `disc`.
pub proof fn lemma_render_batch_covers(chunks: Map<ChunkCoordinate, Chunk>, disc: Seq<ChunkCoordinate>)
    requires
        forall|i: int|
            0 <= i < disc.len() ==> chunks.contains_key(#[trigger] disc[i])
                && chunks[disc[i]].spec_buffer() is Some,
    ensures
        render_batch(chunks, disc).len() == disc.len(),
        forall|i: int|
            0 <= i < disc.len() ==> Some(#[trigger] render_batch(chunks, disc)[i])
                == chunks[disc[i]].spec_buffer(),
{
    assert forall|i: int| 0 <= i < disc.len() implies has_mesh(chunks)(#[trigger] disc[i]) by {}
    lemma_filter_keeps_all(disc, has_mesh(chunks));
}

/// A successful cycle on a fully loaded render disc draws the whole disc:
/// where every chunk that the disc lacked has been loaded, the render batch
/// has one entry for each chunk of the disc, in the order of the disc, and
/// the entry is what the chunk remembers.
pub proof fn lemma_loaded_cycle_covers_disc(
    before: Map<ChunkCoordinate, Chunk>,
    loaded: Map<ChunkCoordinate, Chunk>,
    after: Map<ChunkCoordinate, Chunk>,
    names: Seq<Seq<char>>,
    focus: (int, int),
    distance: u32,
    heights: Seq<[[i64; 16]; 16]>,
    cycle: StreamingCycle,
)
    requires
        heights.len() >= render_disc(focus, distance).filter(is_missing(before)).len(),
        is_loaded(
            before,
            loaded,
            render_disc(focus, distance).filter(is_missing(before)),
            heights,
            render_disc(focus, distance).filter(is_missing(before)).len() as int,
        ),
        cycle_outcome(loaded, after, names, focus, distance, Ok(cycle)),
    ensures
        cycle.buffers@.len() == render_disc(focus, distance).len(),
        forall|i: int|
            0 <= i < render_disc(focus, distance).len() ==> after.contains_key(
                render_disc(focus, distance)[i],
            ) && Some(#[trigger] cycle.buffers@[i]) == after[render_disc(
                focus,
                distance,
            )[i]].spec_buffer(),
{
    let disc = render_disc(focus, distance);
    let missing = disc.filter(is_missing(before));
    assert(missing.take(missing.len() as int) =~= missing);
    assert forall|i: int| 0 <= i < disc.len() implies after.contains_key(#[trigger] disc[i])
        && after[disc[i]].spec_buffer() is Some by {
        lemma_filter_contains(disc, is_missing(before), disc[i]);
        assert(disc.contains(disc[i]));
        assert(loaded.contains_key(disc[i]));
    }
    lemma_render_batch_covers(after, disc);
}

} // verus!
