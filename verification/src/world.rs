//! The world: the resident chunks by coordinate, the seed they grow from,
//! and the render distance that bounds the streaming window.

use vstd::prelude::*;
use std::collections::HashMap;
use vstd::std_specs::hash::axiom_spec_keys_iter;
use vstd::std_specs::iter::IteratorSpec;
use crate::block::{Block, Cardinal};
use crate::chunk::{Chunk, ChunkCoordinate, MeshHandle};
use crate::mesh::{
    first_missing_texture, handle_of, mesh_result_view, resolves, resolves_before, MeshUpload,
};
use crate::seed::{derive_seed, derived_seed};
use crate::seq_facts::{
    lemma_filter_contains, lemma_filter_no_duplicates, lemma_filter_prefix, lemma_push_contains,
};
use crate::streaming::{
    are_uploads_of, boundary_block, buffer_in, cycle_outcome, fails_with, has_mesh, is_boundary_of,
    is_loaded, is_missing, is_upload_of, lemma_boundary_is_unique,
    lemma_failing_cycle_does_not_resolve, lemma_render_batch_agrees, loadable, mesh_outcome_in,
    needs_mesh, neighbour, pending_resolve, render_batch, touching_layer, StreamingCycle,
};
use crate::terrain::{generate_terrain, is_terrain};
use crate::texture::{ConfigurationError, TextureManager};
use crate::window::{
    focus_chunk, focus_of, is_kept, is_within, lemma_disc_and_its_neighbours_are_kept,
    lemma_render_disc_contains, lemma_render_disc_no_duplicates, render_disc, render_disc_at,
    EVICT_MARGIN,
};

verus! {

/// The key under which the chunk at `c` is stored: both coordinates shifted
/// to be non-negative, `x` in the upper and `z` in the lower 32 bits.
pub closed spec fn key_of(c: ChunkCoordinate) -> u64 {
    ((c.x + 0x8000_0000) * 0x1_0000_0000 + (c.z + 0x8000_0000)) as u64
}

proof fn lemma_key_injective(a: ChunkCoordinate, b: ChunkCoordinate)
    ensures
        key_of(a) == key_of(b) ==> a == b,
{
}

fn chunk_key(c: ChunkCoordinate) -> (key: u64)
    ensures
        key == key_of(c),
{
    let x = (c.x as i64 + 0x8000_0000) as u64;
    let z = (c.z as i64 + 0x8000_0000) as u64;
    x * 0x1_0000_0000 + z
}

/// The chunks of `stored`, by the coordinate whose key they are stored under.
spec fn by_coordinate(stored: Map<u64, Chunk>) -> Map<ChunkCoordinate, Chunk> {
    Map::new(
        |c: ChunkCoordinate| stored.contains_key(key_of(c)),
        |c: ChunkCoordinate| stored[key_of(c)],
    )
}

proof fn lemma_by_coordinate_insert(stored: Map<u64, Chunk>, c: ChunkCoordinate, chunk: Chunk)
    ensures
        by_coordinate(stored.insert(key_of(c), chunk)) == by_coordinate(stored).insert(c, chunk),
{
    assert forall|d: ChunkCoordinate| d != c implies key_of(d) != key_of(c) by {
        lemma_key_injective(d, c);
    }
    assert(by_coordinate(stored.insert(key_of(c), chunk)) =~= by_coordinate(stored).insert(c, chunk));
}

/// The handle of the mesh that `chunk` remembers, if it remembers one.
pub open spec fn mesh_handle(chunk: Option<Chunk>) -> Option<MeshHandle> {
    match chunk {
        Some(c) => match c.spec_buffer() {
            Some(buffer) => Some(buffer.0),
            None => None,
        },
        None => None,
    }
}

/// The resident chunks of a world.
pub struct World {
    chunks: HashMap<u64, Chunk>,
    seed: [u8; 32],
    seed_string: String,
    render_distance: u32,
}

impl World {
    /// Every chunk is stored under the key of the place where it lies, a
    /// remembered mesh goes by the handle of that place, and no mesh has been
    /// built for a chunk that remembers none.
    pub closed spec fn wf(&self) -> bool {
        forall|k: u64| #[trigger]
            self.chunks@.contains_key(k) ==> {
                &&& key_of(self.chunks@[k].spec_position()) == k
                &&& self.chunks@[k].spec_buffer() matches Some(buffer) ==> buffer.0 == handle_of(
                    self.chunks@[k].spec_position(),
                )
                &&& self.chunks@[k].spec_buffer() is None ==> self.chunks@[k].spec_buffers_created() == 0
            }
    }

    /// The resident chunks, by coordinate.
    pub closed spec fn chunk_map(&self) -> Map<ChunkCoordinate, Chunk> {
        by_coordinate(self.chunks@)
    }

    /// The seed bytes.
    pub closed spec fn seed(&self) -> Seq<u8> {
        self.seed@
    }

    /// The seed string that the world was made from.
    pub closed spec fn seed_string(&self) -> Seq<char> {
        self.seed_string@
    }

    /// Radius of the render disc, in chunks.
    pub closed spec fn spec_render_distance(&self) -> u32 {
        self.render_distance
    }

    /// Every resident chunk lies where it is stored, and its mesh, if it has
    /// one, goes by the handle of that place.
    pub proof fn lemma_chunks_lie_where_stored(&self, c: ChunkCoordinate)
        requires
            self.wf(),
            self.chunk_map().contains_key(c),
        ensures
            self.chunk_map()[c].spec_position() == c,
            self.chunk_map()[c].spec_buffer() matches Some(buffer) ==> buffer.0 == handle_of(c),
    {
        lemma_key_injective(self.chunk_map()[c].spec_position(), c);
    }

    /// An empty world with the seed bytes that `seed` stands for.
    pub fn new(seed: String, render_distance: u32) -> (world: World)
        ensures
            world.wf(),
            world.chunk_map() == Map::<ChunkCoordinate, Chunk>::empty(),
            world.seed() == derived_seed(seed@),
            world.seed().len() == 32,
            world.seed_string() == seed@,
            world.spec_render_distance() == render_distance,
    {
        let bytes = derive_seed(&seed);
        let world = World { chunks: HashMap::new(), seed: bytes, seed_string: seed, render_distance };
        assert(world.chunk_map() =~= Map::<ChunkCoordinate, Chunk>::empty());
        world
    }

    /// Radius of the render disc, in chunks.
    #[verifier::when_used_as_spec(spec_render_distance)]
    pub fn render_distance(&self) -> (distance: u32)
        ensures
            distance == self.spec_render_distance(),
    {
        self.render_distance
    }

    /// The seed of the terrain noise: the first seed byte.
    pub fn noise_seed(&self) -> (noise_seed: u32)
        ensures
            noise_seed == self.seed()[0],
    {
        self.seed[0] as u32
    }

    /// Whether the chunk at `position` is resident.
    pub fn is_chunk_available(&self, position: &ChunkCoordinate) -> (available: bool)
        ensures
            available == self.chunk_map().contains_key(*position),
    {
        self.chunks.contains_key(&chunk_key(*position))
    }

    /// The chunk at `position`, if it is resident.
    pub fn get_chunk(&self, position: ChunkCoordinate) -> (chunk: Option<&Chunk>)
        ensures
            match chunk {
                Some(c) => self.chunk_map().contains_key(position) && *c == self.chunk_map()[position],
                None => !self.chunk_map().contains_key(position),
            },
    {
        self.chunks.get(&chunk_key(position))
    }

    /// Makes the chunk at `at_position` from the heights sampled for its
    /// columns and stores it, in place of the chunk stored there before if
    /// there was one. Hands back the handle of the mesh that a replaced chunk
    /// remembered, which is thereby released.
    pub fn generate_chunk(&mut self, at_position: ChunkCoordinate, heights: &[[i64; 16]; 16]) -> (released:
        Option<MeshHandle>)
        requires
            old(self).wf(),
        ensures
            final(self).wf(),
            final(self).chunk_map().dom() == old(self).chunk_map().dom().insert(at_position),
            final(self).chunk_map().remove(at_position) == old(self).chunk_map().remove(at_position),
            final(self).chunk_map()[at_position].spec_position() == at_position,
            final(self).chunk_map()[at_position].spec_buffer() is None,
            final(self).chunk_map()[at_position].spec_buffers_created() == 0,
            is_terrain(&final(self).chunk_map()[at_position], heights),
            released == mesh_handle(old(self).chunk_map().get(at_position)),
            final(self).seed() == old(self).seed(),
            final(self).seed_string() == old(self).seed_string(),
            final(self).spec_render_distance() == old(self).spec_render_distance(),
    {
        let chunk = generate_terrain(at_position, heights);
        let key = chunk_key(at_position);
        let replaced = self.chunks.insert(key, chunk);
        proof {
            lemma_by_coordinate_insert(old(self).chunks@, at_position, chunk);
            assert(final(self).chunk_map().dom() =~= old(self).chunk_map().dom().insert(at_position));
            assert(final(self).chunk_map().remove(at_position) =~= old(self).chunk_map().remove(
                at_position,
            ));
        }
        match replaced {
            Some(old_chunk) => match old_chunk.buffer() {
                Some(buffer) => Some(buffer.0),
                None => None,
            },
            None => None,
        }
    }

    /// The boundary layer that the chunk at `position` sees on side `side`:
    /// the touching layer of the neighbour on that side where it is resident,
    /// and Stone where it is not.
    fn boundary_layer(&self, position: ChunkCoordinate, side: usize) -> (layer: [[Block; 16]; 256])
        requires
            side < 4,
        ensures
            forall|y: int, i: int|
                0 <= y < 256 && 0 <= i < 16 ==> #[trigger] layer[y][i] == boundary_block(
                    self.chunk_map(),
                    position,
                    side as int,
                    y,
                    i,
                ),
    {
        let beside = if side == 0 {
            if position.x < i32::MAX {
                Some((ChunkCoordinate { x: position.x + 1, z: position.z }, Cardinal::South))
            } else {
                None
            }
        } else if side == 1 {
            if position.x > i32::MIN {
                Some((ChunkCoordinate { x: position.x - 1, z: position.z }, Cardinal::North))
            } else {
                None
            }
        } else if side == 2 {
            if position.z > i32::MIN {
                Some((ChunkCoordinate { x: position.x, z: position.z - 1 }, Cardinal::East))
            } else {
                None
            }
        } else {
            if position.z < i32::MAX {
                Some((ChunkCoordinate { x: position.x, z: position.z + 1 }, Cardinal::West))
            } else {
                None
            }
        };
        assert(match beside {
            Some((n, layer)) => neighbour(position, side as int) == Some(n) && layer == touching_layer(
                side as int,
            ),
            None => neighbour(position, side as int) is None,
        });
        match beside {
            Some((n, touching)) => match self.get_chunk(n) {
                Some(chunk) => *chunk.get_side_blocks(touching),
                None => [[Block::Stone; 16]; 256],
            },
            None => [[Block::Stone; 16]; 256],
        }
    }

    /// The four boundary layers against which the chunk at `position` is
    /// meshed, in the order north, south, east, west.
    pub fn side_blocks(&self, position: ChunkCoordinate) -> (side_blocks: [[[Block; 16]; 256]; 4])
        ensures
            is_boundary_of(self.chunk_map(), position, &side_blocks),
    {
        [
            self.boundary_layer(position, 0),
            self.boundary_layer(position, 1),
            self.boundary_layer(position, 2),
            self.boundary_layer(position, 3),
        ]
    }

    /// The chunks of the render disc around `cam_pos` that are not resident,
    /// in the order of the disc. These are the chunks to generate before the
    /// disc is meshed.
    pub fn missing_chunks(&self, cam_pos: (i64, i64)) -> (missing: Vec<ChunkCoordinate>)
        ensures
            missing@ == render_disc(focus_chunk(cam_pos), self.spec_render_distance()).filter(
                is_missing(self.chunk_map()),
            ),
    {
        let disc = render_disc_at(cam_pos, self.render_distance);
        let mut missing: Vec<ChunkCoordinate> = Vec::new();
        let mut i: usize = 0;
        proof {
            reveal(Seq::filter);
            assert(disc@.take(0) =~= Seq::<ChunkCoordinate>::empty());
        }
        while i < disc.len()
            invariant
                i <= disc.len(),
                missing@ == disc@.take(i as int).filter(is_missing(self.chunk_map())),
            decreases disc.len() - i,
        {
            proof {
                reveal(Seq::filter);
                assert(disc@.take(i + 1).drop_last() =~= disc@.take(i as int));
            }
            if !self.is_chunk_available(&disc[i]) {
                missing.push(disc[i]);
            }
            i += 1;
        }
        assert(disc@.take(disc.len() as int) =~= disc@);
        missing
    }

    /// Meshes, in the order of `disc`, every resident chunk of `disc` that
    /// has no mesh yet, each against its boundary layers. Nothing is
    /// remembered. Stops at the first chunk that asks for a texture which the
    /// atlas lacks.
    fn mesh_pending(&self, texture_manager: &TextureManager, disc: &Vec<ChunkCoordinate>) -> (result:
        Result<Vec<MeshUpload>, ConfigurationError>)
        requires
            self.wf(),
        ensures
            match result {
                Ok(uploads) => are_uploads_of(
                    uploads@,
                    self.chunk_map(),
                    texture_manager.names(),
                    disc@.filter(needs_mesh(self.chunk_map())),
                ),
                Err(e) => fails_with(
                    self.chunk_map(),
                    texture_manager.names(),
                    disc@.filter(needs_mesh(self.chunk_map())),
                    e.name@,
                ),
            },
    {
        let ghost chunks = self.chunk_map();
        let ghost names = texture_manager.names();
        let mut uploads: Vec<MeshUpload> = Vec::new();
        let mut i: usize = 0;
        proof {
            reveal(Seq::filter);
            assert(disc@.take(0) =~= Seq::<ChunkCoordinate>::empty());
        }
        while i < disc.len()
            invariant
                i <= disc.len(),
                self.wf(),
                chunks == self.chunk_map(),
                names == texture_manager.names(),
                are_uploads_of(uploads@, chunks, names, disc@.take(i as int).filter(needs_mesh(chunks))),
            decreases disc.len() - i,
        {
            let c = disc[i];
            let ghost before = disc@.take(i as int).filter(needs_mesh(chunks));
            let ghost all = disc@.filter(needs_mesh(chunks));
            proof {
                reveal(Seq::filter);
                assert(disc@.take(i + 1).drop_last() =~= disc@.take(i as int));
                assert(disc@.take(i + 1).last() == c);
            }
            match self.get_chunk(c) {
                Some(chunk) => {
                    if chunk.buffer().is_none() {
                        let side_blocks = self.side_blocks(c);
                        let meshed = chunk.try_mesh(texture_manager, &side_blocks);
                        proof {
                            lemma_boundary_is_unique(chunks, c, &side_blocks);
                            self.lemma_chunks_lie_where_stored(c);
                            assert(mesh_outcome_in(chunks, c, names, mesh_result_view(meshed)));
                        }
                        match meshed {
                            Ok(vertices) => {
                                let upload = MeshUpload { handle: MeshHandle { chunk: c }, vertices };
                                uploads.push(upload);
                                assert(is_upload_of(upload, chunks, names, c));
                            },
                            Err(e) => {
                                proof {
                                    lemma_filter_prefix(disc@, needs_mesh(chunks), i as int);
                                    let k = before.len() as int;
                                    assert(all[k] == c);
                                    assert forall|j: int| 0 <= j < k implies resolves_before(
                                        &chunks[#[trigger] all[j]],
                                        names,
                                        65536,
                                    ) by {
                                        assert(all[j] == before[j]);
                                        assert(is_upload_of(uploads@[j], chunks, names, before[j]));
                                    }
                                    assert(mesh_outcome_in(chunks, all[k], names, Err(e.name@)));
                                }
                                return Err(e);
                            },
                        }
                    }
                },
                None => {},
            }
            i += 1;
        }
        assert(disc@.take(disc.len() as int) =~= disc@);
        Ok(uploads)
    }

    /// Lets the chunk at `pending[k]` remember the mesh `uploads[k]`, for
    /// every `k`.
    fn remember_meshes(&mut self, uploads: &Vec<MeshUpload>, Ghost(pending): Ghost<Seq<ChunkCoordinate>>)
        requires
            old(self).wf(),
            uploads@.len() == pending.len(),
            pending.no_duplicates(),
            forall|k: int|
                0 <= k < pending.len() ==> old(self).chunk_map().contains_key(#[trigger] pending[k]),
            forall|k: int|
                0 <= k < pending.len() ==> (#[trigger] uploads@[k]).handle == handle_of(pending[k]),
            forall|k: int|
                0 <= k < pending.len() ==> old(self).chunk_map()[#[trigger] pending[k]].spec_buffer() is None,
        ensures
            final(self).wf(),
            final(self).chunk_map().dom() == old(self).chunk_map().dom(),
            forall|c: ChunkCoordinate| #[trigger]
                final(self).chunk_map().contains_key(c) ==> final(self).chunk_map()[c].spec_buffers_created() == old(self).chunk_map()[c].spec_buffers_created()
                    + if pending.contains(c) {
                    1int
                } else {
                    0int
                },
            forall|c: ChunkCoordinate| #[trigger]
                final(self).chunk_map().contains_key(c) ==> {
                    &&& final(self).chunk_map()[c].grid() == old(self).chunk_map()[c].grid()
                    &&& final(self).chunk_map()[c].spec_position() == old(self).chunk_map()[c].spec_position()
                    &&& !pending.contains(c) ==> final(self).chunk_map()[c].spec_buffer() == old(self).chunk_map()[c].spec_buffer()
                },
            forall|k: int|
                0 <= k < pending.len() ==> final(self).chunk_map()[#[trigger] pending[k]].spec_buffer()
                    == Some((uploads@[k].handle, uploads@[k].vertices.len())),
            final(self).seed() == old(self).seed(),
            final(self).seed_string() == old(self).seed_string(),
            final(self).spec_render_distance() == old(self).spec_render_distance(),
    {
        let mut k: usize = 0;
        while k < uploads.len()
            invariant
                k <= uploads.len(),
                self.wf(),
                uploads@.len() == pending.len(),
                pending.no_duplicates(),
                forall|j: int|
                    0 <= j < pending.len() ==> old(self).chunk_map().contains_key(#[trigger] pending[j]),
                forall|j: int|
                    0 <= j < pending.len() ==> (#[trigger] uploads@[j]).handle == handle_of(pending[j]),
                forall|j: int|
                    0 <= j < pending.len() ==> old(self).chunk_map()[#[trigger] pending[j]].spec_buffer() is None,
                self.chunk_map().dom() == old(self).chunk_map().dom(),
                forall|c: ChunkCoordinate| #[trigger]
                    self.chunk_map().contains_key(c) ==> self.chunk_map()[c].spec_buffers_created()
                        == old(self).chunk_map()[c].spec_buffers_created() + if pending.take(
                        k as int,
                    ).contains(c) {
                        1int
                    } else {
                        0int
                    },
                forall|c: ChunkCoordinate| #[trigger]
                    self.chunk_map().contains_key(c) ==> {
                        &&& self.chunk_map()[c].grid() == old(self).chunk_map()[c].grid()
                        &&& self.chunk_map()[c].spec_position() == old(self).chunk_map()[c].spec_position()
                        &&& !pending.take(k as int).contains(c) ==> self.chunk_map()[c].spec_buffer()
                            == old(self).chunk_map()[c].spec_buffer()
                    },
                forall|j: int|
                    0 <= j < k ==> self.chunk_map()[#[trigger] pending[j]].spec_buffer() == Some(
                        (uploads@[j].handle, uploads@[j].vertices.len()),
                    ),
                self.seed() == old(self).seed(),
                self.seed_string() == old(self).seed_string(),
                self.spec_render_distance() == old(self).spec_render_distance(),
            decreases uploads.len() - k,
        {
            let handle = uploads[k].handle;
            let count = uploads[k].vertices.len();
            let c = handle.chunk;
            let key = chunk_key(c);
            let ghost before = self.chunks@;
            assert(c == pending[k as int]);
            assert(self.chunk_map().contains_key(c));
            match self.chunks.remove(&key) {
                Some(chunk) => {
                    let mut chunk = chunk;
                    proof {
                        assert(!pending.take(k as int).contains(c)) by {
                            if pending.take(k as int).contains(c) {
                                let j = choose|j: int|
                                    0 <= j < pending.take(k as int).len() && pending.take(k as int)[j]
                                        == c;
                                assert(pending[j] == pending[k as int]);
                            }
                        }
                        assert(chunk.spec_buffer() == old(self).chunk_map()[c].spec_buffer());
                        assert(chunk.spec_buffers_created() == 0);
                    }
                    chunk.remember_mesh(handle, count);
                    self.chunks.insert(key, chunk);
                    proof {
                        assert(self.chunks@ =~= before.insert(key, chunk));
                        lemma_by_coordinate_insert(before, c, chunk);
                        assert(self.chunk_map().dom() =~= old(self).chunk_map().dom());
                        assert forall|d: ChunkCoordinate| #[trigger]
                            self.chunk_map().contains_key(d) && !pending.take(k + 1).contains(
                                d,
                            ) implies self.chunk_map()[d].spec_buffer() == old(self).chunk_map()[d].spec_buffer() by {
                            assert(pending.take(k + 1)[k as int] == c);
                            assert(d != c);
                            if pending.take(k as int).contains(d) {
                                let j = choose|j: int|
                                    0 <= j < pending.take(k as int).len() && pending.take(k as int)[j]
                                        == d;
                                assert(pending.take(k + 1)[j] == d);
                            }
                        }
                        assert forall|j: int| 0 <= j < k + 1 implies self.chunk_map()[#[trigger] pending[j]].spec_buffer()
                            == Some((uploads@[j].handle, uploads@[j].vertices.len())) by {
                            if j < k {
                                assert(pending[j] != pending[k as int]);
                            }
                        }
                        assert(pending.take(k + 1) =~= pending.take(k as int).push(c));
                        assert forall|d: ChunkCoordinate| #[trigger]
                            self.chunk_map().contains_key(d) implies self.chunk_map()[d].spec_buffers_created()
                            == old(self).chunk_map()[d].spec_buffers_created() + if pending.take(
                            k + 1,
                        ).contains(d) {
                            1int
                        } else {
                            0int
                        } by {
                            lemma_push_contains(pending.take(k as int), c, d);
                        }
                    }
                },
                None => {},
            }
            k += 1;
        }
        proof {
            assert(pending.take(pending.len() as int) =~= pending);
        }
    }

    /// Handle and vertex count of every meshed chunk of `disc`, in the order
    /// of `disc`.
    fn collect_batch(&self, disc: &Vec<ChunkCoordinate>) -> (buffers: Vec<(MeshHandle, usize)>)
        ensures
            buffers@ == render_batch(self.chunk_map(), disc@),
    {
        let ghost chunks = self.chunk_map();
        let mut buffers: Vec<(MeshHandle, usize)> = Vec::new();
        let mut i: usize = 0;
        proof {
            reveal(Seq::filter);
            assert(disc@.take(0) =~= Seq::<ChunkCoordinate>::empty());
            assert(render_batch(chunks, disc@.take(0)) =~= Seq::<(MeshHandle, usize)>::empty());
        }
        while i < disc.len()
            invariant
                i <= disc.len(),
                chunks == self.chunk_map(),
                buffers@ == render_batch(chunks, disc@.take(i as int)),
            decreases disc.len() - i,
        {
            let c = disc[i];
            let ghost kept = disc@.take(i as int).filter(has_mesh(chunks));
            proof {
                reveal(Seq::filter);
                assert(disc@.take(i + 1).drop_last() =~= disc@.take(i as int));
                assert(disc@.take(i + 1).last() == c);
                assert(kept.push(c).map_values(buffer_in(chunks)) =~= kept.map_values(
                    buffer_in(chunks),
                ).push(buffer_in(chunks)(c)));
            }
            match self.get_chunk(c) {
                Some(chunk) => match chunk.buffer() {
                    Some(buffer) => {
                        buffers.push(buffer);
                    },
                    None => {},
                },
                None => {},
            }
            i += 1;
        }
        assert(disc@.take(disc.len() as int) =~= disc@);
        buffers
    }

    /// The keys of the stored chunks, each once, in no particular order.
    fn stored_keys(&self) -> (keys: Vec<u64>)
        ensures
            keys@.no_duplicates(),
            forall|k: u64| keys@.contains(k) <==> self.chunks@.contains_key(k),
    {
        broadcast use axiom_spec_keys_iter;

        let mut keys: Vec<u64> = Vec::new();
        let ghost all: Seq<&u64> = self.chunks.keys().remaining();
        for key in it: self.chunks.keys()
            invariant
                it.seq() == all,
                keys@ == all.take(it.index() as int).unref(),
        {
            keys.push(*key);
        }
        proof {
            assert(keys@ =~= all.unref());
            assert(keys@.to_set() == self.chunks@.dom());
            assert forall|i: int, j: int|
                0 <= i < keys@.len() && 0 <= j < keys@.len() && i != j implies keys@[i] != keys@[j] by {
                assert(all[i] != all[j]);
            }
            assert forall|k: u64| keys@.contains(k) <==> self.chunks@.contains_key(k) by {
                assert(keys@.to_set().contains(k) <==> self.chunks@.dom().contains(k));
            }
        }
        keys
    }

    /// Drops every chunk that lies farther from the chunk holding `cam_pos`
    /// than the render distance plus the eviction margin, and hands back the
    /// handles of the meshes that the dropped chunks remembered, which are
    /// thereby released. The handles come in no particular order.
    pub fn evict_distant(&mut self, cam_pos: (i64, i64)) -> (released: Vec<MeshHandle>)
        requires
            old(self).wf(),
        ensures
            final(self).wf(),
            forall|c: ChunkCoordinate| #[trigger]
                final(self).chunk_map().contains_key(c) <==> old(self).chunk_map().contains_key(c)
                    && is_kept(focus_chunk(cam_pos), old(self).spec_render_distance(), c),
            forall|c: ChunkCoordinate| #[trigger]
                final(self).chunk_map().contains_key(c) ==> final(self).chunk_map()[c] == old(self).chunk_map()[c],
            forall|h: MeshHandle| #[trigger]
                released@.contains(h) <==> {
                    &&& old(self).chunk_map().contains_key(h.chunk)
                    &&& !is_kept(focus_chunk(cam_pos), old(self).spec_render_distance(), h.chunk)
                    &&& old(self).chunk_map()[h.chunk].spec_buffer() is Some
                },
            released@.no_duplicates(),
            final(self).seed() == old(self).seed(),
            final(self).seed_string() == old(self).seed_string(),
            final(self).spec_render_distance() == old(self).spec_render_distance(),
    {
        let focus = focus_of(cam_pos);
        let ghost center = focus_chunk(cam_pos);
        let ghost distance = self.render_distance;
        let ghost stored = self.chunks@;
        let radius = self.render_distance as u64 + EVICT_MARGIN as u64;
        let keys = self.stored_keys();
        let mut released: Vec<MeshHandle> = Vec::new();
        let mut i: usize = 0;
        assert forall|j: int| 0 <= j < keys@.len() implies stored.contains_key(#[trigger] keys@[j]) by {
            assert(keys@.contains(keys@[j]));
        }
        while i < keys.len()
            invariant
                i <= keys.len(),
                self.wf(),
                old(self).wf(),
                forall|j: int| 0 <= j < keys@.len() ==> stored.contains_key(#[trigger] keys@[j]),
                stored == old(self).chunks@,
                center == focus_chunk(cam_pos),
                center == (focus.0 as int, focus.1 as int),
                distance == old(self).spec_render_distance(),
                radius == distance + EVICT_MARGIN,
                keys@.no_duplicates(),
                forall|k: u64| keys@.contains(k) <==> stored.contains_key(k),
                forall|k: u64| #[trigger]
                    self.chunks@.contains_key(k) ==> stored.contains_key(k) && self.chunks@[k]
                        == stored[k],
                forall|j: int|
                    0 <= j < keys@.len() ==> (self.chunks@.contains_key(#[trigger] keys@[j]) <==> j >= i
                        || is_kept(center, distance, stored[keys@[j]].spec_position())),
                forall|h: MeshHandle| #[trigger]
                    released@.contains(h) <==> exists|j: int|
                        0 <= j < i && is_released_at(stored, #[trigger] keys@[j], center, distance, h),
                released@.no_duplicates(),
                self.seed() == old(self).seed(),
                self.seed_string() == old(self).seed_string(),
                self.spec_render_distance() == old(self).spec_render_distance(),
            decreases keys.len() - i,
        {
            let key = keys[i];
            let ghost before = released@;
            assert(keys@.contains(key));
            let position = match self.chunks.get(&key) {
                Some(chunk) => chunk.position(),
                None => ChunkCoordinate { x: 0, z: 0 },
            };
            assert(position == stored[key].spec_position());
            if !is_within(focus, radius, position) {
                match self.chunks.remove(&key) {
                    Some(chunk) => match chunk.buffer() {
                        Some(buffer) => {
                            released.push(buffer.0);
                            proof {
                                let h = buffer.0;
                                assert(is_released_at(stored, key, center, distance, h));
                                if before.contains(h) {
                                    let j = choose|j: int|
                                        0 <= j < i && is_released_at(
                                            stored,
                                            #[trigger] keys@[j],
                                            center,
                                            distance,
                                            h,
                                        );
                                    assert(stored.contains_key(keys@[j]));
                                    assert(stored.contains_key(key));
                                    assert(key_of(stored[keys@[j]].spec_position()) == keys@[j]);
                                    assert(key_of(stored[key].spec_position()) == key);
                                    assert(keys@[j] == key);
                                }
                                assert forall|g: MeshHandle| #[trigger]
                                    released@.contains(g) <==> exists|j: int|
                                        0 <= j < i + 1 && is_released_at(
                                            stored,
                                            #[trigger] keys@[j],
                                            center,
                                            distance,
                                            g,
                                        ) by {
                                    lemma_push_contains(before, h, g);
                                    if released@.contains(g) {
                                        if g == h {
                                            assert(is_released_at(
                                                stored,
                                                keys@[i as int],
                                                center,
                                                distance,
                                                g,
                                            ));
                                        } else {
                                            let j = choose|j: int|
                                                0 <= j < i && is_released_at(
                                                    stored,
                                                    #[trigger] keys@[j],
                                                    center,
                                                    distance,
                                                    g,
                                                );
                                            assert(is_released_at(stored, keys@[j], center, distance, g));
                                        }
                                    }
                                    if exists|j: int|
                                        0 <= j < i + 1 && is_released_at(
                                            stored,
                                            #[trigger] keys@[j],
                                            center,
                                            distance,
                                            g,
                                        ) {
                                        let j = choose|j: int|
                                            0 <= j < i + 1 && is_released_at(
                                                stored,
                                                #[trigger] keys@[j],
                                                center,
                                                distance,
                                                g,
                                            );
                                        if j < i {
                                            assert(before.contains(g));
                                        } else {
                                            assert(g == h);
                                        }
                                    }
                                }
                            }
                        },
                        None => {
                            proof {
                                lemma_released_unchanged(stored, keys@, center, distance, i as int, released@);
                            }
                        },
                    },
                    None => {},
                }
            } else {
                proof {
                    lemma_released_unchanged(stored, keys@, center, distance, i as int, released@);
                }
            }
            i += 1;
        }
        proof {
            assert forall|c: ChunkCoordinate| #[trigger]
                self.chunk_map().contains_key(c) <==> old(self).chunk_map().contains_key(c) && is_kept(
                    center,
                    distance,
                    c,
                ) by {
                let key = key_of(c);
                if stored.contains_key(key) {
                    assert(keys@.contains(key));
                    let j = choose|j: int| 0 <= j < keys@.len() && keys@[j] == key;
                    assert(self.chunks@.contains_key(keys@[j]) <==> is_kept(
                        center,
                        distance,
                        stored[keys@[j]].spec_position(),
                    ));
                    lemma_key_injective(stored[key].spec_position(), c);
                }
            }
            assert forall|h: MeshHandle| #[trigger]
                released@.contains(h) <==> {
                    &&& old(self).chunk_map().contains_key(h.chunk)
                    &&& !is_kept(center, distance, h.chunk)
                    &&& old(self).chunk_map()[h.chunk].spec_buffer() is Some
                } by {
                let key = key_of(h.chunk);
                if released@.contains(h) {
                    let j = choose|j: int|
                        0 <= j < i && is_released_at(stored, #[trigger] keys@[j], center, distance, h);
                    assert(keys@.contains(keys@[j]));
                    lemma_key_injective(stored[keys@[j]].spec_position(), h.chunk);
                }
                if stored.contains_key(key) && !is_kept(center, distance, h.chunk)
                    && stored[key].spec_buffer() is Some {
                    assert(keys@.contains(key));
                    let j = choose|j: int| 0 <= j < keys@.len() && keys@[j] == key;
                    lemma_key_injective(stored[key].spec_position(), h.chunk);
                    assert(is_released_at(stored, keys@[j], center, distance, h));
                }
            }
        }
        released
    }

    /// Runs one streaming cycle around the chunk that holds `cam_pos`.
    ///
    /// Every resident chunk of the render disc that has no mesh yet is meshed
    /// against the boundary layers of its neighbours as they are resident
    /// when the cycle starts, and remembers its mesh from then on. The cycle
    /// hands out the new meshes for upload, the render batch of the disc, and
    /// the handles released by dropping every chunk that lies beyond the
    /// render distance plus the eviction margin.
    ///
    /// Chunks of the disc that are not resident are passed over: generate
    /// the chunks that `missing_chunks` lists before the cycle runs.
    ///
    /// A mesh, once remembered, is kept until its chunk is dropped. It is not
    /// built again when a neighbour arrives later, so a chunk at the rim of
    /// the loaded area keeps the faces that it was given against Stone.
    ///
    /// When a mesh asks for a texture that the atlas lacks, the cycle stops
    /// and the world is left as it was.
    pub fn try_generate_mesh(&mut self, texture_manager: &TextureManager, cam_pos: (i64, i64)) -> (result:
        Result<StreamingCycle, ConfigurationError>)
        requires
            old(self).wf(),
        ensures
            final(self).wf(),
            final(self).seed() == old(self).seed(),
            final(self).seed_string() == old(self).seed_string(),
            final(self).spec_render_distance() == old(self).spec_render_distance(),
            cycle_outcome(
                old(self).chunk_map(),
                final(self).chunk_map(),
                texture_manager.names(),
                focus_chunk(cam_pos),
                old(self).spec_render_distance(),
                result,
            ),
    {
        let ghost before = self.chunk_map();
        let ghost names = texture_manager.names();
        let ghost focus = focus_chunk(cam_pos);
        let ghost distance = self.render_distance;
        let disc = render_disc_at(cam_pos, self.render_distance);
        let ghost pending = disc@.filter(needs_mesh(before));
        let uploads = match self.mesh_pending(texture_manager, &disc) {
            Ok(uploads) => uploads,
            Err(e) => {
                return Err(e);
            },
        };
        proof {
            lemma_render_disc_no_duplicates(focus, distance);
            lemma_filter_no_duplicates(disc@, needs_mesh(before));
            assert forall|k: int| 0 <= k < pending.len() implies before.contains_key(
                #[trigger] pending[k],
            ) by {
                assert(pending.contains(pending[k]));
                lemma_filter_contains(disc@, needs_mesh(before), pending[k]);
            }
            assert forall|k: int| 0 <= k < pending.len() implies (#[trigger] uploads@[k]).handle
                == handle_of(pending[k]) by {
                assert(is_upload_of(uploads@[k], before, names, pending[k]));
            }
        }
        self.remember_meshes(&uploads, Ghost(pending));
        let ghost meshed = self.chunk_map();
        let buffers = self.collect_batch(&disc);
        let released = self.evict_distant(cam_pos);
        proof {
            let after = self.chunk_map();
            assert forall|i: int| 0 <= i < disc@.len() implies is_kept(focus, distance, #[trigger] disc@[i]) by {
                assert(disc@.contains(disc@[i]));
                lemma_render_disc_contains(focus, distance, disc@[i]);
                lemma_disc_and_its_neighbours_are_kept(focus, distance, disc@[i], disc@[i]);
            }
            assert forall|i: int| 0 <= i < disc@.len() implies (meshed.contains_key(#[trigger] disc@[i])
                <==> after.contains_key(disc@[i])) by {
                assert(is_kept(focus, distance, disc@[i]));
            }
            lemma_render_batch_agrees(meshed, after, disc@);
            assert forall|k: int| 0 <= k < pending.len() implies after.contains_key(
                #[trigger] pending[k],
            ) && after[pending[k]].spec_buffer() == Some(
                (uploads@[k].handle, uploads@[k].vertices.len()),
            ) by {
                assert(pending.contains(pending[k]));
                lemma_filter_contains(disc@, needs_mesh(before), pending[k]);
                let i = choose|i: int| 0 <= i < disc@.len() && disc@[i] == pending[k];
                assert(is_kept(focus, distance, disc@[i]));
                assert(meshed.contains_key(pending[k]));
            }
            assert forall|h: MeshHandle| #[trigger]
                released@.contains(h) <==> {
                    &&& before.contains_key(h.chunk)
                    &&& !is_kept(focus, distance, h.chunk)
                    &&& before[h.chunk].spec_buffer() is Some
                } by {
                if !is_kept(focus, distance, h.chunk) && before.contains_key(h.chunk) {
                    assert(meshed.contains_key(h.chunk));
                    if pending.contains(h.chunk) {
                        lemma_filter_contains(disc@, needs_mesh(before), h.chunk);
                        let i = choose|i: int| 0 <= i < disc@.len() && disc@[i] == h.chunk;
                        assert(is_kept(focus, distance, disc@[i]));
                    }
                }
            }
            assert forall|i: int| 0 <= i < disc@.len() && before.contains_key(
                #[trigger] disc@[i],
            ) implies after.contains_key(disc@[i]) && after[disc@[i]].spec_buffer() is Some by {
                let c = disc@[i];
                assert(is_kept(focus, distance, c));
                assert(meshed.contains_key(c));
                assert(after.contains_key(c));
                if before[c].spec_buffer() is None {
                    assert(needs_mesh(before)(c));
                    lemma_filter_contains(disc@, needs_mesh(before), c);
                    assert(pending.contains(c));
                    let k = choose|k: int| 0 <= k < pending.len() && pending[k] == c;
                    assert(after[pending[k]].spec_buffer() is Some);
                } else {
                    lemma_filter_contains(disc@, needs_mesh(before), c);
                }
            }
            assert forall|c: ChunkCoordinate| #[trigger] after.contains_key(c) implies {
                &&& after[c].grid() == before[c].grid()
                &&& after[c].spec_position() == before[c].spec_position()
                &&& !pending.contains(c) ==> after[c].spec_buffer() == before[c].spec_buffer()
            } by {
                assert(meshed.contains_key(c));
            }
            assert forall|c: ChunkCoordinate| #[trigger]
                after.contains_key(c) <==> before.contains_key(c) && is_kept(focus, distance, c) by {
                assert(meshed.contains_key(c) <==> before.contains_key(c));
            }
        }
        Ok(StreamingCycle { buffers, uploads, released })
    }

    /// Runs one streaming cycle around the chunk that holds `cam_pos`, as
    /// `try_generate_mesh` does. The atlas must hold every texture that the
    /// cycle needs; to run a cycle on an atlas that lacks one is a fault of
    /// the configuration. `missing_texture` tells whether it does.
    pub fn generate_mesh(&mut self, texture_manager: &TextureManager, cam_pos: (i64, i64)) -> (cycle:
        StreamingCycle)
        requires
            old(self).wf(),
            pending_resolve(
                old(self).chunk_map(),
                texture_manager.names(),
                focus_chunk(cam_pos),
                old(self).spec_render_distance(),
            ),
        ensures
            final(self).wf(),
            final(self).seed() == old(self).seed(),
            final(self).seed_string() == old(self).seed_string(),
            final(self).spec_render_distance() == old(self).spec_render_distance(),
            cycle_outcome(
                old(self).chunk_map(),
                final(self).chunk_map(),
                texture_manager.names(),
                focus_chunk(cam_pos),
                old(self).spec_render_distance(),
                Ok(cycle),
            ),
    {
        match self.try_generate_mesh(texture_manager, cam_pos) {
            Ok(cycle) => cycle,
            Err(e) => {
                proof {
                    lemma_failing_cycle_does_not_resolve(
                        old(self).chunk_map(),
                        texture_manager.names(),
                        focus_chunk(cam_pos),
                        old(self).spec_render_distance(),
                        e.name@,
                    );
                }
                StreamingCycle { buffers: Vec::new(), uploads: Vec::new(), released: Vec::new() }
            },
        }
    }

    /// The texture that the first pending chunk of the render disc around
    /// `cam_pos` which does not resolve asks for in vain, or nothing when the
    /// atlas holds every texture that a cycle there needs.
    pub fn missing_texture(&self, texture_manager: &TextureManager, cam_pos: (i64, i64)) -> (missing:
        Option<ConfigurationError>)
        requires
            self.wf(),
        ensures
            match missing {
                None => pending_resolve(
                    self.chunk_map(),
                    texture_manager.names(),
                    focus_chunk(cam_pos),
                    self.spec_render_distance(),
                ),
                Some(e) => fails_with(
                    self.chunk_map(),
                    texture_manager.names(),
                    render_disc(focus_chunk(cam_pos), self.spec_render_distance()).filter(
                        needs_mesh(self.chunk_map()),
                    ),
                    e.name@,
                ),
            },
    {
        let ghost chunks = self.chunk_map();
        let ghost names = texture_manager.names();
        let disc = render_disc_at(cam_pos, self.render_distance);
        let ghost pending = disc@.filter(needs_mesh(chunks));
        let mut i: usize = 0;
        proof {
            reveal(Seq::filter);
            assert(disc@.take(0) =~= Seq::<ChunkCoordinate>::empty());
        }
        while i < disc.len()
            invariant
                i <= disc.len(),
                self.wf(),
                chunks == self.chunk_map(),
                names == texture_manager.names(),
                pending == disc@.filter(needs_mesh(chunks)),
                disc@ == render_disc(focus_chunk(cam_pos), self.spec_render_distance()),
                forall|j: int|
                    0 <= j < disc@.take(i as int).filter(needs_mesh(chunks)).len() ==> resolves(
                        &chunks[#[trigger] disc@.take(i as int).filter(needs_mesh(chunks))[j]],
                        names,
                    ),
            decreases disc.len() - i,
        {
            let c = disc[i];
            let ghost before = disc@.take(i as int).filter(needs_mesh(chunks));
            proof {
                reveal(Seq::filter);
                assert(disc@.take(i + 1).drop_last() =~= disc@.take(i as int));
                assert(disc@.take(i + 1).last() == c);
            }
            match self.get_chunk(c) {
                Some(chunk) => {
                    if chunk.buffer().is_none() {
                        match chunk.missing_texture(texture_manager) {
                            Some(e) => {
                                proof {
                                    lemma_filter_prefix(disc@, needs_mesh(chunks), i as int);
                                    let k = before.len() as int;
                                    assert(pending[k] == c);
                                    assert forall|j: int| 0 <= j < k implies resolves_before(
                                        &chunks[#[trigger] pending[j]],
                                        names,
                                        65536,
                                    ) by {
                                        assert(pending[j] == before[j]);
                                    }
                                    assert(first_missing_texture(&chunks[c], names, e.name@));
                                    assert(mesh_outcome_in(chunks, pending[k], names, Err(e.name@)));
                                    assert(fails_with(chunks, names, pending, e.name@));
                                }
                                return Some(e);
                            },
                            None => {
                                proof {
                                    let after = disc@.take(i + 1).filter(needs_mesh(chunks));
                                    assert(after == before.push(c));
                                    assert forall|j: int| 0 <= j < after.len() implies resolves(
                                        &chunks[#[trigger] after[j]],
                                        names,
                                    ) by {
                                        if j < before.len() {
                                            assert(after[j] == before[j]);
                                        }
                                    }
                                }
                            },
                        }
                    }
                },
                None => {},
            }
            i += 1;
        }
        assert(disc@.take(disc.len() as int) =~= disc@);
        None
    }

    /// Loads what the render disc around `cam_pos` lacks, then runs one
    /// streaming cycle there.
    ///
    /// `heights[k]` are the heights sampled for the `k`-th chunk that
    /// `missing_chunks` lists. Each listed chunk for which heights are given
    /// is made from them and stored; the cycle then runs on the chunks so
    /// loaded, as `try_generate_mesh` runs it. Heights beyond the list are not
    /// looked at, and a listed chunk without heights stays unloaded.
    ///
    /// When the cycle fails, the chunks that were loaded stay.
    pub fn ensure_and_mesh(
        &mut self,
        texture_manager: &TextureManager,
        cam_pos: (i64, i64),
        heights: &Vec<[[i64; 16]; 16]>,
    ) -> (result: Result<StreamingCycle, ConfigurationError>)
        requires
            old(self).wf(),
        ensures
            final(self).wf(),
            final(self).seed() == old(self).seed(),
            final(self).seed_string() == old(self).seed_string(),
            final(self).spec_render_distance() == old(self).spec_render_distance(),
            ({
                let before = old(self).chunk_map();
                let focus = focus_chunk(cam_pos);
                let distance = old(self).spec_render_distance();
                let missing = render_disc(focus, distance).filter(is_missing(before));
                let n = loadable(missing.len(), heights@.len());
                exists|loaded: Map<ChunkCoordinate, Chunk>|
                    {
                        &&& #[trigger] is_loaded(before, loaded, missing, heights@, n)
                        &&& cycle_outcome(
                            loaded,
                            final(self).chunk_map(),
                            texture_manager.names(),
                            focus,
                            distance,
                            result,
                        )
                    }
            }),
    {
        let ghost before = self.chunk_map();
        let ghost focus = focus_chunk(cam_pos);
        let ghost distance = self.render_distance;
        let missing = self.missing_chunks(cam_pos);
        proof {
            lemma_render_disc_no_duplicates(focus, distance);
            lemma_filter_no_duplicates(render_disc(focus, distance), is_missing(before));
            assert forall|k: int| 0 <= k < missing@.len() implies !before.contains_key(
                #[trigger] missing@[k],
            ) by {
                assert(missing@.contains(missing@[k]));
                lemma_filter_contains(render_disc(focus, distance), is_missing(before), missing@[k]);
            }
        }
        let mut k: usize = 0;
        while k < missing.len() && k < heights.len()
            invariant
                k <= missing.len(),
                k <= heights.len(),
                self.wf(),
                missing@.no_duplicates(),
                forall|j: int| 0 <= j < missing@.len() ==> !before.contains_key(#[trigger] missing@[j]),
                is_loaded(before, self.chunk_map(), missing@, heights@, k as int),
                self.seed() == old(self).seed(),
                self.seed_string() == old(self).seed_string(),
                self.spec_render_distance() == old(self).spec_render_distance(),
            decreases missing.len() - k,
        {
            let ghost loaded = self.chunk_map();
            let at = missing[k];
            self.generate_chunk(at, &heights[k]);
            proof {
                let next = self.chunk_map();
                assert(missing@.take(k + 1) =~= missing@.take(k as int).push(at));
                assert forall|c: ChunkCoordinate| #[trigger]
                    next.contains_key(c) <==> before.contains_key(c) || missing@.take(k + 1).contains(
                        c,
                    ) by {
                    lemma_push_contains(missing@.take(k as int), at, c);
                    assert(next.dom().contains(c) <==> loaded.dom().insert(at).contains(c));
                }
                assert forall|c: ChunkCoordinate|
                    before.contains_key(c) && !missing@.take(k + 1).contains(c) implies #[trigger] next[c]
                    == before[c] by {
                    lemma_push_contains(missing@.take(k as int), at, c);
                    assert(c != at);
                    assert(next.remove(at)[c] == loaded.remove(at)[c]);
                }
                assert forall|j: int| 0 <= j < k + 1 implies {
                    &&& (#[trigger] next[missing@[j]]).spec_position() == missing@[j]
                    &&& next[missing@[j]].spec_buffer() is None
                    &&& next[missing@[j]].spec_buffers_created() == 0
                    &&& is_terrain(&next[missing@[j]], &heights@[j])
                } by {
                    if j < k {
                        assert(missing@[j] != missing@[k as int]);
                        assert(missing@.take(k as int)[j] == missing@[j]);
                        assert(loaded.contains_key(missing@[j]));
                        assert(next.remove(at)[missing@[j]] == loaded.remove(at)[missing@[j]]);
                        assert(next[missing@[j]] == loaded[missing@[j]]);
                    }
                }
            }
            k += 1;
        }
        let ghost loaded = self.chunk_map();
        let result = self.try_generate_mesh(texture_manager, cam_pos);
        proof {
            assert(missing@ == render_disc(focus, distance).filter(is_missing(before)));
            assert(k == loadable(missing@.len(), heights@.len()));
            assert(is_loaded(before, loaded, missing@, heights@, k as int));
            assert(cycle_outcome(
                loaded,
                self.chunk_map(),
                texture_manager.names(),
                focus,
                distance,
                result,
            ));
        }
        result
    }
}

/// The chunk stored under `key` lies too far out to stay, and `h` is the
/// handle of the mesh that it remembers.
spec fn is_released_at(
    stored: Map<u64, Chunk>,
    key: u64,
    center: (int, int),
    distance: u32,
    h: MeshHandle,
) -> bool {
    &&& !is_kept(center, distance, stored[key].spec_position())
    &&& stored[key].spec_buffer() is Some
    &&& h == handle_of(stored[key].spec_position())
}

proof fn lemma_released_unchanged(
    stored: Map<u64, Chunk>,
    keys: Seq<u64>,
    center: (int, int),
    distance: u32,
    i: int,
    released: Seq<MeshHandle>,
)
    requires
        0 <= i < keys.len(),
        forall|h: MeshHandle| #[trigger]
            released.contains(h) <==> exists|j: int|
                0 <= j < i && is_released_at(stored, #[trigger] keys[j], center, distance, h),
        forall|h: MeshHandle| !is_released_at(stored, keys[i], center, distance, h),
    ensures
        forall|h: MeshHandle| #[trigger]
            released.contains(h) <==> exists|j: int|
                0 <= j < i + 1 && is_released_at(stored, #[trigger] keys[j], center, distance, h),
{
    assert forall|h: MeshHandle| #[trigger]
        released.contains(h) <==> exists|j: int|
            0 <= j < i + 1 && is_released_at(stored, #[trigger] keys[j], center, distance, h) by {
        if released.contains(h) {
            let j = choose|j: int|
                0 <= j < i && is_released_at(stored, #[trigger] keys[j], center, distance, h);
            assert(is_released_at(stored, keys[j], center, distance, h));
        }
        if exists|j: int|
            0 <= j < i + 1 && is_released_at(stored, #[trigger] keys[j], center, distance, h) {
            let j = choose|j: int|
                0 <= j < i + 1 && is_released_at(stored, #[trigger] keys[j], center, distance, h);
            assert(j < i);
        }
    }
}

} // verus!
