//! Block kinds and the texture layer each kind shows on each of its faces.

use vstd::prelude::*;
use crate::texture::{slot_of, ConfigurationError, TextureManager, TextureSlot};

verus! {

/// What a voxel holds. `Air` is the empty value and carries no geometry.
#[derive(Clone, Copy, PartialEq, Eq, Structural, Debug, Hash)]
pub enum Block {
    Air,
    Grass,
    Dirt,
    Stone,
    Cobblestone,
    Bedrock,
}

impl Default for Block {
    fn default() -> (block: Block)
        ensures
            block == Block::Air,
    {
        Block::Air
    }
}

/// The six axis directions, in the order in which per-face data is stored.
///
/// North is towards larger `x`, south towards smaller `x`; east is towards
/// smaller `z`, west towards larger `z`.
#[derive(Clone, Copy, PartialEq, Eq, Structural, Debug, Hash)]
pub enum Cardinal {
    Up,
    Down,
    North,
    South,
    East,
    West,
}

impl Cardinal {
    /// Position of this direction in per-face arrays.
    pub open spec fn spec_index(self) -> usize {
        match self {
            Cardinal::Up => 0usize,
            Cardinal::Down => 1usize,
            Cardinal::North => 2usize,
            Cardinal::South => 3usize,
            Cardinal::East => 4usize,
            Cardinal::West => 5usize,
        }
    }

    /// The direction that points the other way.
    pub open spec fn spec_opposite(self) -> Cardinal {
        match self {
            Cardinal::Up => Cardinal::Down,
            Cardinal::Down => Cardinal::Up,
            Cardinal::North => Cardinal::South,
            Cardinal::South => Cardinal::North,
            Cardinal::East => Cardinal::West,
            Cardinal::West => Cardinal::East,
        }
    }

    /// Position of this direction in per-face arrays.
    #[verifier::when_used_as_spec(spec_index)]
    pub fn index(self) -> (i: usize)
        ensures
            i == self.spec_index(),
            i < 6,
    {
        match self {
            Cardinal::Up => 0,
            Cardinal::Down => 1,
            Cardinal::North => 2,
            Cardinal::South => 3,
            Cardinal::East => 4,
            Cardinal::West => 5,
        }
    }

    /// The direction that points the other way.
    #[verifier::when_used_as_spec(spec_opposite)]
    pub fn opposite(self) -> (d: Cardinal)
        ensures
            d == self.spec_opposite(),
    {
        match self {
            Cardinal::Up => Cardinal::Down,
            Cardinal::Down => Cardinal::Up,
            Cardinal::North => Cardinal::South,
            Cardinal::South => Cardinal::North,
            Cardinal::East => Cardinal::West,
            Cardinal::West => Cardinal::East,
        }
    }
}

/// Six slots that all show the layer called `name`.
pub open spec fn uniform_texture_ids(names: Seq<Seq<char>>, name: Seq<char>) -> Result<
    Seq<TextureSlot>,
    Seq<char>,
> {
    match slot_of(names, name) {
        Some(slot) => Ok(seq![slot, slot, slot, slot, slot, slot]),
        None => Err(name),
    }
}

/// The layer on each face of `block`, indexed by `Cardinal::index`, or the
/// first name looked up that `names` lacks.
///
/// Grass shows `grass_top` above, `dirt` below and `grass_side` on its four
/// sides, looked up in that order. Every other solid kind shows the layer
/// named after it on all six faces. Air needs no layer; its slots are zero.
pub open spec fn block_texture_ids(block: Block, names: Seq<Seq<char>>) -> Result<
    Seq<TextureSlot>,
    Seq<char>,
> {
    match block {
        Block::Air => Ok(seq![0usize, 0usize, 0usize, 0usize, 0usize, 0usize]),
        Block::Grass => match slot_of(names, "grass_top"@) {
            None => Err("grass_top"@),
            Some(top) => match slot_of(names, "dirt"@) {
                None => Err("dirt"@),
                Some(bottom) => match slot_of(names, "grass_side"@) {
                    None => Err("grass_side"@),
                    Some(side) => Ok(seq![top, bottom, side, side, side, side]),
                },
            },
        },
        Block::Dirt => uniform_texture_ids(names, "dirt"@),
        Block::Stone => uniform_texture_ids(names, "stone"@),
        Block::Cobblestone => uniform_texture_ids(names, "cobblestone"@),
        Block::Bedrock => uniform_texture_ids(names, "bedrock"@),
    }
}

/// `result` is the exec counterpart of `expected`.
pub open spec fn texture_ids_match(
    result: Result<[TextureSlot; 6], ConfigurationError>,
    expected: Result<Seq<TextureSlot>, Seq<char>>,
) -> bool {
    match (result, expected) {
        (Ok(ids), Ok(slots)) => ids@ == slots,
        (Err(e), Err(name)) => e.name@ == name,
        _ => false,
    }
}

fn uniform_ids(texture_manager: &TextureManager, name: String) -> (result: Result<
    [TextureSlot; 6],
    ConfigurationError,
>)
    ensures
        texture_ids_match(result, uniform_texture_ids(texture_manager.names(), name@)),
{
    match texture_manager.try_get_id(name) {
        Ok(slot) => Ok([slot, slot, slot, slot, slot, slot]),
        Err(e) => Err(e),
    }
}

/// Resolves the texture layer of each face of `block` against the atlas, or
/// tells which texture the atlas lacks.
pub fn try_get_block_texture_ids(block: Block, texture_manager: &TextureManager) -> (result: Result<
    [TextureSlot; 6],
    ConfigurationError,
>)
    ensures
        texture_ids_match(result, block_texture_ids(block, texture_manager.names())),
{
    match block {
        Block::Air => Ok([0, 0, 0, 0, 0, 0]),
        Block::Grass => {
            let top = match texture_manager.try_get_id("grass_top".to_owned()) {
                Ok(slot) => slot,
                Err(e) => { return Err(e); },
            };
            let bottom = match texture_manager.try_get_id("dirt".to_owned()) {
                Ok(slot) => slot,
                Err(e) => { return Err(e); },
            };
            let side = match texture_manager.try_get_id("grass_side".to_owned()) {
                Ok(slot) => slot,
                Err(e) => { return Err(e); },
            };
            Ok([top, bottom, side, side, side, side])
        },
        Block::Dirt => uniform_ids(texture_manager, "dirt".to_owned()),
        Block::Stone => uniform_ids(texture_manager, "stone".to_owned()),
        Block::Cobblestone => uniform_ids(texture_manager, "cobblestone".to_owned()),
        Block::Bedrock => uniform_ids(texture_manager, "bedrock".to_owned()),
    }
}

/// The texture layer of each face of `block`, all of which the atlas must
/// hold. To ask for a block whose textures the atlas lacks is a fault of the
/// configuration; `try_get_block_texture_ids` tells whether it does.
pub fn get_block_texture_ids(block: Block, texture_manager: &TextureManager) -> (ids: [TextureSlot; 6])
    requires
        block_texture_ids(block, texture_manager.names()) is Ok,
    ensures
        block_texture_ids(block, texture_manager.names()) == Ok::<Seq<TextureSlot>, Seq<char>>(ids@),
{
    match try_get_block_texture_ids(block, texture_manager) {
        Ok(ids) => ids,
        Err(_) => [0, 0, 0, 0, 0, 0],
    }
}

} // verus!
