//! The tile map: a grid of 128 rows of 64 cells, two packed 32-bit words per
//! cell, each word naming one tile for the ground layer and one for the
//! layer above it.

use vstd::prelude::*;
use crate::bytes::{le32, read_u32};
use crate::error::Error;
use crate::mkf::{spec_chunk_count, spec_read_chunk, spec_read_chunk_decompressed, MKF};
use crate::sprite::{frames_of, sprite_get_frames, SpriteFrame};

verus! {

/// Cells in a row of the map.
pub const MAP_COLUMNS: usize = 64;

/// Rows of the map.
pub const MAP_ROWS: usize = 128;

/// Packed words of a map: two for each cell.
pub const MAP_WORDS: usize = 16384;

/// Bytes of a decoded map chunk.
pub const MAP_BYTES: usize = 65536;

/// The tile that the packed word `value` names for the ground layer: its low
/// eight bits, with bit 12 of the word as a ninth bit.
pub open spec fn ground_tile(value: u32) -> u32 {
    (value & 0xff) | ((value >> 4) & 0x100)
}

/// The tile that a packed word names for a layer. Layer zero is the ground
/// (see [`ground_tile`]). Any other layer is the one above it: the upper half
/// of the word, read in the same way, names the tile counted from one, and
/// zero means that there is none.
pub open spec fn spec_tile_index(value: u32, layer: nat) -> Option<nat> {
    if layer == 0 {
        Some(ground_tile(value) as nat)
    } else if ground_tile(value >> 16) == 0 {
        None
    } else {
        Some((ground_tile(value >> 16) - 1) as nat)
    }
}

/// The tile that a packed word names for a layer (see [`spec_tile_index`]).
pub fn tile_index(value: u32, layer: usize) -> (r: Option<usize>)
    ensures
        r == match spec_tile_index(value, layer as nat) {
            Some(k) => Some(k as usize),
            None => None,
        },
        r matches Some(k) ==> k < 0x200,
{
    let d: u32 = if layer == 0 {
        value
    } else {
        value >> 16
    };
    let id: u32 = (d & 0xff) | ((d >> 4) & 0x100);
    assert(((d & 0xff) | ((d >> 4) & 0x100)) < 0x200) by (bit_vector);
    if layer == 0 {
        Some(id as usize)
    } else if id == 0 {
        None
    } else {
        Some((id - 1) as usize)
    }
}

/// Where the packed word of column `x`, row `y`, half `h` stands in the map,
/// if there is such a word.
pub open spec fn spec_tile_slot(x: int, y: int, h: int) -> Option<int> {
    if 0 <= x < MAP_COLUMNS && 0 <= y < MAP_ROWS && 0 <= h <= 1 {
        Some((y * MAP_COLUMNS + x) * 2 + h)
    } else {
        None
    }
}

/// The packed words that a decoded map chunk holds: little-endian, one after
/// the other.
pub open spec fn spec_tiles(chunk: Seq<u8>) -> Seq<u32> {
    Seq::new(MAP_WORDS as nat, |i: int| le32(chunk, 4 * i) as u32)
}

/// A tile map with the frames of its tiles.
#[derive(Debug)]
pub struct TileMap {
    pub tiles: Vec<u32>,
    pub tile_sprite: Vec<SpriteFrame>,
    pub map_num: u32,
}

impl TileMap {
    /// A map is well formed when it holds all its packed words and each of
    /// its frames is well formed.
    pub open spec fn wf(&self) -> bool {
        &&& self.tiles@.len() == MAP_WORDS
        &&& forall|k: int| 0 <= k < self.tile_sprite@.len() ==> (#[trigger] self.tile_sprite@[k]).wf()
    }

    /// The frame of the tile at column `x`, row `y`, half `h` for `layer`:
    /// none outside the grid, none where the word names no tile, none where
    /// the map has no frame for the tile.
    pub open spec fn spec_get_tile_sprite(&self, x: int, y: int, h: int, layer: nat) -> Option<
        SpriteFrame,
    > {
        match spec_tile_slot(x, y, h) {
            None => None,
            Some(slot) => match spec_tile_index(self.tiles@[slot], layer) {
                None => None,
                Some(k) => if k < self.tile_sprite@.len() {
                    Some(self.tile_sprite@[k as int])
                } else {
                    None
                },
            },
        }
    }

    /// The frame of a tile (see [`TileMap::spec_get_tile_sprite`]).
    pub fn get_tile_sprite(&self, x: isize, y: isize, h: isize, layer: usize) -> (r: Option<
        &SpriteFrame,
    >)
        requires
            self.wf(),
        ensures
            match r {
                Some(frame) => self.spec_get_tile_sprite(x as int, y as int, h as int, layer as nat)
                    == Some(*frame) && frame.wf(),
                None => self.spec_get_tile_sprite(x as int, y as int, h as int, layer as nat)
                    is None,
            },
            !(0 <= x < MAP_COLUMNS && 0 <= y < MAP_ROWS && 0 <= h <= 1) ==> r is None,
    {
        if x >= 64 || y >= 128 || h > 1 || h < 0 || x < 0 || y < 0 {
            return None;
        }
        let i: usize = ((y as usize) * 64 + (x as usize)) * 2 + (h as usize);
        match tile_index(self.tiles[i], layer) {
            None => None,
            Some(k) => {
                if k < self.tile_sprite.len() {
                    Some(&self.tile_sprite[k])
                } else {
                    None
                }
            },
        }
    }

    /// Why a map cannot be made of a decoded map chunk, if it cannot: the
    /// chunk is shorter than a map (`Error::Data`).
    pub open spec fn chunk_failure(map_chunk: Seq<u8>) -> Option<Error> {
        if map_chunk.len() < MAP_BYTES {
            Some(Error::Data)
        } else {
            None
        }
    }

    /// Makes a map of a decoded map chunk and of the sprite chunk that holds
    /// its tiles.
    pub fn from_chunks(map_chunk: &[u8], gop_chunk: &[u8], map_num: u32) -> (r: Result<TileMap, Error>)
        ensures
            match r {
                Ok(map) => TileMap::chunk_failure(map_chunk@) is None && map.tiles@ == spec_tiles(
                    map_chunk@,
                ) && frames_of(gop_chunk@, map.tile_sprite@) && map.map_num == map_num && map.wf(),
                Err(e) => TileMap::chunk_failure(map_chunk@) == Some(e),
            },
    {
        if map_chunk.len() < MAP_BYTES {
            return Err(Error::Data);
        }
        let mut tiles: Vec<u32> = Vec::new();
        let mut i: usize = 0;
        while i < MAP_WORDS
            invariant
                i <= MAP_WORDS,
                map_chunk@.len() >= MAP_BYTES,
                tiles@.len() == i,
                forall|k: int| 0 <= k < i ==> tiles@[k] == le32(map_chunk@, 4 * k) as u32,
            decreases MAP_WORDS - i,
        {
            tiles.push(read_u32(map_chunk, 4 * i));
            i += 1;
        }
        assert(tiles@ =~= spec_tiles(map_chunk@));
        let tile_sprite: Vec<SpriteFrame> = match sprite_get_frames(gop_chunk) {
            Ok(frames) => frames,
            Err(e) => {
                return Err(e);
            },
        };
        Ok(TileMap { tiles, tile_sprite, map_num })
    }

    /// Why map `map_num` cannot be loaded from the two archives, if it
    /// cannot.
    ///
    /// `Error::Index`: one of the archives has no chunk `map_num`. Otherwise
    /// the error with which the map chunk cannot be read or decompressed, or
    /// `Error::Data` for a decompressed chunk shorter than a map, or the
    /// error with which the sprite chunk cannot be read.
    pub open spec fn load_failure(map_file: Seq<u8>, gop_file: Seq<u8>, map_num: nat) -> Option<
        Error,
    > {
        if spec_chunk_count(map_file) is Err {
            Some(spec_chunk_count(map_file)->Err_0)
        } else if spec_chunk_count(gop_file) is Err {
            Some(spec_chunk_count(gop_file)->Err_0)
        } else if map_num >= spec_chunk_count(map_file)->Ok_0 || map_num >= spec_chunk_count(
            gop_file,
        )->Ok_0 {
            Some(Error::Index)
        } else {
            match spec_read_chunk_decompressed(map_file, map_num) {
                Err(e) => Some(e),
                Ok(map_chunk) => if TileMap::chunk_failure(map_chunk) is Some {
                    TileMap::chunk_failure(map_chunk)
                } else {
                    match spec_read_chunk(gop_file, map_num) {
                        Err(e) => Some(e),
                        Ok(_) => None,
                    }
                },
            }
        }
    }

    /// Loads map `map_num`: its packed words from the archive of maps, the
    /// frames of its tiles from the archive of tile sprites.
    pub fn load(map_mkf: &MKF, gop_mkf: &MKF, map_num: u32) -> (r: Result<TileMap, Error>)
        ensures
            match r {
                Ok(map) => TileMap::load_failure(map_mkf@, gop_mkf@, map_num as nat) is None
                    && map.tiles@ == spec_tiles(
                    spec_read_chunk_decompressed(map_mkf@, map_num as nat)->Ok_0,
                ) && frames_of(spec_read_chunk(gop_mkf@, map_num as nat)->Ok_0, map.tile_sprite@)
                    && map.map_num == map_num && map.wf(),
                Err(e) => TileMap::load_failure(map_mkf@, gop_mkf@, map_num as nat) == Some(e),
            },
    {
        let map_count: u32 = map_mkf.chunk_count();
        let gop_count: u32 = gop_mkf.chunk_count();
        if map_num >= map_count || map_num >= gop_count {
            return Err(Error::Index);
        }
        let map_chunk: Vec<u8> = map_mkf.read_chunk_decompressed(map_num)?;
        if map_chunk.len() < MAP_BYTES {
            return Err(Error::Data);
        }
        let gop_chunk: Vec<u8> = gop_mkf.read_chunk(map_num)?;
        TileMap::from_chunks(map_chunk.as_slice(), gop_chunk.as_slice(), map_num)
    }
}

} // verus!
