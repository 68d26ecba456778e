use pal::error::Error;
use pal::map::{tile_index, TileMap};
use pal::mkf::open;
use pal::sprite::SpriteFrame;

fn frames(n: usize) -> Vec<SpriteFrame> {
    (0..n).map(|i| SpriteFrame { width: 1, height: 1, data: vec![i as u16] }).collect()
}

fn map_with(word: u32, slot: usize, n_frames: usize) -> TileMap {
    let mut tiles = vec![0u32; 16384];
    tiles[slot] = word;
    TileMap { tiles, tile_sprite: frames(n_frames), map_num: 0 }
}

#[test]
fn tile_index_of_ground_layer() {
    assert_eq!(tile_index(0x0000_0105, 0), Some(0x05));
    assert_eq!(tile_index(0x0000_1005, 0), Some(0x105));
    assert_eq!(tile_index(0xffff_efff, 0), Some(0xff));
    assert_eq!(tile_index(0xffff_ffff, 0), Some(0x1ff));
    assert_eq!(tile_index(0, 0), Some(0));
}

#[test]
fn tile_index_of_upper_layer() {
    // the upper half of the word is zero: no tile
    assert_eq!(tile_index(0x0000_0105, 1), None);
    assert_eq!(tile_index(0x0001_0000, 1), Some(0));
    assert_eq!(tile_index(0x1005_0000, 1), Some(0x104));
    assert_eq!(tile_index(0x0f00_ffff, 1), None);
    assert_eq!(tile_index(0xffff_0000, 1), Some(0x1fe));
    // any layer but zero is the upper one
    assert_eq!(tile_index(0x0002_0007, 5), Some(1));
}

#[test]
fn tile_outside_the_grid_is_none() {
    let map = map_with(0, 0, 4);
    assert!(map.get_tile_sprite(64, 0, 0, 0).is_none());
    assert!(map.get_tile_sprite(-1, 0, 0, 0).is_none());
    assert!(map.get_tile_sprite(0, 128, 0, 0).is_none());
    assert!(map.get_tile_sprite(0, -1, 0, 0).is_none());
    assert!(map.get_tile_sprite(0, 0, 2, 0).is_none());
    assert!(map.get_tile_sprite(0, 0, -1, 0).is_none());
    assert!(map.get_tile_sprite(isize::MAX, isize::MIN, 0, 1).is_none());
    // inside the grid tile zero is found
    assert_eq!(map.get_tile_sprite(0, 0, 0, 0).unwrap().data, vec![0]);
    assert_eq!(map.get_tile_sprite(63, 127, 1, 0).unwrap().data, vec![0]);
}

#[test]
fn tile_lookup_by_slot_and_layer() {
    // column 3, row 2, second half: slot (2 * 64 + 3) * 2 + 1
    let map = map_with(0x0003_0002, 263, 4);
    assert_eq!(map.get_tile_sprite(3, 2, 1, 0).unwrap().data, vec![2]);
    assert_eq!(map.get_tile_sprite(3, 2, 1, 1).unwrap().data, vec![2]);
    assert_eq!(map.get_tile_sprite(3, 2, 0, 0).unwrap().data, vec![0]);
    assert!(map.get_tile_sprite(3, 2, 0, 1).is_none());
    // a tile without a frame
    let map = map_with(0x0009_0004, 0, 4);
    assert!(map.get_tile_sprite(0, 0, 0, 0).is_none());
    assert!(map.get_tile_sprite(0, 0, 0, 1).is_none());
}

fn sprite_chunk() -> Vec<u8> {
    vec![1, 0, 0, 0, 3, 0, 1, 0, 1, 0, 1, 42]
}

#[test]
fn map_from_chunks() {
    let mut words = vec![0u8; 65536];
    words[0..4].copy_from_slice(&0x0102_0304u32.to_le_bytes());
    words[65532..65536].copy_from_slice(&0xdead_beefu32.to_le_bytes());
    let map = TileMap::from_chunks(&words, &sprite_chunk(), 7).unwrap();
    assert_eq!(map.map_num, 7);
    assert_eq!(map.tiles.len(), 16384);
    assert_eq!(map.tiles[0], 0x0102_0304);
    assert_eq!(map.tiles[1], 0);
    assert_eq!(map.tiles[16383], 0xdead_beef);
    assert_eq!(map.tile_sprite.len(), 1);
    assert_eq!(map.tile_sprite[0].data, vec![42]);
    // a longer chunk is accepted, a shorter one is not
    words.push(0);
    assert!(TileMap::from_chunks(&words, &sprite_chunk(), 0).is_ok());
    assert_eq!(TileMap::from_chunks(&words[..65535], &sprite_chunk(), 0).unwrap_err(), Error::Data);
    assert_eq!(TileMap::from_chunks(&[], &[], 0).unwrap_err(), Error::Data);
}

fn single_chunk_archive(chunk: &[u8]) -> Vec<u8> {
    let mut v = Vec::new();
    v.extend_from_slice(&8u32.to_le_bytes());
    v.extend_from_slice(&(8 + chunk.len() as u32).to_le_bytes());
    v.extend_from_slice(chunk);
    v
}

fn stored_blocks(payload: &[u8]) -> Vec<u8> {
    // the payload in stored sub-blocks of at most 0x8000 bytes
    let parts: Vec<&[u8]> = payload.chunks(0x8000).collect();
    let mut v = vec![0x59, 0x4a, 0x5f, 0x31];
    v.extend_from_slice(&(payload.len() as u32).to_le_bytes());
    v.extend_from_slice(&[0, 0, 0, 0]);
    v.extend_from_slice(&(parts.len() as u16).to_le_bytes());
    v.extend_from_slice(&[0, 0]);
    for part in parts {
        v.extend_from_slice(&(part.len() as u16).to_le_bytes());
        v.extend_from_slice(&[0, 0]);
        v.extend_from_slice(part);
    }
    v
}

#[test]
fn map_load_from_archives() {
    let mut words = vec![0u8; 65536];
    words[8..12].copy_from_slice(&0x0001_0000u32.to_le_bytes());
    let maps = open(single_chunk_archive(&stored_blocks(&words))).unwrap();
    let tiles = open(single_chunk_archive(&sprite_chunk())).unwrap();
    let map = TileMap::load(&maps, &tiles, 0).unwrap();
    assert_eq!(map.tiles[2], 0x0001_0000);
    assert_eq!(map.get_tile_sprite(1, 0, 0, 1).unwrap().data, vec![42]);
    assert_eq!(map.get_tile_sprite(1, 0, 0, 0).unwrap().data, vec![42]);
    assert!(map.get_tile_sprite(0, 0, 0, 1).is_none());
}

#[test]
fn map_load_failures() {
    let words = vec![0u8; 65536];
    let maps = open(single_chunk_archive(&stored_blocks(&words))).unwrap();
    let tiles = open(single_chunk_archive(&sprite_chunk())).unwrap();
    let none = open(vec![4, 0, 0, 0]).unwrap();
    assert_eq!(TileMap::load(&maps, &tiles, 1).unwrap_err(), Error::Index);
    assert_eq!(TileMap::load(&none, &tiles, 0).unwrap_err(), Error::Index);
    assert_eq!(TileMap::load(&maps, &none, 0).unwrap_err(), Error::Index);
    // the map chunk is no compressed buffer
    assert_eq!(TileMap::load(&tiles, &tiles, 0).unwrap_err(), Error::Format);
    // the map chunk decompresses to too few bytes
    let short = open(single_chunk_archive(&stored_blocks(&words[..100]))).unwrap();
    assert_eq!(TileMap::load(&short, &tiles, 0).unwrap_err(), Error::Data);
}
