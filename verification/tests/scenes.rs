use pal::data::{EventObject, GameState, Object, Scene};
use pal::error::Error;
use pal::map::TileMap;
use pal::mkf::open;
use pal::play::{draw_scene, load_sprite, move_viewport, Resource};
use pal::scene::{
    draw_map, draw_scence_sprites, make_scence, position_caption, scene_caption,
};
use pal::sprite::SpriteFrame;
use pal::ui::UI;
use pal::utils::{Dir, Pos, Rect};

fn one(cell: u16) -> SpriteFrame {
    SpriteFrame { width: 1, height: 1, data: vec![cell] }
}

fn flat_map() -> TileMap {
    TileMap { tiles: vec![0u32; 16384], tile_sprite: vec![one(5), one(6)], map_num: 0 }
}

fn expected_tiles(rect: &Rect, cell: u8) -> Vec<u8> {
    let mut px = vec![9u8; 64000];
    let sy = rect.y / 16 - 1;
    let dy = (rect.y + rect.h as isize) / 16 + 2;
    let sx = rect.x / 32 - 1;
    let dx = (rect.x + rect.w as isize) / 32 + 2;
    for y in sy..dy {
        for h in 0..2 {
            for x in sx..dx {
                let at_x = x * 32 + h * 16 - 16 - rect.x;
                let at_y = y * 16 + h * 8 - 8 - rect.y;
                if (0..320).contains(&at_x) && (0..200).contains(&at_y) {
                    px[(at_y * 320 + at_x) as usize] = cell;
                }
            }
        }
    }
    px
}

#[test]
fn tiles_in_staggered_rows() {
    let map = flat_map();
    let rect = Rect { x: 0, y: 0, w: 320, h: 200 };
    let mut px = vec![9u8; 64000];
    draw_map(&mut px, &map, &rect, 0);
    assert_eq!(px, expected_tiles(&rect, 5));
    // second halves at multiples of 32 and 16, first halves 16 to the right and 8 higher
    assert_eq!(px[0], 5);
    assert_eq!(px[32], 5);
    assert_eq!(px[8 * 320 + 16], 5);
    assert_eq!(px[16 * 320 + 32], 5);
    assert_eq!(px[16], 9);
    assert_eq!(px[8 * 320], 9);
    assert_eq!(px.iter().filter(|p| **p == 5).count(), 10 * 13 + 10 * 12);
}

#[test]
fn tiles_for_a_view_left_of_and_above_the_map() {
    let map = flat_map();
    for (x, y) in [(-40isize, -23isize), (-1, -1), (7, 3), (-320, -200), (100000, -100000)] {
        let rect = Rect { x, y, w: 320, h: 200 };
        let mut px = vec![9u8; 64000];
        draw_map(&mut px, &map, &rect, 0);
        assert_eq!(px, expected_tiles(&rect, 5));
    }
}

#[test]
fn upper_layer_without_tiles_draws_nothing() {
    let map = flat_map();
    let rect = Rect { x: 0, y: 0, w: 320, h: 200 };
    let mut px = vec![9u8; 64000];
    draw_map(&mut px, &map, &rect, 1);
    assert_eq!(px, vec![9u8; 64000]);
}

#[test]
fn tile_of_a_cell_and_fallback() {
    let mut map = flat_map();
    // column 1, row 1, first half names tile 1 on the ground and, counted from one, tile 1
    // above it; no other cell names a tile above the ground, nor does the first cell
    map.tiles[(1 * 64 + 1) * 2] = 0x0002_0001;
    let rect = Rect { x: 0, y: 0, w: 320, h: 200 };
    let mut px = vec![9u8; 64000];
    draw_map(&mut px, &map, &rect, 0);
    assert_eq!(px[8 * 320 + 16], 6);
    assert_eq!(px.iter().filter(|p| **p == 6).count(), 1);
    let mut px = vec![9u8; 64000];
    draw_map(&mut px, &map, &rect, 1);
    assert_eq!(px[8 * 320 + 16], 6);
    assert_eq!(px.iter().filter(|p| **p != 9).count(), 1);
}

fn object(x: u16, y: u16, layer: u16, state: u16) -> EventObject {
    EventObject {
        vanish_time: 0,
        x,
        y,
        layer,
        trigger_script: 0,
        auto_script: 0,
        state,
        trigger_mode: 0,
        sprite_num: 0,
        sprite_frames: 0,
        direction: 0,
        current_frame_num: 0,
        script_idle_frame: 0,
        sprite_ptr_offset: 0,
        sprite_frames_auto: 0,
        script_idle_frame_count_auto: 0,
    }
}

#[test]
fn objects_of_a_scene() {
    let frame = || SpriteFrame { width: 4, height: 2, data: vec![1, 2, 3, 4, 5, 6, 7, 8] };
    let sprites = vec![vec![frame()], vec![frame()], vec![], vec![frame()]];
    let objects = vec![
        object(0, 0, 0, 0),
        // drawn: x = 50 - 10 - 2 = 38, y = 60 - 20 + 9 - 2 - 0 = 47
        object(50, 60, 0, 0),
        // not hidden: not drawn
        object(80, 60, 0, 1),
        // no frames: not drawn
        object(90, 60, 0, 0),
        // layer 2: y = 60 - 20 + 25 - 2 - 2 = 61
        object(100, 60, 2, 0),
    ];
    let rect = Rect { x: 10, y: 20, w: 320, h: 200 };
    let mut px = vec![9u8; 64000];
    draw_scence_sprites(&mut px, &sprites, &objects, &rect, 1, 4);
    let mut expected = vec![9u8; 64000];
    for (x, y) in [(38usize, 47usize), (88, 61)] {
        for r in 0..2 {
            for c in 0..4 {
                expected[(y + r) * 320 + x + c] = (r * 4 + c + 1) as u8;
            }
        }
    }
    assert_eq!(px, expected);
}

#[test]
fn objects_off_the_screen() {
    let frame = || SpriteFrame { width: 4, height: 2, data: vec![1; 8] };
    let sprites = vec![vec![frame()], vec![frame()], vec![frame()]];
    // x = -7 < -width; x = 320; vy = 200
    let objects = vec![object(5, 60, 0, 0), object(332, 60, 0, 0), object(50, 211, 0, 0)];
    let rect = Rect { x: 10, y: 20, w: 320, h: 200 };
    let mut px = vec![9u8; 64000];
    draw_scence_sprites(&mut px, &sprites, &objects, &rect, 0, 3);
    assert_eq!(px, vec![9u8; 64000]);
    // one pixel further in, each is drawn: the first still left of the screen, of the
    // second its first column, the third whole
    let objects = vec![object(8, 60, 0, 0), object(331, 60, 0, 0), object(50, 210, 0, 0)];
    let mut px = vec![9u8; 64000];
    draw_scence_sprites(&mut px, &sprites, &objects, &rect, 0, 3);
    assert_eq!(px.iter().filter(|p| **p == 1).count(), 10);
    assert_eq!(px[47 * 320 + 319], 1);
    assert_eq!(px[48 * 320 + 319], 1);
    assert_eq!(px[197 * 320 + 38], 1);
    assert_eq!(px[198 * 320 + 41], 1);
}

#[test]
fn captions() {
    assert_eq!(scene_caption(0), "場景0");
    assert_eq!(scene_caption(7), "場景7");
    assert_eq!(scene_caption(65535), "場景65535");
    assert_eq!(position_caption(300, 300), "坐標300，300");
    assert_eq!(position_caption(-12, 0), "坐標-12，0");
    assert_eq!(
        position_caption(isize::MIN, isize::MAX),
        format!("坐標{}，{}", isize::MIN, isize::MAX)
    );
}

#[test]
fn view_moves_in_steps_of_thirty() {
    let v = Rect { x: 300, y: 300, w: 320, h: 200 };
    assert_eq!(move_viewport(v, Dir::North), Rect { x: 300, y: 270, w: 320, h: 200 });
    assert_eq!(move_viewport(v, Dir::South), Rect { x: 300, y: 330, w: 320, h: 200 });
    assert_eq!(move_viewport(v, Dir::East), Rect { x: 330, y: 300, w: 320, h: 200 });
    assert_eq!(move_viewport(v, Dir::West), Rect { x: 270, y: 300, w: 320, h: 200 });
    assert_eq!(move_viewport(v, Dir::Unknown), v);
    let w = Rect { x: 0, y: 10, w: 1, h: 2 };
    assert_eq!(move_viewport(w, Dir::West), Rect { x: -30, y: 10, w: 1, h: 2 });
}

fn archive(chunks: &[Vec<u8>]) -> Vec<u8> {
    let table = 4 * (chunks.len() as u32 + 1);
    let mut v = Vec::new();
    let mut at = table;
    for c in chunks {
        v.extend_from_slice(&at.to_le_bytes());
        at += c.len() as u32;
    }
    v.extend_from_slice(&at.to_le_bytes());
    for c in chunks {
        v.extend_from_slice(c);
    }
    v
}

fn stored(payload: &[u8]) -> Vec<u8> {
    let parts: Vec<&[u8]> = payload.chunks(0x8000).collect();
    let mut v = vec![0x59, 0x4a, 0x5f, 0x31];
    v.extend_from_slice(&(payload.len() as u32).to_le_bytes());
    v.extend_from_slice(&[0, 0, 0, 0]);
    v.extend_from_slice(&(parts.len() as u16).to_le_bytes());
    v.extend_from_slice(&[0, 0]);
    for part in parts {
        v.extend_from_slice(&(part.len() as u16).to_le_bytes());
        v.extend_from_slice(&[0, 0]);
        v.extend_from_slice(part);
    }
    v
}

fn sprite_chunk(cell: u8) -> Vec<u8> {
    vec![1, 0, 0, 0, 3, 0, 1, 0, 1, 0, 1, cell]
}

fn scene(map_num: u16, event_object_index: u16) -> Scene {
    Scene { map_num, script_on_enter: 0, script_on_teleport: 0, event_object_index }
}

fn state(scene_num: u16) -> GameState {
    let mut second = object(50, 60, 0, 0);
    second.sprite_num = 1;
    GameState {
        objects: vec![Object { data: [0; 6] }],
        scenes: vec![scene(0, 0), scene(0, 2), scene(0, 2)],
        event_objects: vec![object(20, 30, 0, 0), second],
        entering_scene: true,
        scene_num,
    }
}

#[test]
fn resource_of_a_scene() {
    let maps = open(archive(&[stored(&vec![0u8; 65536])])).unwrap();
    let tiles = open(archive(&[sprite_chunk(5)])).unwrap();
    let sprites = open(archive(&[stored(&sprite_chunk(7)), stored(&sprite_chunk(8))])).unwrap();
    let r = Resource::load(&maps, &tiles, &sprites, &state(1)).ok().unwrap();
    assert_eq!(r.map.tiles.len(), 16384);
    assert_eq!(r.map.tile_sprite[0].data, vec![5]);
    assert_eq!(r.event_object_sprites.len(), 2);
    assert_eq!(r.event_object_sprites[0][0].data, vec![7]);
    assert_eq!(r.event_object_sprites[1][0].data, vec![8]);
    // the second scene has no objects
    let r = Resource::load(&maps, &tiles, &sprites, &state(2)).ok().unwrap();
    assert!(r.event_object_sprites.is_empty());
    assert_eq!(load_sprite(&sprites, 1).ok().unwrap()[0].data, vec![8]);
    assert_eq!(load_sprite(&sprites, 2).err(), Some(Error::Index));
}

#[test]
fn resource_failures() {
    let maps = open(archive(&[stored(&vec![0u8; 65536])])).unwrap();
    let tiles = open(archive(&[sprite_chunk(5)])).unwrap();
    let sprites = open(archive(&[stored(&sprite_chunk(7)), stored(&sprite_chunk(8))])).unwrap();
    // no scene zero, no scene beyond the last, no scene after the last
    assert_eq!(Resource::load(&maps, &tiles, &sprites, &state(0)).err(), Some(Error::Index));
    assert_eq!(Resource::load(&maps, &tiles, &sprites, &state(4)).err(), Some(Error::Index));
    assert_eq!(Resource::load(&maps, &tiles, &sprites, &state(3)).err(), Some(Error::Index));
    // the map comes first
    let mut s = state(1);
    s.scenes[0].map_num = 9;
    assert_eq!(Resource::load(&maps, &tiles, &sprites, &s).err(), Some(Error::Index));
    assert_eq!(Resource::load(&tiles, &tiles, &sprites, &state(1)).err(), Some(Error::Format));
    // the next scene starts before this one
    let mut s = state(1);
    s.scenes[0].event_object_index = 3;
    assert_eq!(Resource::load(&maps, &tiles, &sprites, &s).err(), Some(Error::Data));
    // more objects than there are
    let mut s = state(1);
    s.scenes[1].event_object_index = 3;
    assert_eq!(Resource::load(&maps, &tiles, &sprites, &s).err(), Some(Error::Index));
    // a sprite that is no compressed chunk
    let raw = open(archive(&[stored(&sprite_chunk(7)), sprite_chunk(8)])).unwrap();
    assert_eq!(Resource::load(&maps, &tiles, &raw, &state(1)).err(), Some(Error::Format));
}

fn interface() -> UI {
    let sprite: Vec<SpriteFrame> = (0..47).map(|i| one(100 + i as u16)).collect();
    let mut glyph = vec![0u8; 32];
    glyph[0] = 1;
    UI {
        font_chars: vec!['場', '坐'],
        fonts: vec![glyph.clone(), glyph],
        msgs: vec![],
        words: vec![],
        encoding: "Big5",
        sprite,
    }
}

#[test]
fn scene_with_captions() {
    let resource = Resource {
        map: flat_map(),
        event_object_sprites: vec![vec![one(7)], vec![one(8)]],
    };
    let s = state(1);
    let viewport = Pos { x: 0, y: 0 };
    let rect = Rect { x: 0, y: 0, w: 320, h: 200 };
    let mut px = vec![9u8; 64000];
    make_scence(&mut px, &resource, &s, &interface(), &viewport);
    let mut expected = expected_tiles(&rect, 5);
    // the objects of the scene: two, counted from the number of the scene less one
    expected[(30 + 9 - 1) * 320 + 20] = 7;
    expected[(60 + 9 - 1) * 320 + 50] = 8;
    // "場景1": the glyph with its shadow, a character without a glyph, the digit one
    for (x, y, c) in [(1, 1, 0u8), (1, 0, 0), (0, 1, 0), (0, 0, 15), (32, 4, 130)] {
        expected[y * 320 + x] = c;
    }
    // "坐標0，0" at height 18
    for (x, y, c) in [(1, 19, 0u8), (1, 18, 0), (0, 19, 0), (0, 18, 15), (32, 22, 129), (56, 22, 129)] {
        expected[y * 320 + x] = c;
    }
    assert_eq!(px, expected);
    // the same without captions
    let mut px = vec![9u8; 64000];
    draw_scene(&mut px, &resource, &s.event_objects, &rect, 0, 2);
    let mut expected = expected_tiles(&rect, 5);
    expected[(30 + 9 - 1) * 320 + 20] = 7;
    expected[(60 + 9 - 1) * 320 + 50] = 8;
    assert_eq!(px, expected);
}
