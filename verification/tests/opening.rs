use pal::error::Error;
use pal::game::{
    draw_landscape, load_menu_items, main_menu_items, move_cranes, random_cranes, slot_box, unveil,
    Crane, Splash,
};
use pal::mkf::open;
use pal::sprite::SpriteFrame;
use pal::ui::MenuItem;
use pal::utils::Pos;

#[test]
fn crane_placed_by_three_numbers() {
    assert_eq!(Crane::placed(0, 0, 0), Crane { x: 320, y: 80, sprite_id: 0 });
    assert_eq!(Crane::placed(319, 79, 7), Crane { x: 639, y: 159, sprite_id: 7 });
    assert_eq!(Crane::placed(320, 80, 8), Crane { x: 320, y: 80, sprite_id: 0 });
    assert_eq!(Crane::placed(1000, 1000, 1001), Crane { x: 360, y: 120, sprite_id: 1 });
    let m = usize::MAX;
    assert_eq!(
        Crane::placed(m, m, u32::MAX),
        Crane { x: (m % 320 + 320) as isize, y: (m % 80 + 80) as isize, sprite_id: 7 }
    );
}

#[test]
fn random_cranes_start_right_of_the_screen() {
    for _ in 0..20 {
        let cranes = random_cranes();
        assert_eq!(cranes.len(), 8);
        for c in &cranes {
            assert!((320..640).contains(&c.x));
            assert!((80..160).contains(&c.y));
            assert!(c.sprite_id < 8);
        }
    }
}

#[test]
fn cranes_move_left() {
    let mut cranes = vec![
        Crane { x: 320, y: 80, sprite_id: 0 },
        Crane { x: 1, y: 100, sprite_id: 7 },
        Crane { x: -50, y: 90, sprite_id: 3 },
    ];
    move_cranes(&mut cranes);
    assert_eq!(
        cranes,
        vec![
            Crane { x: 318, y: 80, sprite_id: 1 },
            Crane { x: -1, y: 100, sprite_id: 0 },
            Crane { x: -52, y: 90, sprite_id: 4 },
        ]
    );
    let mut none: Vec<Crane> = vec![];
    move_cranes(&mut none);
    assert!(none.is_empty());
}

#[test]
fn title_is_unveiled_three_rows_at_a_time() {
    assert_eq!(unveil(0, 10), 3);
    assert_eq!(unveil(3, 10), 6);
    assert_eq!(unveil(6, 10), 9);
    assert_eq!(unveil(9, 10), 10);
    assert_eq!(unveil(10, 10), 10);
    assert_eq!(unveil(7, 10), 10);
    assert_eq!(unveil(0, 0), 0);
    assert_eq!(unveil(12, 10), 12);
    assert_eq!(unveil(u32::MAX - 2, u32::MAX), u32::MAX);
    assert_eq!(unveil(u32::MAX - 4, u32::MAX), u32::MAX - 1);
}

#[test]
fn landscape_scrolls_in_from_above() {
    let up: Vec<u8> = (0..64000).map(|i| (i / 320) as u8).collect();
    let down: Vec<u8> = (0..64000).map(|i| 200 - (i / 320) as u8).collect();
    let mut px = vec![0u8; 64001];
    px[64000] = 77;
    draw_landscape(&mut px, &up, &down, 0);
    assert_eq!(&px[..64000], &down[..]);
    assert_eq!(px[64000], 77);
    draw_landscape(&mut px, &up, &down, 200);
    assert_eq!(&px[..64000], &up[..]);
    draw_landscape(&mut px, &up, &down, 3);
    // the last three rows of the upper bitmap, then the first rows of the lower one
    assert_eq!(px[0], 197);
    assert_eq!(px[320], 198);
    assert_eq!(px[2 * 320 + 319], 199);
    assert_eq!(px[3 * 320], 200);
    assert_eq!(px[4 * 320], 199);
    assert_eq!(px[199 * 320 + 319], 4);
    assert_eq!(px[64000], 77);
}

fn archive_with(count: usize, chunks: &[(usize, Vec<u8>)]) -> Vec<u8> {
    let mut all: Vec<Vec<u8>> = vec![vec![0]; count];
    for (i, c) in chunks {
        all[*i] = c.clone();
    }
    let table = 4 * (count as u32 + 1);
    let mut v = Vec::new();
    let mut at = table;
    for c in &all {
        v.extend_from_slice(&at.to_le_bytes());
        at += c.len() as u32;
    }
    v.extend_from_slice(&at.to_le_bytes());
    for c in &all {
        v.extend_from_slice(c);
    }
    v
}

fn stored(payload: &[u8]) -> Vec<u8> {
    let mut v = vec![0x59, 0x4a, 0x5f, 0x31];
    v.extend_from_slice(&(payload.len() as u32).to_le_bytes());
    v.extend_from_slice(&[0, 0, 0, 0, 1, 0, 0, 0]);
    v.extend_from_slice(&(payload.len() as u16).to_le_bytes());
    v.extend_from_slice(&[0, 0]);
    v.extend_from_slice(payload);
    v
}

fn crane_chunk(frames: u16) -> Vec<u8> {
    // the offsets behind the count and two more bytes; each frame one cell that holds 10 + i
    let table = 4 + 2 * frames as usize;
    let mut v = vec![0u8; table];
    v[0..2].copy_from_slice(&frames.to_le_bytes());
    for i in 0..frames as usize {
        let at = table + 6 * i;
        v[4 + 2 * i..6 + 2 * i].copy_from_slice(&((at / 2) as u16).to_le_bytes());
    }
    for i in 0..frames {
        v.extend_from_slice(&[1, 0, 1, 0, 1, 10 + i as u8]);
    }
    v
}

fn title_chunk() -> Vec<u8> {
    // one frame, 2 wide and 7 high, every cell 50
    let mut v = vec![1, 0, 0, 0, 3, 0, 2, 0, 7, 0];
    v.extend_from_slice(&[14]);
    v.extend_from_slice(&[50; 14]);
    v
}

fn bitmaps() -> Vec<u8> {
    archive_with(40, &[(0x26, stored(&vec![1u8; 64000])), (0x27, stored(&vec![2u8; 64000]))])
}

fn sprites(frames: u16) -> Vec<u8> {
    archive_with(74, &[(0x47, stored(&title_chunk())), (0x49, stored(&crane_chunk(frames)))])
}

#[test]
fn splash_screen_loads() {
    let fbp = open(bitmaps()).unwrap();
    let mgo = open(sprites(8)).unwrap();
    let s = Splash::load(&fbp, &mgo).ok().unwrap();
    assert_eq!(s.up, vec![1u8; 64000]);
    assert_eq!(s.down, vec![2u8; 64000]);
    assert_eq!(s.crane_sprite.len(), 8);
    assert_eq!(s.crane_sprite[0].data, vec![10]);
    assert_eq!(s.crane_sprite[7].data, vec![17]);
    assert_eq!((s.title.width, s.title.height, s.title_height), (2, 0, 7));
    assert_eq!(s.title.data, vec![50; 14]);
    assert_eq!(s.cranes.len(), 8);
    assert_eq!((s.h_offset, s.frame), (0, 0));
}

#[test]
fn splash_screen_load_failures() {
    let fbp = open(bitmaps()).unwrap();
    let mgo = open(sprites(8)).unwrap();
    let none = open(vec![4, 0, 0, 0]).unwrap();
    assert_eq!(Splash::load(&none, &mgo).err(), Some(Error::Index));
    assert_eq!(Splash::load(&fbp, &none).err(), Some(Error::Index));
    // the chunks are no compressed chunks
    assert_eq!(Splash::load(&mgo, &fbp).err(), Some(Error::Format));
    // seven frames of the crane
    let few = open(sprites(7)).unwrap();
    assert_eq!(Splash::load(&fbp, &few).err(), Some(Error::Index));
    // a bitmap that does not fill the screen
    let small = open(archive_with(
        40,
        &[(0x26, stored(&vec![1u8; 64000])), (0x27, stored(&vec![2u8; 63999]))],
    ))
    .unwrap();
    assert_eq!(Splash::load(&small, &mgo).err(), Some(Error::Data));
}

#[test]
fn splash_screen_steps_and_draws() {
    let fbp = open(bitmaps()).unwrap();
    let mgo = open(sprites(8)).unwrap();
    let mut s = Splash::load(&fbp, &mgo).ok().unwrap();
    s.cranes = vec![Crane { x: 12, y: 100, sprite_id: 6 }];
    let mut px = vec![0u8; 64000];
    s.draw(&mut px);
    let mut expected = vec![2u8; 64000];
    expected[100 * 320 + 12] = 16;
    assert_eq!(px, expected);
    for _ in 0..4 {
        s.step();
    }
    assert_eq!((s.frame, s.h_offset, s.title.height), (4, 4, 0));
    assert_eq!(s.cranes, vec![Crane { x: 12, y: 100, sprite_id: 6 }]);
    s.step();
    assert_eq!((s.frame, s.h_offset, s.title.height), (5, 5, 3));
    assert_eq!(s.cranes, vec![Crane { x: 10, y: 100, sprite_id: 7 }]);
    s.draw(&mut px);
    let mut expected = vec![2u8; 64000];
    for p in expected.iter_mut().take(5 * 320) {
        *p = 1;
    }
    expected[100 * 320 + 10] = 17;
    for y in 5..8 {
        expected[y * 320 + 250] = 50;
        expected[y * 320 + 251] = 50;
    }
    assert_eq!(px, expected);
    for _ in 0..10 {
        s.step();
    }
    assert_eq!((s.frame, s.h_offset, s.title.height), (15, 15, 7));
    for _ in 0..300 {
        s.step();
    }
    assert_eq!((s.frame, s.h_offset, s.title.height), (315, 200, 7));
    assert_eq!(s.cranes[0], Crane { x: 12 - 2 * 63, y: 100, sprite_id: (6 + 63) % 8 });
    s.draw(&mut px);
    assert_eq!(px[0], 1);
    assert_eq!(px[63999], 1);
    assert_eq!(px[11 * 320 + 251], 50);
    assert_eq!(px[12 * 320 + 251], 1);
}

#[test]
fn opening_menus() {
    assert_eq!(
        main_menu_items(),
        vec![
            MenuItem { value: 0, num_word: 7, enabled: true, x: 125, y: 95 },
            MenuItem { value: 1, num_word: 8, enabled: true, x: 125, y: 112 },
        ]
    );
    let slots = load_menu_items();
    assert_eq!(slots.len(), 5);
    assert_eq!(slots[0], MenuItem { value: 1, num_word: 43, enabled: true, x: 210, y: 17 });
    assert_eq!(slots[4], MenuItem { value: 5, num_word: 47, enabled: true, x: 210, y: 169 });
    assert_eq!(slot_box(0), Pos { x: 195, y: 7 });
    assert_eq!(slot_box(4), Pos { x: 195, y: 159 });
    let _ = SpriteFrame { width: 0, height: 0, data: vec![] };
}
