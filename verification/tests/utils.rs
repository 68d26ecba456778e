use pal::error::Error;
use pal::input::{game_key, key_code, InputState, KeyCode, PalKey};
use pal::utils::{reverse_bits, Dir};

#[test]
fn dir_from_number() {
    assert_eq!(Dir::from_u8(0), Dir::South);
    assert_eq!(Dir::from_u8(1), Dir::West);
    assert_eq!(Dir::from_u8(2), Dir::North);
    assert_eq!(Dir::from_u8(3), Dir::East);
    assert_eq!(Dir::from_u8(4), Dir::Unknown);
    assert_eq!(Dir::from_u8(255), Dir::Unknown);
    for n in 0u8..4 {
        assert_eq!(Dir::from_u8(n).index(), n as usize);
    }
    assert_eq!(Dir::Unknown.index(), 4);
}

#[test]
fn bits_reversed() {
    assert_eq!(reverse_bits(0x00), 0x00);
    assert_eq!(reverse_bits(0xff), 0xff);
    assert_eq!(reverse_bits(0x01), 0x80);
    assert_eq!(reverse_bits(0x80), 0x01);
    assert_eq!(reverse_bits(0x12), 0x48);
    assert_eq!(reverse_bits(0xa5), 0xa5);
    assert_eq!(reverse_bits(0x0f), 0xf0);
    for b in 0..=255u8 {
        assert_eq!(reverse_bits(reverse_bits(b)), b);
        assert_eq!(reverse_bits(b), b.reverse_bits());
    }
}

#[test]
fn error_messages() {
    assert_eq!(Error::Io.message(), "unexpected end of storage");
    assert_eq!(Error::Format.message(), "invalid format");
    assert_eq!(Error::Index.message(), "index out of bounds");
    assert_eq!(Error::Data.message(), "invalid data");
}

#[test]
fn key_masks() {
    assert_eq!(PalKey::NoKey.mask(), 0);
    assert_eq!(PalKey::Menu.mask(), 1);
    assert_eq!(PalKey::Search.mask(), 1 << 1);
    assert_eq!(PalKey::Down.mask(), 1 << 2);
    assert_eq!(PalKey::Left.mask(), 1 << 3);
    assert_eq!(PalKey::Up.mask(), 1 << 4);
    assert_eq!(PalKey::Right.mask(), 1 << 5);
    assert_eq!(PalKey::PgUp.mask(), 1 << 6);
    assert_eq!(PalKey::PgDn.mask(), 1 << 7);
    assert_eq!(PalKey::Repeat.mask(), 1 << 8);
    assert_eq!(PalKey::Auto.mask(), 1 << 9);
    assert_eq!(PalKey::Defend.mask(), 1 << 10);
    assert_eq!(PalKey::UseItem.mask(), 1 << 11);
    assert_eq!(PalKey::ThrowItem.mask(), 1 << 12);
    assert_eq!(PalKey::Flee.mask(), 1 << 13);
    assert_eq!(PalKey::Status.mask(), 1 << 14);
    assert_eq!(PalKey::Force.mask(), 1 << 15);
    assert_eq!(PalKey::Home.mask(), 1 << 16);
    assert_eq!(PalKey::End.mask(), 1 << 17);
}

#[test]
fn key_slots() {
    assert_eq!(key_code(0), KeyCode::Up);
    assert_eq!(key_code(1), KeyCode::NumPad8);
    assert_eq!(key_code(12), KeyCode::NumPad0);
    assert_eq!(key_code(16), KeyCode::LeftCtrl);
    assert_eq!(key_code(32), KeyCode::S);
    assert_eq!(game_key(key_code(0)), PalKey::Up);
    assert_eq!(game_key(key_code(3)), PalKey::Down);
    assert_eq!(game_key(key_code(8)), PalKey::Menu);
    assert_eq!(game_key(key_code(14)), PalKey::Search);
    assert_eq!(game_key(key_code(31)), PalKey::Force);
    assert_eq!(game_key(key_code(32)), PalKey::Status);
}

#[test]
fn input_state_pressed_keys() {
    let mut s = InputState::new();
    assert_eq!(s.dir, Dir::Unknown);
    assert_eq!(s.key_press, 0);
    assert_eq!(s.key_order, [0; 4]);
    assert_eq!(s.key_max_count, 0);
    assert_eq!(s.key_last_time, [0; 33]);
    assert!(!s.is_any_pressed());
    assert!(!s.is_pressed(PalKey::Search));
    s.key_press = PalKey::Search.mask() | PalKey::Up.mask();
    assert!(s.is_any_pressed());
    assert!(s.is_pressed(PalKey::Search));
    assert!(s.is_pressed(PalKey::Up));
    assert!(!s.is_pressed(PalKey::Down));
    assert!(!s.is_pressed(PalKey::NoKey));
}

#[test]
fn input_state_directions() {
    let mut s = InputState::new();
    assert_eq!(s.key_to_dir(PalKey::Left), Dir::West);
    assert_eq!(s.key_to_dir(PalKey::Right), Dir::East);
    assert_eq!(s.key_to_dir(PalKey::Up), Dir::North);
    assert_eq!(s.key_to_dir(PalKey::Down), Dir::South);
    assert_eq!(s.key_to_dir(PalKey::Menu), Dir::Unknown);
    assert_eq!(s.get_max_key_count(), (0, 0));
    assert_eq!(s.get_cur_dir(), Dir::Unknown);
    s.key_order = [3, 9, 2, 9];
    assert_eq!(s.get_max_key_count(), (9, 1));
    assert_eq!(s.get_cur_dir(), Dir::West);
    s.key_order = [0, 0, 0, 1];
    assert_eq!(s.get_max_key_count(), (1, 3));
    assert_eq!(s.get_cur_dir(), Dir::East);
}
