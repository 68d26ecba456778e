use pal::data::{
    decode_c_structs, read_records, EventObject, GameData, GameState, Object, ObjectState, Scene,
    ScriptEntry,
};
use pal::error::Error;
use pal::mkf::open;

fn words(ws: &[u16]) -> Vec<u8> {
    let mut v = Vec::new();
    for w in ws {
        v.extend_from_slice(&w.to_le_bytes());
    }
    v
}

#[test]
fn script_entries_decode() {
    let buf = words(&[0x0102, 1, 2, 3, 0xffff, 4, 5, 6]);
    let v = decode_c_structs::<ScriptEntry>(&buf).unwrap();
    assert_eq!(
        v,
        vec![
            ScriptEntry { operation: 0x0102, operands: [1, 2, 3] },
            ScriptEntry { operation: 0xffff, operands: [4, 5, 6] },
        ]
    );
}

#[test]
fn records_are_little_endian() {
    let v = decode_c_structs::<Scene>(&[0x34, 0x12, 0x78, 0x56, 0xbc, 0x9a, 0xf0, 0xde]).unwrap();
    assert_eq!(
        v,
        vec![Scene {
            map_num: 0x1234,
            script_on_enter: 0x5678,
            script_on_teleport: 0x9abc,
            event_object_index: 0xdef0,
        }]
    );
}

#[test]
fn trailing_bytes_are_ignored() {
    let mut buf = words(&[1, 2, 3, 4, 5, 6, 7, 8]);
    buf.extend_from_slice(&[9, 9, 9]);
    let v = decode_c_structs::<Scene>(&buf).unwrap();
    assert_eq!(v.len(), 2);
    assert_eq!(v[1].map_num, 5);
    assert_eq!(v[1].event_object_index, 8);
}

#[test]
fn buffer_shorter_than_a_record_is_data_error() {
    assert_eq!(decode_c_structs::<Scene>(&[]).unwrap_err(), Error::Data);
    assert_eq!(decode_c_structs::<Scene>(&[1, 2, 3, 4, 5, 6, 7]).unwrap_err(), Error::Data);
    assert_eq!(decode_c_structs::<Object>(&words(&[1, 2, 3, 4, 5])).unwrap_err(), Error::Data);
    assert_eq!(decode_c_structs::<EventObject>(&words(&[0; 15])).unwrap_err(), Error::Data);
}

#[test]
fn event_object_fields() {
    let ws: Vec<u16> = (1..=16).collect();
    let v = decode_c_structs::<EventObject>(&words(&ws)).unwrap();
    assert_eq!(v.len(), 1);
    let e = v[0];
    assert_eq!(e.vanish_time, 1);
    assert_eq!(e.x, 2);
    assert_eq!(e.y, 3);
    assert_eq!(e.layer, 4);
    assert_eq!(e.trigger_script, 5);
    assert_eq!(e.auto_script, 6);
    assert_eq!(e.state, 7);
    assert_eq!(e.trigger_mode, 8);
    assert_eq!(e.sprite_num, 9);
    assert_eq!(e.sprite_frames, 10);
    assert_eq!(e.direction, 11);
    assert_eq!(e.current_frame_num, 12);
    assert_eq!(e.script_idle_frame, 13);
    assert_eq!(e.sprite_ptr_offset, 14);
    assert_eq!(e.sprite_frames_auto, 15);
    assert_eq!(e.script_idle_frame_count_auto, 16);
}

#[test]
fn object_read_as_each_kind() {
    let v = decode_c_structs::<Object>(&words(&[10, 20, 30, 40, 50, 60])).unwrap();
    let o = v[0];
    assert_eq!(o.data, [10, 20, 30, 40, 50, 60]);
    let p = o.as_player();
    assert_eq!((p.reserved, p.script_on_friend_death, p.script_on_dying), ([10, 20], 30, 40));
    let i = o.as_item();
    assert_eq!(
        (i.bitmap, i.price, i.script_on_use, i.script_on_equip, i.script_on_throw, i.flags),
        (10, 20, 30, 40, 50, 60)
    );
    let m = o.as_magic();
    assert_eq!(
        (m.magic_number, m.reserved1, m.script_on_success, m.script_on_use, m.reserved2, m.flags),
        (10, 20, 30, 40, 50, 60)
    );
    let e = o.as_enemy();
    assert_eq!(
        (
            e.enemy_id,
            e.resistance_to_sorcery,
            e.script_on_turn_start,
            e.script_on_battle_end,
            e.script_on_ready
        ),
        (10, 20, 30, 40, 50)
    );
    let q = o.as_poison();
    assert_eq!(
        (q.poison_level, q.color, q.player_script, q.reserved, q.enemy_script),
        (10, 20, 30, 40, 50)
    );
}

#[test]
fn object_state_codes() {
    assert_eq!(ObjectState::Hidden.code(), 0);
    assert_eq!(ObjectState::Normal.code(), 1);
    assert_eq!(ObjectState::Blocker.code(), 2);
}

fn archive(chunks: &[Vec<u8>]) -> Vec<u8> {
    let table = 4 * (chunks.len() as u32 + 1);
    let mut v = Vec::new();
    let mut at = table;
    for c in chunks {
        v.extend_from_slice(&at.to_le_bytes());
        at += c.len() as u32;
    }
    v.extend_from_slice(&at.to_le_bytes());
    for c in chunks {
        v.extend_from_slice(c);
    }
    v
}

fn script_archive() -> Vec<u8> {
    let events: Vec<u16> = (0..32).collect();
    archive(&[
        words(&events),
        words(&[1, 0, 0, 0, 2, 0, 0, 1, 3, 0, 0, 2]),
        words(&[1, 2, 3, 4, 5, 6]),
        words(&[7, 8, 9, 10]),
    ])
}

#[test]
fn game_data_from_archive() {
    let sss = open(script_archive()).unwrap();
    let data = open(vec![4, 0, 0, 0]).unwrap();
    let g = GameData::load(&sss, &data).unwrap();
    assert_eq!(g.script_entries, vec![ScriptEntry { operation: 7, operands: [8, 9, 10] }]);
    assert_eq!(GameData::load(&data, &sss).err().unwrap(), Error::Index);
}

#[test]
fn new_game_from_archive() {
    let sss = open(script_archive()).unwrap();
    let s = GameState::load_new_game(&sss).unwrap();
    assert_eq!(s.event_objects.len(), 2);
    assert_eq!(s.event_objects[1].vanish_time, 16);
    assert_eq!(s.scenes.len(), 3);
    assert_eq!(s.scenes[2].map_num, 3);
    assert_eq!(s.scenes[2].event_object_index, 2);
    assert_eq!(s.objects.len(), 1);
    assert_eq!(s.objects[0].data, [1, 2, 3, 4, 5, 6]);
    assert!(s.entering_scene);
    assert_eq!(s.scene_num, 1);
}

#[test]
fn new_game_failures() {
    // no chunks at all
    let none = open(vec![4, 0, 0, 0]).unwrap();
    assert_eq!(GameState::load_new_game(&none).err().unwrap(), Error::Index);
    // the chunk of scenes is too short for one scene
    let sss = open(archive(&[words(&[0; 16]), vec![1, 2, 3], words(&[0; 6])])).unwrap();
    assert_eq!(GameState::load_new_game(&sss).err().unwrap(), Error::Data);
    assert_eq!(read_records::<Scene>(&sss, 1).unwrap_err(), Error::Data);
    assert_eq!(read_records::<Scene>(&sss, 0).unwrap().len(), 4);
    assert_eq!(read_records::<Scene>(&sss, 3).unwrap_err(), Error::Index);
}
