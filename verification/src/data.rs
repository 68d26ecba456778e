//! The game's records: fixed-size structures of little-endian 16-bit words,
//! stored one after the other in chunks of an archive.

use vstd::prelude::*;
use crate::bytes::le16;
use crate::error::Error;
use crate::mkf::{spec_read_chunk, MKF};

verus! {

/// The archives of the game.
pub struct MKFs {
    /// Animations.
    pub rng: MKF,
    /// Palettes.
    pub pat: MKF,
    /// Battle backgrounds.
    pub fbp: MKF,
    /// Scene sprites.
    pub mgo: MKF,
    /// Music.
    pub midi: MKF,
    /// Assorted data.
    pub data: MKF,
    /// Maps.
    pub map: MKF,
    /// Tile bitmaps.
    pub gop: MKF,
    /// Scripts.
    pub sss: MKF,
}

#[verifier::external_type_specification]
#[verifier::external_body]
pub struct ExDecodeError(bincode::error::DecodeError);

/// `bincode::decode_from_slice`, for a `u16`, with the standard
/// configuration set to little-endian, fixed-width integers: the value of
/// the first two bytes, low byte first, and the number of bytes read, two.
/// It fails exactly when `buf` holds fewer than two bytes.
#[verifier::external_body]
fn decode_u16(buf: &[u8]) -> (r: Result<(u16, usize), bincode::error::DecodeError>)
    ensures
        r is Ok <==> buf@.len() >= 2,
        r matches Ok(pair) ==> pair.0 == le16(buf@, 0) && pair.1 == 2,
{
    let config = bincode::config::standard().with_little_endian().with_fixed_int_encoding();
    bincode::decode_from_slice::<u16, _>(buf, config)
}

/// A record made of a fixed number of 16-bit words.
pub trait Record: Sized {
    /// The number of words of a record.
    spec fn spec_words() -> nat;

    /// The record that the words stand for.
    spec fn spec_from_words(w: Seq<u16>) -> Self;

    /// The number of words of a record.
    fn words() -> (n: usize)
        ensures
            n == Self::spec_words(),
            0 < n <= 64,
    ;

    /// The record that the words stand for.
    fn from_words(w: &Vec<u16>) -> (r: Self)
        requires
            w@.len() == Self::spec_words(),
        ensures
            r == Self::spec_from_words(w@),
    ;
}

/// The `n` words stored little-endian in `buf` from `at` on.
pub open spec fn record_words(buf: Seq<u8>, at: int, n: nat) -> Seq<u16> {
    Seq::new(n, |j: int| le16(buf, at + 2 * j) as u16)
}

/// The records that a buffer holds, one after the other: as many as fit
/// whole. A buffer too short for one record is `Error::Data`.
pub open spec fn spec_decode_c_structs<T: Record>(buf: Seq<u8>) -> Result<Seq<T>, Error> {
    let size: nat = 2 * T::spec_words();
    if buf.len() < size {
        Err(Error::Data)
    } else {
        Ok(
            Seq::new(
                buf.len() / size,
                |i: int| T::spec_from_words(record_words(buf, i * size, T::spec_words())),
            ),
        )
    }
}

/// Decodes the records that a buffer holds (see [`spec_decode_c_structs`]).
pub fn decode_c_structs<T: Record>(buf: &[u8]) -> (r: Result<Vec<T>, Error>)
    ensures
        match r {
            Ok(v) => spec_decode_c_structs::<T>(buf@) == Ok::<Seq<T>, Error>(v@),
            Err(e) => spec_decode_c_structs::<T>(buf@) == Err::<Seq<T>, Error>(e),
        },
{
    let n: usize = T::words();
    let size: usize = 2 * n;
    if buf.len() < size {
        return Err(Error::Data);
    }
    let count: usize = buf.len() / size;
    assert(buf@.len() == buf.len());
    let mut objects: Vec<T> = Vec::new();
    let mut i: usize = 0;
    while i < count
        invariant
            i <= count,
            buf@.len() <= usize::MAX,
            count == buf@.len() / (size as nat),
            size == 2 * n,
            n == T::spec_words(),
            0 < n <= 64,
            objects@.len() == i,
            forall|k: int|
                0 <= k < i ==> objects@[k] == T::spec_from_words(
                    record_words(buf@, k * size, T::spec_words()),
                ),
        decreases count - i,
    {
        assert(0 <= i * size && i * size + size <= buf@.len()) by (nonlinear_arith)
            requires
                0 <= i < count,
                count == buf@.len() / (size as nat),
                size > 0,
        ;
        let at: usize = i * size;
        let mut w: Vec<u16> = Vec::new();
        let mut j: usize = 0;
        while j < n
            invariant
                j <= n,
                size == 2 * n,
                at + size <= buf@.len() <= usize::MAX,
                w@.len() == j,
                forall|k: int| 0 <= k < j ==> w@[k] == le16(buf@, at + 2 * k) as u16,
            decreases n - j,
        {
            let from: usize = at + 2 * j;
            let field: &[u8] = &buf[from..buf.len()];
            assert(le16(field@, 0) == le16(buf@, from as int));
            match decode_u16(field) {
                Ok((v, _)) => {
                    w.push(v);
                },
                Err(_) => {
                    return Err(Error::Data);
                },
            }
            j += 1;
        }
        assert(w@ =~= record_words(buf@, at as int, T::spec_words()));
        objects.push(T::from_words(&w));
        i += 1;
    }
    assert(objects@ =~= spec_decode_c_structs::<T>(buf@)->Ok_0);
    Ok(objects)
}

/// An object of a scene that scripts can act on.
#[derive(Debug, Clone, Copy, PartialEq, Eq, Structural)]
pub struct EventObject {
    /// Vanish time.
    pub vanish_time: u16,
    /// X coordinate on the map.
    pub x: u16,
    /// Y coordinate on the map.
    pub y: u16,
    /// Layer value.
    pub layer: u16,
    /// Trigger script entry.
    pub trigger_script: u16,
    /// Auto script entry.
    pub auto_script: u16,
    /// State of this object.
    pub state: u16,
    /// Trigger mode.
    pub trigger_mode: u16,
    /// Number of the sprite.
    pub sprite_num: u16,
    /// Total number of frames of the sprite.
    pub sprite_frames: u16,
    /// Direction.
    pub direction: u16,
    /// Current frame number.
    pub current_frame_num: u16,
    /// Count of idle frames, used by the trigger script.
    pub script_idle_frame: u16,
    /// Offset of the sprite.
    pub sprite_ptr_offset: u16,
    /// Total number of frames of the sprite, used by the auto script.
    pub sprite_frames_auto: u16,
    /// Count of idle frames, used by the auto script.
    pub script_idle_frame_count_auto: u16,
}

impl Record for EventObject {
    open spec fn spec_words() -> nat {
        16
    }

    open spec fn spec_from_words(w: Seq<u16>) -> EventObject {
        EventObject {
            vanish_time: w[0],
            x: w[1],
            y: w[2],
            layer: w[3],
            trigger_script: w[4],
            auto_script: w[5],
            state: w[6],
            trigger_mode: w[7],
            sprite_num: w[8],
            sprite_frames: w[9],
            direction: w[10],
            current_frame_num: w[11],
            script_idle_frame: w[12],
            sprite_ptr_offset: w[13],
            sprite_frames_auto: w[14],
            script_idle_frame_count_auto: w[15],
        }
    }

    fn words() -> (n: usize) {
        16
    }

    fn from_words(w: &Vec<u16>) -> (r: EventObject) {
        EventObject {
            vanish_time: w[0],
            x: w[1],
            y: w[2],
            layer: w[3],
            trigger_script: w[4],
            auto_script: w[5],
            state: w[6],
            trigger_mode: w[7],
            sprite_num: w[8],
            sprite_frames: w[9],
            direction: w[10],
            current_frame_num: w[11],
            script_idle_frame: w[12],
            sprite_ptr_offset: w[13],
            sprite_frames_auto: w[14],
            script_idle_frame_count_auto: w[15],
        }
    }
}

/// A scene: a map with the scripts that run on entering and leaving it.
#[derive(Debug, Clone, Copy, PartialEq, Eq, Structural)]
pub struct Scene {
    /// Number of the map.
    pub map_num: u16,
    /// Script run when the scene is entered.
    pub script_on_enter: u16,
    /// Script run when the scene is left by teleport.
    pub script_on_teleport: u16,
    /// The event objects of the scene begin after this number.
    pub event_object_index: u16,
}

impl Record for Scene {
    open spec fn spec_words() -> nat {
        4
    }

    open spec fn spec_from_words(w: Seq<u16>) -> Scene {
        Scene {
            map_num: w[0],
            script_on_enter: w[1],
            script_on_teleport: w[2],
            event_object_index: w[3],
        }
    }

    fn words() -> (n: usize) {
        4
    }

    fn from_words(w: &Vec<u16>) -> (r: Scene) {
        Scene {
            map_num: w[0],
            script_on_enter: w[1],
            script_on_teleport: w[2],
            event_object_index: w[3],
        }
    }
}

/// An object read as a player.
#[derive(Debug, Clone, Copy, PartialEq, Eq)]
pub struct ObjectPlayer {
    /// Always zero.
    pub reserved: [u16; 2],
    /// Script run when a friend in the party dies.
    pub script_on_friend_death: u16,
    /// Script run when dying.
    pub script_on_dying: u16,
}

/// An object read as an item.
#[derive(Debug, Clone, Copy, PartialEq, Eq, Structural)]
pub struct ObjectItem {
    /// Number of the bitmap.
    pub bitmap: u16,
    /// Price.
    pub price: u16,
    /// Script run when the item is used.
    pub script_on_use: u16,
    /// Script run when the item is equipped.
    pub script_on_equip: u16,
    /// Script run when the item is thrown.
    pub script_on_throw: u16,
    /// Flags.
    pub flags: u16,
}

/// An object read as a magic.
#[derive(Debug, Clone, Copy, PartialEq, Eq, Structural)]
pub struct ObjectMagic {
    /// Number of the magic.
    pub magic_number: u16,
    /// Always zero.
    pub reserved1: u16,
    /// Script run when the magic succeeds.
    pub script_on_success: u16,
    /// Script run when the magic is used.
    pub script_on_use: u16,
    /// Always zero.
    pub reserved2: u16,
    /// Flags.
    pub flags: u16,
}

/// An object read as an enemy.
#[derive(Debug, Clone, Copy, PartialEq, Eq, Structural)]
pub struct ObjectEnemy {
    /// Number of the enemy.
    pub enemy_id: u16,
    /// Resistance to sorcery and poison, zero to ten.
    pub resistance_to_sorcery: u16,
    /// Script run when a turn starts.
    pub script_on_turn_start: u16,
    /// Script run when the battle ends.
    pub script_on_battle_end: u16,
    /// Script run when the enemy is ready.
    pub script_on_ready: u16,
}

/// An object read as a poison.
#[derive(Debug, Clone, Copy, PartialEq, Eq, Structural)]
pub struct ObjectPoison {
    /// Level of the poison.
    pub poison_level: u16,
    /// Colour of avatars.
    pub color: u16,
    /// Script run each round on a poisoned player.
    pub player_script: u16,
    /// Always zero.
    pub reserved: u16,
    /// Script run each round on a poisoned enemy.
    pub enemy_script: u16,
}

/// An object of the game: six words, read as a player, an item, a magic, an
/// enemy or a poison depending on where the object stands.
#[derive(Debug, Clone, Copy, PartialEq, Eq)]
pub struct Object {
    pub data: [u16; 6],
}

impl Record for Object {
    open spec fn spec_words() -> nat {
        6
    }

    open spec fn spec_from_words(w: Seq<u16>) -> Object {
        Object { data: [w[0], w[1], w[2], w[3], w[4], w[5]] }
    }

    fn words() -> (n: usize) {
        6
    }

    fn from_words(w: &Vec<u16>) -> (r: Object) {
        let r = Object { data: [w[0], w[1], w[2], w[3], w[4], w[5]] };
        assert(r.data@ =~= Object::spec_from_words(w@).data@);
        r
    }
}

impl Object {
    /// The object read as a player: its first four words.
    pub fn as_player(&self) -> (r: ObjectPlayer)
        ensures
            r.reserved@ == self.data@.subrange(0, 2),
            r.script_on_friend_death == self.data[2],
            r.script_on_dying == self.data[3],
    {
        let r = ObjectPlayer {
            reserved: [self.data[0], self.data[1]],
            script_on_friend_death: self.data[2],
            script_on_dying: self.data[3],
        };
        assert(r.reserved@ =~= self.data@.subrange(0, 2));
        r
    }

    /// The object read as an item: all six words.
    pub fn as_item(&self) -> (r: ObjectItem)
        ensures
            r == (ObjectItem {
                bitmap: self.data[0],
                price: self.data[1],
                script_on_use: self.data[2],
                script_on_equip: self.data[3],
                script_on_throw: self.data[4],
                flags: self.data[5],
            }),
    {
        ObjectItem {
            bitmap: self.data[0],
            price: self.data[1],
            script_on_use: self.data[2],
            script_on_equip: self.data[3],
            script_on_throw: self.data[4],
            flags: self.data[5],
        }
    }

    /// The object read as a magic: all six words.
    pub fn as_magic(&self) -> (r: ObjectMagic)
        ensures
            r == (ObjectMagic {
                magic_number: self.data[0],
                reserved1: self.data[1],
                script_on_success: self.data[2],
                script_on_use: self.data[3],
                reserved2: self.data[4],
                flags: self.data[5],
            }),
    {
        ObjectMagic {
            magic_number: self.data[0],
            reserved1: self.data[1],
            script_on_success: self.data[2],
            script_on_use: self.data[3],
            reserved2: self.data[4],
            flags: self.data[5],
        }
    }

    /// The object read as an enemy: its first five words.
    pub fn as_enemy(&self) -> (r: ObjectEnemy)
        ensures
            r == (ObjectEnemy {
                enemy_id: self.data[0],
                resistance_to_sorcery: self.data[1],
                script_on_turn_start: self.data[2],
                script_on_battle_end: self.data[3],
                script_on_ready: self.data[4],
            }),
    {
        ObjectEnemy {
            enemy_id: self.data[0],
            resistance_to_sorcery: self.data[1],
            script_on_turn_start: self.data[2],
            script_on_battle_end: self.data[3],
            script_on_ready: self.data[4],
        }
    }

    /// The object read as a poison: its first five words.
    pub fn as_poison(&self) -> (r: ObjectPoison)
        ensures
            r == (ObjectPoison {
                poison_level: self.data[0],
                color: self.data[1],
                player_script: self.data[2],
                reserved: self.data[3],
                enemy_script: self.data[4],
            }),
    {
        ObjectPoison {
            poison_level: self.data[0],
            color: self.data[1],
            player_script: self.data[2],
            reserved: self.data[3],
            enemy_script: self.data[4],
        }
    }
}

/// One entry of a script: an operation and its three operands.
#[derive(Debug, Clone, Copy, PartialEq, Eq)]
pub struct ScriptEntry {
    /// Operation code.
    pub operation: u16,
    /// Operands.
    pub operands: [u16; 3],
}

impl Record for ScriptEntry {
    open spec fn spec_words() -> nat {
        4
    }

    open spec fn spec_from_words(w: Seq<u16>) -> ScriptEntry {
        ScriptEntry { operation: w[0], operands: [w[1], w[2], w[3]] }
    }

    fn words() -> (n: usize) {
        4
    }

    fn from_words(w: &Vec<u16>) -> (r: ScriptEntry) {
        let r = ScriptEntry { operation: w[0], operands: [w[1], w[2], w[3]] };
        assert(r.operands@ =~= ScriptEntry::spec_from_words(w@).operands@);
        r
    }
}

/// The state of an event object.
#[derive(Debug, Clone, Copy, PartialEq, Eq, Structural)]
pub enum ObjectState {
    Hidden,
    Normal,
    Blocker,
}

impl ObjectState {
    /// The number that stands for the state in an event object.
    pub open spec fn spec_code(self) -> u16 {
        match self {
            ObjectState::Hidden => 0,
            ObjectState::Normal => 1,
            ObjectState::Blocker => 2,
        }
    }

    /// The number that stands for the state in an event object.
    pub fn code(self) -> (c: u16)
        ensures
            c == self.spec_code(),
    {
        match self {
            ObjectState::Hidden => 0,
            ObjectState::Normal => 1,
            ObjectState::Blocker => 2,
        }
    }
}

/// The chunk of the script archive that holds the event objects.
pub const CHUNK_EVENT_OBJECTS: u32 = 0;

/// The chunk of the script archive that holds the scenes.
pub const CHUNK_SCENES: u32 = 1;

/// The chunk of the script archive that holds the objects.
pub const CHUNK_OBJECTS: u32 = 2;

/// The chunk of the script archive that holds the script entries.
pub const CHUNK_SCRIPT_ENTRIES: u32 = 3;

/// The records of chunk `index` of an archive.
pub open spec fn spec_chunk_records<T: Record>(file: Seq<u8>, index: nat) -> Result<Seq<T>, Error> {
    match spec_read_chunk(file, index) {
        Err(e) => Err(e),
        Ok(chunk) => spec_decode_c_structs::<T>(chunk),
    }
}

/// Reads chunk `index` of an archive and decodes the records it holds.
pub fn read_records<T: Record>(mkf: &MKF, index: u32) -> (r: Result<Vec<T>, Error>)
    ensures
        match r {
            Ok(v) => spec_chunk_records::<T>(mkf@, index as nat) == Ok::<Seq<T>, Error>(v@),
            Err(e) => spec_chunk_records::<T>(mkf@, index as nat) == Err::<Seq<T>, Error>(e),
        },
{
    let buf: Vec<u8> = mkf.read_chunk(index)?;
    decode_c_structs::<T>(buf.as_slice())
}

/// The data of the game that never changes.
pub struct GameData {
    pub script_entries: Vec<ScriptEntry>,
}

impl GameData {
    /// Loads the script entries from the script archive.
    pub fn load(sss: &MKF, data: &MKF) -> (r: Result<GameData, Error>)
        ensures
            match r {
                Ok(g) => spec_chunk_records::<ScriptEntry>(sss@, CHUNK_SCRIPT_ENTRIES as nat) == Ok::<
                    Seq<ScriptEntry>,
                    Error,
                >(g.script_entries@),
                Err(e) => spec_chunk_records::<ScriptEntry>(sss@, CHUNK_SCRIPT_ENTRIES as nat)
                    == Err::<Seq<ScriptEntry>, Error>(e),
            },
    {
        let script_entries: Vec<ScriptEntry> = read_records::<ScriptEntry>(
            sss,
            CHUNK_SCRIPT_ENTRIES,
        )?;
        Ok(GameData { script_entries })
    }
}

/// The data of the game that changes while it is played.
pub struct GameState {
    pub objects: Vec<Object>,
    pub scenes: Vec<Scene>,
    pub event_objects: Vec<EventObject>,
    pub entering_scene: bool,
    pub scene_num: u16,
}

impl GameState {
    /// Why a new game cannot be loaded from the script archive, if it
    /// cannot: the first error among those of its event objects, its scenes
    /// and its objects.
    pub open spec fn load_failure(file: Seq<u8>) -> Option<Error> {
        if spec_chunk_records::<EventObject>(file, CHUNK_EVENT_OBJECTS as nat) is Err {
            Some(spec_chunk_records::<EventObject>(file, CHUNK_EVENT_OBJECTS as nat)->Err_0)
        } else if spec_chunk_records::<Scene>(file, CHUNK_SCENES as nat) is Err {
            Some(spec_chunk_records::<Scene>(file, CHUNK_SCENES as nat)->Err_0)
        } else if spec_chunk_records::<Object>(file, CHUNK_OBJECTS as nat) is Err {
            Some(spec_chunk_records::<Object>(file, CHUNK_OBJECTS as nat)->Err_0)
        } else {
            None
        }
    }

    /// Loads the state of a new game from the script archive: the event
    /// objects, scenes and objects as stored, the first scene about to be
    /// entered.
    pub fn load_new_game(sss: &MKF) -> (r: Result<GameState, Error>)
        ensures
            match r {
                Ok(s) => GameState::load_failure(sss@) is None && spec_chunk_records::<EventObject>(
                    sss@,
                    CHUNK_EVENT_OBJECTS as nat,
                )->Ok_0 == s.event_objects@ && spec_chunk_records::<Scene>(
                    sss@,
                    CHUNK_SCENES as nat,
                )->Ok_0 == s.scenes@ && spec_chunk_records::<Object>(sss@, CHUNK_OBJECTS as nat)->Ok_0
                    == s.objects@ && s.entering_scene && s.scene_num == 1,
                Err(e) => GameState::load_failure(sss@) == Some(e),
            },
    {
        let events: Vec<EventObject> = read_records::<EventObject>(sss, CHUNK_EVENT_OBJECTS)?;
        let scenes: Vec<Scene> = read_records::<Scene>(sss, CHUNK_SCENES)?;
        let objects: Vec<Object> = read_records::<Object>(sss, CHUNK_OBJECTS)?;
        Ok(GameState { objects, scenes, event_objects: events, entering_scene: true, scene_num: 1 })
    }
}

} // verus!
