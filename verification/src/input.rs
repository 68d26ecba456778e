//! The state of the game keys: which are pressed, and which of the four
//! direction keys was pressed last.

use vstd::prelude::*;
use crate::utils::Dir;

verus! {

/// Key slots that the input state tracks.
pub const KEY_COUNT: usize = 33;

/// A key of the game. Each key stands for one bit of the word of pressed
/// keys.
#[derive(Debug, Clone, Copy, PartialEq, Eq, Structural)]
pub enum PalKey {
    NoKey,
    Menu,
    Search,
    Down,
    Left,
    Up,
    Right,
    PgUp,
    PgDn,
    Repeat,
    Auto,
    Defend,
    UseItem,
    ThrowItem,
    Flee,
    Status,
    Force,
    Home,
    End,
}

impl PalKey {
    /// The bit of the key in the word of pressed keys; zero for `NoKey`.
    pub open spec fn spec_mask(self) -> u32 {
        match self {
            PalKey::NoKey => 0x0,
            PalKey::Menu => 0x1,
            PalKey::Search => 0x2,
            PalKey::Down => 0x4,
            PalKey::Left => 0x8,
            PalKey::Up => 0x10,
            PalKey::Right => 0x20,
            PalKey::PgUp => 0x40,
            PalKey::PgDn => 0x80,
            PalKey::Repeat => 0x100,
            PalKey::Auto => 0x200,
            PalKey::Defend => 0x400,
            PalKey::UseItem => 0x800,
            PalKey::ThrowItem => 0x1000,
            PalKey::Flee => 0x2000,
            PalKey::Status => 0x4000,
            PalKey::Force => 0x8000,
            PalKey::Home => 0x10000,
            PalKey::End => 0x20000,
        }
    }

    /// The bit of the key in the word of pressed keys.
    pub fn mask(self) -> (m: u32)
        ensures
            m == self.spec_mask(),
    {
        match self {
            PalKey::NoKey => 0x0,
            PalKey::Menu => 0x1,
            PalKey::Search => 0x2,
            PalKey::Down => 0x4,
            PalKey::Left => 0x8,
            PalKey::Up => 0x10,
            PalKey::Right => 0x20,
            PalKey::PgUp => 0x40,
            PalKey::PgDn => 0x80,
            PalKey::Repeat => 0x100,
            PalKey::Auto => 0x200,
            PalKey::Defend => 0x400,
            PalKey::UseItem => 0x800,
            PalKey::ThrowItem => 0x1000,
            PalKey::Flee => 0x2000,
            PalKey::Status => 0x4000,
            PalKey::Force => 0x8000,
            PalKey::Home => 0x10000,
            PalKey::End => 0x20000,
        }
    }

    /// The direction a key moves in; `Unknown` for a key that is no
    /// direction key.
    pub open spec fn spec_dir(self) -> Dir {
        match self {
            PalKey::Left => Dir::West,
            PalKey::Right => Dir::East,
            PalKey::Up => Dir::North,
            PalKey::Down => Dir::South,
            _ => Dir::Unknown,
        }
    }
}

/// The keys of the keyboard that the game listens to.
#[derive(Debug, Clone, Copy, PartialEq, Eq, Structural)]
pub enum KeyCode {
    Up,
    NumPad8,
    Down,
    NumPad2,
    Left,
    NumPad4,
    Right,
    NumPad6,
    Escape,
    Insert,
    LeftAlt,
    RightAlt,
    NumPad0,
    Enter,
    Space,
    NumPadEnter,
    LeftCtrl,
    PageUp,
    NumPad9,
    PageDown,
    NumPad3,
    Home,
    NumPad7,
    End,
    NumPad1,
    R,
    A,
    D,
    E,
    W,
    Q,
    F,
    S,
}

/// The key of the keyboard in key slot `slot`.
pub open spec fn spec_key_code(slot: int) -> KeyCode {
    if slot == 0 {
        KeyCode::Up
    } else if slot == 1 {
        KeyCode::NumPad8
    } else if slot == 2 {
        KeyCode::Down
    } else if slot == 3 {
        KeyCode::NumPad2
    } else if slot == 4 {
        KeyCode::Left
    } else if slot == 5 {
        KeyCode::NumPad4
    } else if slot == 6 {
        KeyCode::Right
    } else if slot == 7 {
        KeyCode::NumPad6
    } else if slot == 8 {
        KeyCode::Escape
    } else if slot == 9 {
        KeyCode::Insert
    } else if slot == 10 {
        KeyCode::LeftAlt
    } else if slot == 11 {
        KeyCode::RightAlt
    } else if slot == 12 {
        KeyCode::NumPad0
    } else if slot == 13 {
        KeyCode::Enter
    } else if slot == 14 {
        KeyCode::Space
    } else if slot == 15 {
        KeyCode::NumPadEnter
    } else if slot == 16 {
        KeyCode::LeftCtrl
    } else if slot == 17 {
        KeyCode::PageUp
    } else if slot == 18 {
        KeyCode::NumPad9
    } else if slot == 19 {
        KeyCode::PageDown
    } else if slot == 20 {
        KeyCode::NumPad3
    } else if slot == 21 {
        KeyCode::Home
    } else if slot == 22 {
        KeyCode::NumPad7
    } else if slot == 23 {
        KeyCode::End
    } else if slot == 24 {
        KeyCode::NumPad1
    } else if slot == 25 {
        KeyCode::R
    } else if slot == 26 {
        KeyCode::A
    } else if slot == 27 {
        KeyCode::D
    } else if slot == 28 {
        KeyCode::E
    } else if slot == 29 {
        KeyCode::W
    } else if slot == 30 {
        KeyCode::Q
    } else if slot == 31 {
        KeyCode::F
    } else {
        KeyCode::S
    }
}

/// The key of the game that a key of the keyboard stands for.
pub open spec fn spec_game_key(code: KeyCode) -> PalKey {
    match code {
        KeyCode::Up | KeyCode::NumPad8 => PalKey::Up,
        KeyCode::Down | KeyCode::NumPad2 => PalKey::Down,
        KeyCode::Left | KeyCode::NumPad4 => PalKey::Left,
        KeyCode::Right | KeyCode::NumPad6 => PalKey::Right,
        KeyCode::Escape | KeyCode::Insert | KeyCode::LeftAlt | KeyCode::RightAlt
        | KeyCode::NumPad0 => PalKey::Menu,
        KeyCode::Enter | KeyCode::Space | KeyCode::NumPadEnter | KeyCode::LeftCtrl => PalKey::Search,
        KeyCode::PageUp | KeyCode::NumPad9 => PalKey::PgUp,
        KeyCode::PageDown | KeyCode::NumPad3 => PalKey::PgDn,
        KeyCode::Home | KeyCode::NumPad7 => PalKey::Home,
        KeyCode::End | KeyCode::NumPad1 => PalKey::End,
        KeyCode::R => PalKey::Repeat,
        KeyCode::A => PalKey::Auto,
        KeyCode::D => PalKey::Defend,
        KeyCode::E => PalKey::UseItem,
        KeyCode::W => PalKey::ThrowItem,
        KeyCode::Q => PalKey::Flee,
        KeyCode::F => PalKey::Force,
        KeyCode::S => PalKey::Status,
    }
}

/// The key of the keyboard in key slot `slot`.
pub fn key_code(slot: usize) -> (code: KeyCode)
    requires
        slot < KEY_COUNT,
    ensures
        code == spec_key_code(slot as int),
{
    match slot {
        0 => KeyCode::Up,
        1 => KeyCode::NumPad8,
        2 => KeyCode::Down,
        3 => KeyCode::NumPad2,
        4 => KeyCode::Left,
        5 => KeyCode::NumPad4,
        6 => KeyCode::Right,
        7 => KeyCode::NumPad6,
        8 => KeyCode::Escape,
        9 => KeyCode::Insert,
        10 => KeyCode::LeftAlt,
        11 => KeyCode::RightAlt,
        12 => KeyCode::NumPad0,
        13 => KeyCode::Enter,
        14 => KeyCode::Space,
        15 => KeyCode::NumPadEnter,
        16 => KeyCode::LeftCtrl,
        17 => KeyCode::PageUp,
        18 => KeyCode::NumPad9,
        19 => KeyCode::PageDown,
        20 => KeyCode::NumPad3,
        21 => KeyCode::Home,
        22 => KeyCode::NumPad7,
        23 => KeyCode::End,
        24 => KeyCode::NumPad1,
        25 => KeyCode::R,
        26 => KeyCode::A,
        27 => KeyCode::D,
        28 => KeyCode::E,
        29 => KeyCode::W,
        30 => KeyCode::Q,
        31 => KeyCode::F,
        _ => KeyCode::S,
    }
}

/// The key of the game that a key of the keyboard stands for.
pub fn game_key(code: KeyCode) -> (key: PalKey)
    ensures
        key == spec_game_key(code),
{
    match code {
        KeyCode::Up | KeyCode::NumPad8 => PalKey::Up,
        KeyCode::Down | KeyCode::NumPad2 => PalKey::Down,
        KeyCode::Left | KeyCode::NumPad4 => PalKey::Left,
        KeyCode::Right | KeyCode::NumPad6 => PalKey::Right,
        KeyCode::Escape | KeyCode::Insert | KeyCode::LeftAlt | KeyCode::RightAlt
        | KeyCode::NumPad0 => PalKey::Menu,
        KeyCode::Enter | KeyCode::Space | KeyCode::NumPadEnter | KeyCode::LeftCtrl => PalKey::Search,
        KeyCode::PageUp | KeyCode::NumPad9 => PalKey::PgUp,
        KeyCode::PageDown | KeyCode::NumPad3 => PalKey::PgDn,
        KeyCode::Home | KeyCode::NumPad7 => PalKey::Home,
        KeyCode::End | KeyCode::NumPad1 => PalKey::End,
        KeyCode::R => PalKey::Repeat,
        KeyCode::A => PalKey::Auto,
        KeyCode::D => PalKey::Defend,
        KeyCode::E => PalKey::UseItem,
        KeyCode::W => PalKey::ThrowItem,
        KeyCode::Q => PalKey::Flee,
        KeyCode::F => PalKey::Force,
        KeyCode::S => PalKey::Status,
    }
}

/// Delay before a key that is held down counts as pressed again, the first
/// time.
pub const FIRST_REPEAT_DELAY: u32 = 200;

/// Delay between repeats of a key that is held down.
pub const REPEAT_DELAY: u32 = 75;

/// The state of the game keys.
#[derive(Debug)]
pub struct InputState {
    pub dir: Dir,
    pub key_press: u32,
    pub key_order: [u32; 4],
    pub key_max_count: u32,
    pub key_last_time: [u32; 33],
}

/// The first position of the largest of the four press counts, zero where
/// all are zero.
pub open spec fn spec_latest(order: Seq<u32>, upto: int) -> int
    decreases upto,
{
    if upto <= 0 {
        0
    } else {
        let before: int = spec_latest(order, upto - 1);
        if order[upto - 1] > spec_latest_count(order, upto - 1) {
            upto - 1
        } else {
            before
        }
    }
}

/// The largest of the first `upto` press counts.
pub open spec fn spec_latest_count(order: Seq<u32>, upto: int) -> u32
    decreases upto,
{
    if upto <= 0 {
        0
    } else {
        let before: u32 = spec_latest_count(order, upto - 1);
        if order[upto - 1] > before {
            order[upto - 1]
        } else {
            before
        }
    }
}

/// The direction that the four press counts stand for: that of the key
/// pressed last among those held, `Unknown` where none is held.
pub open spec fn spec_cur_dir(order: Seq<u32>) -> Dir {
    if order[spec_latest(order, 4)] == 0 {
        Dir::Unknown
    } else {
        Dir::spec_from_u8(spec_latest(order, 4) as u8)
    }
}

impl InputState {
    /// No key pressed, no direction.
    pub fn new() -> (s: InputState)
        ensures
            s.dir == Dir::Unknown,
            s.key_press == 0,
            s.key_max_count == 0,
            forall|i: int| 0 <= i < 4 ==> s.key_order[i] == 0,
            forall|i: int| 0 <= i < KEY_COUNT ==> s.key_last_time[i] == 0,
    {
        InputState {
            dir: Dir::Unknown,
            key_press: 0,
            key_order: [0u32; 4],
            key_max_count: 0,
            key_last_time: [0u32; 33],
        }
    }

    /// Whether `key` is among the pressed keys.
    #[inline]
    pub fn is_pressed(&self, key: PalKey) -> (r: bool)
        ensures
            r == ((self.key_press & key.spec_mask()) != 0),
    {
        (self.key_press & key.mask()) != 0
    }

    /// Whether any key is pressed.
    #[inline]
    pub fn is_any_pressed(&self) -> (r: bool)
        ensures
            r == (self.key_press != 0),
    {
        self.key_press != 0
    }

    /// The direction a key moves in.
    pub fn key_to_dir(&self, key: PalKey) -> (d: Dir)
        ensures
            d == key.spec_dir(),
    {
        match key {
            PalKey::Left => Dir::West,
            PalKey::Right => Dir::East,
            PalKey::Up => Dir::North,
            PalKey::Down => Dir::South,
            _ => Dir::Unknown,
        }
    }

    /// The largest press count of the four direction keys and the first
    /// direction that has it.
    pub fn get_max_key_count(&self) -> (r: (u32, usize))
        ensures
            r.0 == spec_latest_count(self.key_order@, 4),
            r.1 == spec_latest(self.key_order@, 4),
            r.1 < 4,
            forall|i: int| 0 <= i < 4 ==> self.key_order[i] <= r.0,
            r.0 > 0 ==> self.key_order[r.1 as int] == r.0,
    {
        let mut max_count: u32 = 0;
        let mut idx: usize = 0;
        let mut i: usize = 0;
        while i < 4
            invariant
                i <= 4,
                idx < 4,
                max_count == spec_latest_count(self.key_order@, i as int),
                idx == spec_latest(self.key_order@, i as int),
                forall|k: int| 0 <= k < i ==> self.key_order[k] <= max_count,
                max_count > 0 ==> self.key_order[idx as int] == max_count,
            decreases 4 - i,
        {
            if self.key_order[i] > max_count {
                max_count = self.key_order[i];
                idx = i;
            }
            i += 1;
        }
        (max_count, idx)
    }

    /// The direction of the direction key pressed last among those held.
    pub fn get_cur_dir(&self) -> (d: Dir)
        ensures
            d == spec_cur_dir(self.key_order@),
            d != Dir::Unknown ==> self.key_order[d.spec_index() as int] > 0,
    {
        let (_, idx) = self.get_max_key_count();
        if self.key_order[idx] == 0 {
            return Dir::Unknown;
        }
        Dir::from_u8(idx as u8)
    }
}

/// The state of the game keys as plain values.
pub struct InputModel {
    pub dir: Dir,
    pub key_press: u32,
    pub key_order: Seq<u32>,
    pub key_max_count: u32,
    pub key_last_time: Seq<u32>,
}

impl View for InputState {
    type V = InputModel;

    open spec fn view(&self) -> InputModel {
        InputModel {
            dir: self.dir,
            key_press: self.key_press,
            key_order: self.key_order@,
            key_max_count: self.key_max_count,
            key_last_time: self.key_last_time@,
        }
    }
}

/// The state after a direction key was pressed anew: the key takes the next
/// press count, and the direction is that of the key pressed last.
pub open spec fn after_press(m: InputModel, dir: Dir) -> InputModel {
    if dir == Dir::Unknown {
        m
    } else {
        let count: u32 = (m.key_max_count + 1) as u32;
        let order: Seq<u32> = m.key_order.update(dir.spec_index() as int, count);
        InputModel { dir: spec_cur_dir(order), key_order: order, key_max_count: count, ..m }
    }
}

/// The state after a direction key was released: the key loses its press
/// count, the direction is that of the key pressed last among those still
/// held, and the largest press count is that of this key.
pub open spec fn after_release(m: InputModel, dir: Dir) -> InputModel {
    if dir == Dir::Unknown {
        m
    } else {
        let order: Seq<u32> = m.key_order.update(dir.spec_index() as int, 0);
        let cur: Dir = spec_cur_dir(order);
        InputModel {
            dir: cur,
            key_order: order,
            key_max_count: if cur == Dir::Unknown {
                0
            } else {
                order[cur.spec_index() as int]
            },
            ..m
        }
    }
}

/// The state after key slot `slot` was looked at, at time `ticks`, with the
/// key down or up.
///
/// A key that is down counts as pressed when its time has come: at once
/// when it was up before, and then after 200 milliseconds, and every 75
/// milliseconds from then on. A direction key that was up before is pressed
/// anew (see [`after_press`]). A key that is up and was down before is
/// released (see [`after_release`]).
pub open spec fn spec_update_slot(m: InputModel, slot: int, down: bool, ticks: u32) -> InputModel {
    let key: PalKey = spec_game_key(spec_key_code(slot));
    let last: u32 = m.key_last_time[slot];
    if down {
        if ticks > last {
            let delay: u32 = if last == 0 {
                FIRST_REPEAT_DELAY
            } else {
                REPEAT_DELAY
            };
            let timed: InputModel = InputModel {
                key_last_time: m.key_last_time.update(slot, (ticks + delay) as u32),
                ..m
            };
            let moved: InputModel = if last == 0 {
                after_press(timed, key.spec_dir())
            } else {
                timed
            };
            InputModel { key_press: moved.key_press | key.spec_mask(), ..moved }
        } else {
            m
        }
    } else if last != 0 {
        let moved: InputModel = after_release(m, key.spec_dir());
        InputModel { key_last_time: moved.key_last_time.update(slot, 0), ..moved }
    } else {
        m
    }
}

/// The state after the key slots from `slot` on were looked at, one after
/// the other.
pub open spec fn spec_update(m: InputModel, down: Seq<bool>, ticks: u32, slot: int) -> InputModel
    decreases KEY_COUNT - slot,
{
    if slot < 0 || slot >= KEY_COUNT {
        m
    } else {
        spec_update(spec_update_slot(m, slot, down[slot], ticks), down, ticks, slot + 1)
    }
}

/// The largest count that a state may hold before an update, so that the
/// press counts, which grow by one with every direction key pressed anew,
/// stay within 32 bits.
pub const MAX_PRESS_COUNT: u32 = 0xffff_ff00;

/// The latest time at which the keys can be looked at, so that the time of
/// the next repeat stays within 32 bits.
pub const MAX_TICKS: u32 = 0xffff_ff00;

/// Whether no press count of a state is larger than `bound`.
pub open spec fn counts_within(m: InputModel, bound: int) -> bool {
    &&& m.key_max_count <= bound
    &&& forall|k: int| 0 <= k < 4 ==> m.key_order[k] <= bound
}

impl InputState {
    /// Whether the state can be updated at time `ticks`.
    pub open spec fn updatable(&self, ticks: u32) -> bool {
        ticks <= MAX_TICKS && counts_within(self@, MAX_PRESS_COUNT as int)
    }

    /// Whether the state can be updated at time `ticks`.
    pub fn can_update(&self, ticks: u32) -> (r: bool)
        ensures
            r == self.updatable(ticks),
    {
        let r: bool = ticks <= MAX_TICKS && self.key_max_count <= MAX_PRESS_COUNT
            && self.key_order[0] <= MAX_PRESS_COUNT && self.key_order[1] <= MAX_PRESS_COUNT
            && self.key_order[2] <= MAX_PRESS_COUNT && self.key_order[3] <= MAX_PRESS_COUNT;
        proof {
            let order: Seq<u32> = self@.key_order;
            if r {
                assert forall|k: int| 0 <= k < 4 implies order[k] <= MAX_PRESS_COUNT by {
                    if k == 0 {
                    } else if k == 1 {
                    } else if k == 2 {
                    } else {
                    }
                }
            } else if self.updatable(ticks) {
                assert(order[0] <= MAX_PRESS_COUNT && order[1] <= MAX_PRESS_COUNT && order[2]
                    <= MAX_PRESS_COUNT && order[3] <= MAX_PRESS_COUNT);
            }
        }
        r
    }

    /// Looks at every key slot, `down[i]` telling whether the key of slot
    /// `i` is down at time `ticks` (see [`spec_update`]).
    pub fn update_state(&mut self, down: &[bool], ticks: u32)
        requires
            down@.len() == KEY_COUNT,
            old(self).updatable(ticks),
        ensures
            final(self)@ == spec_update(old(self)@, down@, ticks, 0),
    {
        let ghost whole = spec_update(self@, down@, ticks, 0);
        let mut i: usize = 0;
        while i < KEY_COUNT
            invariant
                i <= KEY_COUNT,
                down@.len() == KEY_COUNT,
                ticks <= MAX_TICKS,
                counts_within(self@, MAX_PRESS_COUNT + i),
                whole == spec_update(old(self)@, down@, ticks, 0),
                spec_update(self@, down@, ticks, i as int) == whole,
            decreases KEY_COUNT - i,
        {
            let ghost before: InputModel = self@;
            let key: PalKey = game_key(key_code(i));
            let last: u32 = self.key_last_time[i];
            if down[i] {
                if ticks > last {
                    let delay: u32 = if last == 0 {
                        FIRST_REPEAT_DELAY
                    } else {
                        REPEAT_DELAY
                    };
                    self.key_last_time[i] = ticks + delay;
                    if last == 0 {
                        let dir: Dir = self.key_to_dir(key);
                        if dir != Dir::Unknown {
                            self.key_max_count = self.key_max_count + 1;
                            self.key_order[dir.index()] = self.key_max_count;
                            self.dir = self.get_cur_dir();
                        }
                    }
                    self.key_press = self.key_press | key.mask();
                }
            } else if last != 0 {
                let dir: Dir = self.key_to_dir(key);
                if dir != Dir::Unknown {
                    self.key_order[dir.index()] = 0;
                    let cur_dir: Dir = self.get_cur_dir();
                    self.key_max_count = if cur_dir == Dir::Unknown {
                        0
                    } else {
                        self.key_order[cur_dir.index()]
                    };
                    self.dir = cur_dir;
                }
                self.key_last_time[i] = 0;
            }
            assert(self@.key_order =~= spec_update_slot(before, i as int, down@[i as int], ticks).key_order);
            assert(self@.key_last_time =~= spec_update_slot(
                before,
                i as int,
                down@[i as int],
                ticks,
            ).key_last_time);
            assert(self@ == spec_update_slot(before, i as int, down@[i as int], ticks));
            i += 1;
        }
    }
}

} // verus!
