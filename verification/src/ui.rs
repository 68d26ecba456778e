//! The user interface: texts, the sprites of digits and boxes, and menus.

use vstd::prelude::*;
use vstd::string::*;
use crate::error::Error;
use crate::input::{InputState, PalKey};
use crate::mkf::{spec_read_chunk, MKF};
use crate::sprite::{
    blit, draw_sprite_frame, frames_of, sprite_get_frames, SpriteFrame,
};
use crate::textmgr::{
    draw_font_char, glyphs_fit, guess_encoding, guessed_label, load_failure, load_tables,
    tables_are, text_at, Tables, TextMgr, CHUNK_MESSAGE_INDEX, MAX_TEXT_BYTES,
};
use crate::utils::Pos;

verus! {

/// One entry of a menu.
#[derive(Debug, Clone, Copy, PartialEq, Eq, Structural)]
pub struct MenuItem {
    pub value: u16,
    pub num_word: u32,
    pub enabled: bool,
    pub x: u16,
    pub y: u16,
}

/// The chunk of the data archive that holds the sprites of the interface.
pub const CHUNKNUM_SPRITEUI: u32 = 9;

pub const MAINMENU_BACKGROUND_FBPNUM: u32 = 60;

pub const RIX_NUM_OPENINGMENU: u32 = 4;

pub const MAINMENU_LABEL_NEWGAME: u32 = 7;

pub const MAINMENU_LABEL_LOADGAME: u32 = 8;

pub const LOADMENU_LABEL_SLOT_FIRST: u32 = 43;

pub const MENUITEM_COLOR: u8 = 0x4f;

pub const MENUITEM_COLOR_SELECTED_FIRST: u32 = 0xf9;

pub const MENUITEM_COLOR_SELECTED_TOTALNUM: u32 = 6;

/// The sprite of the digit zero; the other digits follow it.
pub const SPRITENUM_DIGIT_FIRST: usize = 29;

/// The sprites of the left end, the middle and the right end of a box of
/// one line.
pub const SPRITENUM_BOX_LEFT: usize = 44;

pub const SPRITENUM_BOX_MID: usize = 45;

pub const SPRITENUM_BOX_RIGHT: usize = 46;

/// Width of a character and of a digit, in pixels.
pub const CHAR_WIDTH: i32 = 16;

pub const DIGIT_WIDTH: i32 = 8;

/// The texts and sprites of the interface.
pub struct UI {
    pub font_chars: Vec<char>,
    pub fonts: Vec<Vec<u8>>,
    pub msgs: Vec<String>,
    pub words: Vec<String>,
    /// The name of the encoding of the texts.
    pub encoding: &'static str,
    /// The sprites of the interface.
    pub sprite: Vec<SpriteFrame>,
}

/// Whether a character counts as numeric for `char::is_numeric`: whether
/// Unicode puts it in one of the general categories of numbers.
pub uninterp spec fn numeric(c: char) -> bool;

/// `char::is_numeric`.
#[verifier::external_body]
pub(crate) fn is_numeric(c: char) -> (r: bool)
    ensures
        r == numeric(c),
{
    c.is_numeric()
}

/// The value of a decimal digit, for the characters `0` to `9`.
pub open spec fn spec_digit(c: char) -> Option<int> {
    if '0' <= c <= '9' {
        Some(c as int - '0' as int)
    } else {
        None
    }
}

/// The value of a decimal digit.
pub fn digit(c: char) -> (r: Option<usize>)
    ensures
        match r {
            Some(d) => spec_digit(c) == Some(d as int) && d <= 9,
            None => spec_digit(c) is None,
        },
{
    if c >= '0' && c <= '9' {
        Some((c as u32 - '0' as u32) as usize)
    } else {
        None
    }
}

/// The colour in which the selected entry of a menu is drawn `ticks`
/// milliseconds after the start: one of six colours, the next one every
/// tenth of a second.
pub open spec fn spec_menu_color_selected(ticks: u32) -> u8 {
    ((ticks / 100) % 6 + 0xf9) as u8
}

/// The colour of the selected entry of a menu (see
/// [`spec_menu_color_selected`]).
pub fn menu_color_selected(ticks: u32) -> (c: u8)
    ensures
        c == spec_menu_color_selected(ticks),
        0xf9 <= c <= 0xfe,
{
    let step: u32 = ticks / (600 / MENUITEM_COLOR_SELECTED_TOTALNUM);
    let phase: u32 = step % MENUITEM_COLOR_SELECTED_TOTALNUM;
    (phase + MENUITEM_COLOR_SELECTED_FIRST) as u8
}

/// The entry that is selected after the keys of one frame, among `len`
/// entries: the next one for down or right, the one before for up or left,
/// round the ends.
pub open spec fn spec_menu_move(selected: int, len: int, forward: bool, backward: bool) -> int {
    if forward {
        (len + selected + 1) % len
    } else if backward {
        (len + selected - 1) % len
    } else {
        selected
    }
}

/// What a menu does with the keys of one frame: the entry selected
/// afterwards, and whether that entry was chosen.
pub fn menu_step(selected: usize, len: usize, input: &InputState) -> (r: (usize, bool))
    requires
        selected < len,
        len < usize::MAX / 2,
    ensures
        r.0 == spec_menu_move(
            selected as int,
            len as int,
            input.key_press & (PalKey::Down.spec_mask() | PalKey::Right.spec_mask()) != 0,
            input.key_press & (PalKey::Up.spec_mask() | PalKey::Left.spec_mask()) != 0,
        ),
        r.0 < len,
        r.1 == (input.key_press & PalKey::Search.spec_mask() != 0),
{
    let forward: bool = input.is_pressed(PalKey::Down) || input.is_pressed(PalKey::Right);
    let backward: bool = input.is_pressed(PalKey::Up) || input.is_pressed(PalKey::Left);
    let k: u32 = input.key_press;
    assert((k & 0x4 != 0 || k & 0x20 != 0) == (k & (0x4u32 | 0x20u32) != 0)) by (bit_vector);
    assert((k & 0x10 != 0 || k & 0x8 != 0) == (k & (0x10u32 | 0x8u32) != 0)) by (bit_vector);
    let next: usize = if forward {
        (len + selected + 1) % len
    } else if backward {
        (len + selected - 1) % len
    } else {
        selected
    };
    (next, input.is_pressed(PalKey::Search))
}

/// The entry that is selected after the one selected among `len` entries,
/// round the end.
pub fn menu_next(selected: u16, len: u16) -> (r: u16)
    requires
        0 < len,
        selected < 0xffff,
    ensures
        r == (selected + 1) % (len as int),
        r < len,
{
    (selected + 1) % len
}

impl UI {
    /// The interface is well formed when there is a glyph of 32 bytes for
    /// every font character and every sprite is well formed.
    pub open spec fn wf(&self) -> bool {
        &&& glyphs_fit(self.font_chars@, self.fonts@)
        &&& forall|k: int| 0 <= k < self.sprite@.len() ==> (#[trigger] self.sprite@[k]).wf()
    }

    /// Why the interface cannot be loaded, if it cannot: the reason why its
    /// texts cannot (see [`load_failure`]), or else the error with which the
    /// chunk of its sprites cannot be read.
    pub open spec fn load_failure(
        asc: Seq<u8>,
        fon: Seq<u8>,
        sss: Seq<u8>,
        msg: Seq<u8>,
        data: Seq<u8>,
    ) -> Option<Error> {
        if load_failure(asc, fon, sss, msg) is Some {
            load_failure(asc, fon, sss, msg)
        } else {
            match spec_read_chunk(data, CHUNKNUM_SPRITEUI as nat) {
                Err(e) => Some(e),
                Ok(_) => None,
            }
        }
    }

    /// Loads the interface: its texts from the bytes of their files and the
    /// script archive, its sprites from the data archive.
    pub fn load(
        asc: &[u8],
        fon: &[u8],
        word: &[u8],
        sss: &MKF,
        msg: &[u8],
        data_mkf: &MKF,
    ) -> (r: Result<UI, Error>)
        requires
            asc@.len() <= MAX_TEXT_BYTES,
        ensures
            match r {
                Ok(ui) => UI::load_failure(asc@, fon@, sss@, msg@, data_mkf@) is None && tables_are(
                    ui.font_chars@,
                    ui.fonts@,
                    ui.words@,
                    ui.msgs@,
                    asc@,
                    fon@,
                    word@,
                    spec_read_chunk(sss@, CHUNK_MESSAGE_INDEX as nat)->Ok_0,
                    msg@,
                ) && ui.encoding@ == guessed_label(asc@) && frames_of(
                    spec_read_chunk(data_mkf@, CHUNKNUM_SPRITEUI as nat)->Ok_0,
                    ui.sprite@,
                ) && ui.wf(),
                Err(e) => UI::load_failure(asc@, fon@, sss@, msg@, data_mkf@) == Some(e),
            },
    {
        let encoding: &'static str = guess_encoding(asc);
        let t: Tables = load_tables(asc, fon, word, sss, msg)?;
        let chunk: Vec<u8> = data_mkf.read_chunk(CHUNKNUM_SPRITEUI)?;
        let sprite: Vec<SpriteFrame> = match sprite_get_frames(chunk.as_slice()) {
            Ok(frames) => frames,
            Err(e) => {
                return Err(e);
            },
        };
        Ok(
            UI {
                font_chars: t.font_chars,
                fonts: t.fonts,
                words: t.words,
                msgs: t.msgs,
                encoding,
                sprite,
            },
        )
    }

    /// Draws the character `c` in `color` with its top left corner at
    /// `(x, y)` (see [`TextMgr::spec_draw_char`]).
    pub fn draw_char(
        &self,
        pixels: &mut [u8],
        dest_width: u32,
        dest_height: u32,
        x: i32,
        y: i32,
        c: char,
        color: u8,
    )
        requires
            glyphs_fit(self.font_chars@, self.fonts@),
            dest_width * dest_height <= old(pixels)@.len(),
        ensures
            final(pixels)@ == TextMgr::spec_draw_char(
                self.font_chars@,
                self.fonts@,
                old(pixels)@,
                dest_width as int,
                dest_height as int,
                x as int,
                y as int,
                c,
                color,
            ),
            final(pixels)@.len() == old(pixels)@.len(),
    {
        draw_font_char(&self.font_chars, &self.fonts, pixels, dest_width, dest_height, x, y, c, color);
    }

    /// Word `index` of the table of words, the empty text beyond its end.
    pub fn get_word(&self, index: usize) -> (w: &str)
        ensures
            w@ == (if index < self.words@.len() {
                self.words@[index as int]@
            } else {
                Seq::<char>::empty()
            }),
    {
        text_at(&self.words, index)
    }

    /// Message `index` of the table of messages, the empty text beyond its
    /// end.
    pub fn get_msg(&self, index: usize) -> (m: &str)
        ensures
            m@ == (if index < self.msgs@.len() {
                self.msgs@[index as int]@
            } else {
                Seq::<char>::empty()
            }),
    {
        text_at(&self.msgs, index)
    }
}

/// The buffer after one character of a text was drawn at `(x, y)`, and how
/// far the text moves on.
///
/// A decimal digit is drawn as its sprite, four pixels lower, and moves on
/// by eight pixels. Any other numeric character is not drawn and does not
/// move on. Every other character is drawn as its glyph, with a shadow in
/// colour zero one pixel to the right and below if asked for, and moves on
/// by sixteen pixels.
pub open spec fn spec_draw_text_char(
    ui: UI,
    dest: Seq<u8>,
    dest_width: int,
    dest_height: int,
    x: int,
    y: int,
    c: char,
    color: u8,
    shadow: bool,
) -> (Seq<u8>, int) {
    if numeric(c) {
        match spec_digit(c) {
            Some(d) => (
                blit(
                    ui.sprite@[d + SPRITENUM_DIGIT_FIRST],
                    dest,
                    dest_width as nat,
                    dest_height as nat,
                    x,
                    y + 4,
                ),
                DIGIT_WIDTH as int,
            ),
            None => (dest, 0),
        }
    } else {
        let shaded: Seq<u8> = if shadow {
            TextMgr::spec_draw_char(
                ui.font_chars@,
                ui.fonts@,
                TextMgr::spec_draw_char(
                    ui.font_chars@,
                    ui.fonts@,
                    TextMgr::spec_draw_char(
                        ui.font_chars@,
                        ui.fonts@,
                        dest,
                        dest_width,
                        dest_height,
                        x + 1,
                        y + 1,
                        c,
                        0,
                    ),
                    dest_width,
                    dest_height,
                    x + 1,
                    y,
                    c,
                    0,
                ),
                dest_width,
                dest_height,
                x,
                y + 1,
                c,
                0,
            )
        } else {
            dest
        };
        (
            TextMgr::spec_draw_char(
                ui.font_chars@,
                ui.fonts@,
                shaded,
                dest_width,
                dest_height,
                x,
                y,
                c,
                color,
            ),
            CHAR_WIDTH as int,
        )
    }
}

/// The buffer after the characters of a text from position `from` on were
/// drawn, the first of them at `(x, y)`.
pub open spec fn spec_draw_text(
    ui: UI,
    dest: Seq<u8>,
    dest_width: int,
    dest_height: int,
    x: int,
    y: int,
    text: Seq<char>,
    from: int,
    color: u8,
    shadow: bool,
) -> Seq<u8>
    decreases text.len() - from,
{
    if from < 0 || from >= text.len() {
        dest
    } else {
        let (drawn, step) = spec_draw_text_char(
            ui,
            dest,
            dest_width,
            dest_height,
            x,
            y,
            text[from],
            color,
            shadow,
        );
        spec_draw_text(
            ui,
            drawn,
            dest_width,
            dest_height,
            x + step,
            y,
            text,
            from + 1,
            color,
            shadow,
        )
    }
}

/// Whether a text can be drawn at `(x, y)`: the interface has the sprites of
/// all digits, and no character of the text is placed beyond what a 32-bit
/// coordinate holds.
pub open spec fn text_drawable(ui: UI, x: int, y: int, len: int) -> bool {
    &&& ui.wf()
    &&& ui.sprite@.len() >= SPRITENUM_DIGIT_FIRST + 10
    &&& i32::MIN <= x
    &&& x + 16 * len + 1 <= i32::MAX
    &&& i32::MIN <= y
    &&& y + 4 <= i32::MAX
}

/// Draws a text with its top left corner at `(x, y)` (see
/// [`spec_draw_text`]).
pub fn draw_text(
    ui: &UI,
    pixels: &mut [u8],
    dest_width: u32,
    dest_height: u32,
    x: i32,
    y: i32,
    text: &str,
    color: u8,
    shadow: bool,
)
    requires
        text_drawable(*ui, x as int, y as int, text@.len() as int),
        dest_width * dest_height <= old(pixels)@.len(),
    ensures
        final(pixels)@ == spec_draw_text(
            *ui,
            old(pixels)@,
            dest_width as int,
            dest_height as int,
            x as int,
            y as int,
            text@,
            0,
            color,
            shadow,
        ),
        final(pixels)@.len() == old(pixels)@.len(),
{
    let ghost whole = spec_draw_text(
        *ui,
        pixels@,
        dest_width as int,
        dest_height as int,
        x as int,
        y as int,
        text@,
        0,
        color,
        shadow,
    );
    let mut at: i32 = x;
    for c in it: text.chars()
        invariant
            it.seq() == text@,
            text_drawable(*ui, x as int, y as int, text@.len() as int),
            x <= at <= x + 16 * it.index(),
            dest_width * dest_height <= pixels@.len(),
            pixels@.len() == old(pixels)@.len(),
            whole == spec_draw_text(
                *ui,
                old(pixels)@,
                dest_width as int,
                dest_height as int,
                x as int,
                y as int,
                text@,
                0,
                color,
                shadow,
            ),
            spec_draw_text(
                *ui,
                pixels@,
                dest_width as int,
                dest_height as int,
                at as int,
                y as int,
                text@,
                it.index() as int,
                color,
                shadow,
            ) == whole,
    {
        if is_numeric(c) {
            match digit(c) {
                Some(d) => {
                    let frame: &SpriteFrame = &ui.sprite[d + SPRITENUM_DIGIT_FIRST];
                    draw_sprite_frame(
                        frame,
                        pixels,
                        dest_width as usize,
                        dest_height as usize,
                        at as isize,
                        y as isize + 4,
                    );
                    at = at + DIGIT_WIDTH;
                },
                None => {},
            }
        } else {
            if shadow {
                ui.draw_char(pixels, dest_width, dest_height, at + 1, y + 1, c, 0);
                ui.draw_char(pixels, dest_width, dest_height, at + 1, y, c, 0);
                ui.draw_char(pixels, dest_width, dest_height, at, y + 1, c, 0);
            }
            ui.draw_char(pixels, dest_width, dest_height, at, y, c, color);
            at = at + CHAR_WIDTH;
        }
    }
}

/// Draws word `index` of the table of words (see [`draw_text`]).
pub fn draw_word(
    ui: &UI,
    pixels: &mut [u8],
    dest_width: u32,
    dest_height: u32,
    x: i32,
    y: i32,
    index: usize,
    color: u8,
    shadow: bool,
)
    requires
        text_drawable(
            *ui,
            x as int,
            y as int,
            if index < ui.words@.len() {
                ui.words@[index as int]@.len() as int
            } else {
                0
            },
        ),
        dest_width * dest_height <= old(pixels)@.len(),
    ensures
        final(pixels)@ == spec_draw_text(
            *ui,
            old(pixels)@,
            dest_width as int,
            dest_height as int,
            x as int,
            y as int,
            if index < ui.words@.len() {
                ui.words@[index as int]@
            } else {
                Seq::<char>::empty()
            },
            0,
            color,
            shadow,
        ),
        final(pixels)@.len() == old(pixels)@.len(),
{
    let text: &str = ui.get_word(index);
    draw_text(ui, pixels, dest_width, dest_height, x, y, text, color, shadow);
}

/// The screen after the entries of a menu from `i` on were drawn: each
/// enabled entry as its word, with a shadow, the selected one in
/// `selected_color`, the others in the colour of menu entries.
pub open spec fn spec_draw_menu(
    ui: UI,
    dest: Seq<u8>,
    items: Seq<MenuItem>,
    i: int,
    selected: int,
    selected_color: u8,
) -> Seq<u8>
    decreases items.len() - i,
{
    if i < 0 || i >= items.len() {
        dest
    } else {
        let item: MenuItem = items[i];
        let drawn: Seq<u8> = if item.enabled {
            spec_draw_text(
                ui,
                dest,
                320,
                200,
                item.x as int,
                item.y as int,
                word_of(ui, item.num_word as int),
                0,
                if i == selected {
                    selected_color
                } else {
                    MENUITEM_COLOR
                },
                true,
            )
        } else {
            dest
        };
        spec_draw_menu(ui, drawn, items, i + 1, selected, selected_color)
    }
}

/// Word `index` of the interface, the empty text beyond the end of the
/// table.
pub open spec fn word_of(ui: UI, index: int) -> Seq<char> {
    if 0 <= index < ui.words@.len() {
        ui.words@[index]@
    } else {
        Seq::<char>::empty()
    }
}

/// Whether the entries of a menu can be drawn (see [`text_drawable`]).
pub open spec fn menu_drawable(ui: UI, items: Seq<MenuItem>) -> bool {
    forall|i: int|
        0 <= i < items.len() ==> text_drawable(
            ui,
            (#[trigger] items[i]).x as int,
            items[i].y as int,
            word_of(ui, items[i].num_word as int).len() as int,
        )
}

/// Draws the entries of a menu (see [`spec_draw_menu`]), the selected one in
/// the colour that it has `ticks` milliseconds after the start.
pub fn draw_menu(ui: &UI, pixels: &mut [u8], items: &[MenuItem], selected: usize, ticks: u32)
    requires
        menu_drawable(*ui, items@),
        64000 <= old(pixels)@.len(),
    ensures
        final(pixels)@ == spec_draw_menu(
            *ui,
            old(pixels)@,
            items@,
            0,
            selected as int,
            spec_menu_color_selected(ticks),
        ),
        final(pixels)@.len() == old(pixels)@.len(),
{
    let ghost whole = spec_draw_menu(
        *ui,
        pixels@,
        items@,
        0,
        selected as int,
        spec_menu_color_selected(ticks),
    );
    let mut i: usize = 0;
    while i < items.len()
        invariant
            i <= items@.len(),
            menu_drawable(*ui, items@),
            64000 <= pixels@.len(),
            pixels@.len() == old(pixels)@.len(),
            whole == spec_draw_menu(
                *ui,
                old(pixels)@,
                items@,
                0,
                selected as int,
                spec_menu_color_selected(ticks),
            ),
            spec_draw_menu(
                *ui,
                pixels@,
                items@,
                i as int,
                selected as int,
                spec_menu_color_selected(ticks),
            ) == whole,
        decreases items@.len() - i,
    {
        let item: &MenuItem = &items[i];
        let color: u8 = if i == selected {
            menu_color_selected(ticks)
        } else {
            MENUITEM_COLOR
        };
        if item.enabled {
            assert(text_drawable(
                *ui,
                items@[i as int].x as int,
                items@[i as int].y as int,
                word_of(*ui, items@[i as int].num_word as int).len() as int,
            ));
            draw_word(
                ui,
                pixels,
                320,
                200,
                item.x as i32,
                item.y as i32,
                item.num_word as usize,
                color,
                true,
            );
        }
        i += 1;
    }
}

/// The largest number of middle pieces of a box, and the reach of its
/// position.
pub const MAX_BOX_PIECES: u32 = 0x1000;

pub const BOX_REACH: isize = 0x2000_0000;

/// Whether a box of one line can be drawn: the interface has the three
/// sprites of a box, well formed and no wider than a frame of a sprite chunk
/// can be, and position and length are within reach.
pub open spec fn box_drawable(ui: UI, pos: Pos, len: u32) -> bool {
    &&& ui.sprite@.len() > SPRITENUM_BOX_RIGHT
    &&& ui.sprite@[SPRITENUM_BOX_LEFT as int].wf()
    &&& ui.sprite@[SPRITENUM_BOX_MID as int].wf()
    &&& ui.sprite@[SPRITENUM_BOX_RIGHT as int].wf()
    &&& ui.sprite@[SPRITENUM_BOX_LEFT as int].width <= 0xffff
    &&& ui.sprite@[SPRITENUM_BOX_MID as int].width <= 0xffff
    &&& -BOX_REACH <= pos.x <= BOX_REACH
    &&& len <= MAX_BOX_PIECES
}

/// The screen after `n` middle pieces of a box were drawn, the first at
/// `(x, y)`, each right of the one before.
pub open spec fn spec_draw_box_mids(ui: UI, dest: Seq<u8>, x: int, y: int, n: int) -> Seq<u8>
    decreases n,
{
    if n <= 0 {
        dest
    } else {
        spec_draw_box_mids(
            ui,
            blit(ui.sprite@[SPRITENUM_BOX_MID as int], dest, 320, 200, x, y),
            x + ui.sprite@[SPRITENUM_BOX_MID as int].width,
            y,
            n - 1,
        )
    }
}

/// The screen after a box of one line was drawn at `pos`: its left end,
/// `len` middle pieces and its right end, side by side.
pub open spec fn spec_draw_box(ui: UI, dest: Seq<u8>, pos: Pos, len: u32) -> Seq<u8> {
    let left: SpriteFrame = ui.sprite@[SPRITENUM_BOX_LEFT as int];
    let mid: SpriteFrame = ui.sprite@[SPRITENUM_BOX_MID as int];
    let right: SpriteFrame = ui.sprite@[SPRITENUM_BOX_RIGHT as int];
    blit(
        right,
        spec_draw_box_mids(
            ui,
            blit(left, dest, 320, 200, pos.x as int, pos.y as int),
            pos.x + left.width,
            pos.y as int,
            len as int,
        ),
        320,
        200,
        pos.x + left.width + len * mid.width,
        pos.y as int,
    )
}

/// Draws a box of one line at `pos`, with `len` middle pieces (see
/// [`spec_draw_box`]).
pub fn draw_signle_linebox_with_shadow(ui: &UI, pixels: &mut [u8], pos: Pos, len: u32)
    requires
        box_drawable(*ui, pos, len),
        64000 <= old(pixels)@.len(),
    ensures
        final(pixels)@ == spec_draw_box(*ui, old(pixels)@, pos, len),
        final(pixels)@.len() == old(pixels)@.len(),
{
    let left_box_frame: &SpriteFrame = &ui.sprite[SPRITENUM_BOX_LEFT];
    let mid_box_frame: &SpriteFrame = &ui.sprite[SPRITENUM_BOX_MID];
    let right_box_frame: &SpriteFrame = &ui.sprite[SPRITENUM_BOX_RIGHT];
    let mut x: isize = pos.x;
    let y: isize = pos.y;
    draw_sprite_frame(left_box_frame, pixels, 320, 200, x, y);
    x = x + left_box_frame.width as isize;
    let ghost start: int = x as int;
    let ghost whole = spec_draw_box_mids(*ui, pixels@, x as int, y as int, len as int);
    let mut i: u32 = 0;
    while i < len
        invariant
            i <= len <= MAX_BOX_PIECES,
            box_drawable(*ui, pos, len),
            *mid_box_frame == ui.sprite@[SPRITENUM_BOX_MID as int],
            64000 <= pixels@.len(),
            pixels@.len() == old(pixels)@.len(),
            x == start + i * mid_box_frame.width,
            -BOX_REACH <= start <= BOX_REACH + 0xffff,
            spec_draw_box_mids(*ui, pixels@, x as int, y as int, len - i) == whole,
        decreases len - i,
    {
        assert(0 <= i * mid_box_frame.width <= 0x1000 * 0xffff && (i + 1) * mid_box_frame.width
            == i * mid_box_frame.width + mid_box_frame.width) by (nonlinear_arith)
            requires
                0 <= i < 0x1000,
                0 <= mid_box_frame.width <= 0xffff,
        ;
        draw_sprite_frame(mid_box_frame, pixels, 320, 200, x, y);
        x = x + mid_box_frame.width as isize;
        i += 1;
    }
    draw_sprite_frame(right_box_frame, pixels, 320, 200, x, y);
}

/// The character of a decimal digit.
pub open spec fn digit_char(d: nat) -> char {
    (('0' as nat) + d) as char
}

/// A number in decimal digits, without leading zeros.
pub open spec fn spec_decimal(n: nat) -> Seq<char>
    decreases n,
{
    if n < 10 {
        seq![digit_char(n)]
    } else {
        spec_decimal(n / 10).push(digit_char(n % 10))
    }
}

/// An integer in decimal digits, with a minus sign where it is negative.
pub open spec fn spec_signed_decimal(v: int) -> Seq<char> {
    if v < 0 {
        seq!['-'] + spec_decimal((-v) as nat)
    } else {
        spec_decimal(v as nat)
    }
}

/// Ten to the power of `k`.
pub open spec fn pow10(k: nat) -> nat
    decreases k,
{
    if k == 0 {
        1
    } else {
        10 * pow10((k - 1) as nat)
    }
}

/// A number below ten to the power of `k` has at most `k` digits.
pub proof fn lemma_decimal_length(n: nat, k: nat)
    requires
        1 <= k,
        n < pow10(k),
    ensures
        1 <= spec_decimal(n).len() <= k,
    decreases k,
{
    reveal_with_fuel(pow10, 2);
    if n >= 10 {
        assert(k >= 2) by {
            if k == 1 {
                assert(pow10(1) == 10);
            }
        }
        assert(n / 10 < pow10((k - 1) as nat));
        lemma_decimal_length(n / 10, (k - 1) as nat);
    }
}

/// A number of 64 bits has at most twenty digits.
pub proof fn lemma_decimal_length_u64(n: u64)
    ensures
        1 <= spec_decimal(n as nat).len() <= 20,
{
    assert(pow10(20) == 100_000_000_000_000_000_000nat) by {
        reveal_with_fuel(pow10, 21);
    }
    lemma_decimal_length(n as nat, 20);
}

/// The formatting of a `u64` for display (`format!` with `{}`): its decimal
/// digits, without leading zeros.
#[verifier::external_body]
pub(crate) fn decimal_text(n: u64) -> (s: String)
    ensures
        s@ == spec_decimal(n as nat),
{
    format!("{}", n)
}

/// An integer in decimal digits, with a minus sign where it is negative.
pub fn signed_decimal_text(v: isize) -> (s: String)
    ensures
        s@ == spec_signed_decimal(v as int),
        s@.len() <= 21,
{
    proof {
        reveal_strlit("-");
    }
    if v < 0 {
        let magnitude: u64 = (-(v as i128)) as u64;
        proof {
            lemma_decimal_length_u64(magnitude);
        }
        let digits: String = decimal_text(magnitude);
        let s: String = String::from_str("-").concat(digits.as_str());
        assert(s@ =~= spec_signed_decimal(v as int));
        s
    } else {
        proof {
            lemma_decimal_length_u64(v as u64);
        }
        decimal_text(v as u64)
    }
}

} // verus!
