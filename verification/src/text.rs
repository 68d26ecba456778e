//! The font and the words of the game, without its messages.

use vstd::prelude::*;
use crate::error::Error;
use crate::mkf::MKF;
use crate::textmgr::{
    draw_font_char, font_is, glyphs_fit, guessed_label, load_failure, load_tables, spec_words,
    texts_are, Tables, TextMgr, MAX_TEXT_BYTES,
};

verus! {

/// The font and the words of the game.
pub struct Text {
    pub font_chars: Vec<char>,
    pub fonts: Vec<Vec<u8>>,
    pub msgs: Vec<String>,
    pub words: Vec<String>,
}

impl Text {
    /// The texts are well formed when there is a glyph of 32 bytes for
    /// every font character.
    pub open spec fn wf(&self) -> bool {
        glyphs_fit(self.font_chars@, self.fonts@)
    }

    /// Loads font and words from the bytes of their files. The messages are
    /// read, so that a file that does not hold them is an error, but not
    /// kept.
    pub fn load(asc: &[u8], fon: &[u8], word: &[u8], sss: &MKF, msg: &[u8]) -> (r: Result<
        Text,
        Error,
    >)
        requires
            asc@.len() <= MAX_TEXT_BYTES,
        ensures
            match r {
                Ok(t) => load_failure(asc@, fon@, sss@, msg@) is None && font_is(
                    t.font_chars@,
                    t.fonts@,
                    asc@,
                    fon@,
                ) && texts_are(t.words@, spec_words(guessed_label(asc@), word@)) && t.msgs@.len()
                    == 0 && t.wf(),
                Err(e) => load_failure(asc@, fon@, sss@, msg@) == Some(e),
            },
    {
        let t: Tables = load_tables(asc, fon, word, sss, msg)?;
        Ok(Text { font_chars: t.font_chars, fonts: t.fonts, words: t.words, msgs: Vec::new() })
    }

    /// Draws the character `c` in `color` with its top left corner at
    /// `(x, y)` (see [`TextMgr::spec_draw_char`]). A character that the font
    /// does not have is `Error::Data`, and nothing is drawn.
    pub fn draw_char(
        &self,
        pixels: &mut [u8],
        dest_width: u32,
        dest_height: u32,
        x: i32,
        y: i32,
        c: char,
        color: u8,
    ) -> (r: Result<(), Error>)
        requires
            self.wf(),
            dest_width * dest_height <= old(pixels)@.len(),
        ensures
            r == (if self.font_chars@.contains(c) {
                Ok::<(), Error>(())
            } else {
                Err::<(), Error>(Error::Data)
            }),
            final(pixels)@ == TextMgr::spec_draw_char(
                self.font_chars@,
                self.fonts@,
                old(pixels)@,
                dest_width as int,
                dest_height as int,
                x as int,
                y as int,
                c,
                color,
            ),
            final(pixels)@.len() == old(pixels)@.len(),
    {
        if draw_font_char(
            &self.font_chars,
            &self.fonts,
            pixels,
            dest_width,
            dest_height,
            x,
            y,
            c,
            color,
        ) {
            Ok(())
        } else {
            Err(Error::Data)
        }
    }
}

} // verus!
