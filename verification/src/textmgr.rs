//! The texts of the game: a bitmap font of 16 by 16 glyphs, the fixed-width
//! table of words and the table of messages, all in a legacy encoding that
//! is guessed from the list of font characters.

use vstd::prelude::*;
use crate::bytes::{le16, le32, read_u16, read_u32};
use crate::error::Error;
use crate::mkf::{spec_read_chunk, MKF};
use crate::sprite::{blit_cells, draw_sprite_frame, SpriteFrame, TRANSPARENT};
use crate::utils::{reverse_bits, spec_reverse_bits};

verus! {

/// Bytes of a glyph in memory: sixteen rows of two bytes.
pub const GLYPH_BYTES: usize = 32;

/// Bytes of a glyph in the font file: fifteen rows of two bytes.
pub const STORED_GLYPH_BYTES: usize = 30;

/// Where the glyphs start in the font file.
pub const FONT_OFFSET: usize = 0x682;

/// Bytes of a word in the file of words.
pub const WORD_BYTES: usize = 10;

/// The chunk of the script archive that holds the offsets of the messages.
pub const CHUNK_MESSAGE_INDEX: u32 = 3;

/// The largest text that is handed to the decoder in one piece.
pub const MAX_TEXT_BYTES: usize = 0x3fff_ffff;

/// The name of the encoding that `chardetng` guesses for a text, given the
/// whole text, no top-level domain, and UTF-8 allowed.
pub uninterp spec fn guessed_label(sample: Seq<u8>) -> Seq<char>;

/// The text that `encoding_rs` decodes bytes to, for the encoding with the
/// given label; nothing for a label that names no encoding.
pub uninterp spec fn decoded(label: Seq<char>, bytes: Seq<u8>) -> Option<Seq<char>>;

/// `chardetng::EncodingDetector`: a new detector is fed the whole sample as
/// its last input and asked for its guess, without a top-level domain and
/// with UTF-8 allowed; the result is the name of the guessed encoding
/// (`encoding_rs::Encoding::name`). The guess depends on the sample alone.
#[verifier::external_body]
pub(crate) fn guess_encoding(sample: &[u8]) -> (label: &'static str)
    ensures
        label@ == guessed_label(sample@),
{
    let mut detector = chardetng::EncodingDetector::new();
    detector.feed(sample, true);
    detector.guess(None, true).name()
}

/// `encoding_rs::Encoding::decode`, on the encoding that
/// `encoding_rs::Encoding::for_label` finds for the label: the decoded text,
/// with malformed sequences replaced and a byte order mark honoured, or
/// nothing where the label names no encoding. The outcome depends on the
/// label and the bytes alone. The bound on the length keeps the decoder's
/// size calculation, three times the length and a little more, within
/// `usize`.
#[verifier::external_body]
pub(crate) fn try_decode(label: &str, bytes: &[u8]) -> (text: Option<String>)
    requires
        bytes@.len() <= MAX_TEXT_BYTES,
    ensures
        match text {
            Some(t) => decoded(label@, bytes@) == Some(t@),
            None => decoded(label@, bytes@) is None,
        },
{
    match encoding_rs::Encoding::for_label(label.as_bytes()) {
        Some(encoding) => Some(encoding.decode(bytes).0.into_owned()),
        None => None,
    }
}

/// The text that bytes stand for in the encoding with the given label: the
/// empty text for a label that names no encoding.
pub open spec fn decoded_text(label: Seq<char>, bytes: Seq<u8>) -> Seq<char> {
    match decoded(label, bytes) {
        Some(text) => text,
        None => Seq::empty(),
    }
}

/// Decodes bytes in the encoding with the given label (see
/// [`decoded_text`]).
pub fn decode_text(label: &str, bytes: &[u8]) -> (text: String)
    requires
        bytes@.len() <= MAX_TEXT_BYTES,
    ensures
        text@ == decoded_text(label@, bytes@),
{
    match try_decode(label, bytes) {
        Some(text) => text,
        None => String::new(),
    }
}

/// The characters of a text, one by one.
pub fn chars_of(text: &str) -> (v: Vec<char>)
    ensures
        v@ == text@,
{
    let mut v: Vec<char> = Vec::new();
    for c in it: text.chars()
        invariant
            v@ == it.seq().take(it.index() as int),
    {
        v.push(c);
        assert(v@ =~= it.seq().take(it.index() + 1));
    }
    assert(v@ =~= text@);
    v
}

/// Glyph `i` of a font file: its thirty stored bytes, each with its bits
/// reversed, and two bytes of zeros.
pub open spec fn spec_glyph(fon: Seq<u8>, i: int) -> Seq<u8> {
    Seq::new(
        GLYPH_BYTES as nat,
        |j: int|
            if j < STORED_GLYPH_BYTES {
                spec_reverse_bits(fon[FONT_OFFSET + STORED_GLYPH_BYTES * i + j])
            } else {
                0u8
            },
    )
}

/// Whether a font file holds `n` glyphs. No glyphs are always held.
pub open spec fn holds_glyphs(fon: Seq<u8>, n: nat) -> bool {
    n == 0 || FONT_OFFSET + STORED_GLYPH_BYTES * n <= fon.len()
}

/// Reads `n` glyphs from a font file; `None` where the file ends before the
/// last of them.
pub fn read_glyphs(fon: &[u8], n: usize) -> (r: Option<Vec<Vec<u8>>>)
    ensures
        match r {
            Some(fonts) => holds_glyphs(fon@, n as nat) && fonts@.len() == n && forall|i: int|
                0 <= i < n ==> (#[trigger] fonts@[i])@ == spec_glyph(fon@, i),
            None => !holds_glyphs(fon@, n as nat),
        },
{
    if n == 0 {
        return Some(Vec::new());
    }
    if fon.len() < FONT_OFFSET || (fon.len() - FONT_OFFSET) / STORED_GLYPH_BYTES < n {
        return None;
    }
    let mut fonts: Vec<Vec<u8>> = Vec::new();
    let mut i: usize = 0;
    while i < n
        invariant
            i <= n,
            FONT_OFFSET + STORED_GLYPH_BYTES * n <= fon@.len() <= usize::MAX,
            fonts@.len() == i,
            forall|k: int| 0 <= k < i ==> (#[trigger] fonts@[k])@ == spec_glyph(fon@, k),
        decreases n - i,
    {
        let base: usize = FONT_OFFSET + STORED_GLYPH_BYTES * i;
        let mut glyph: Vec<u8> = Vec::new();
        let mut j: usize = 0;
        while j < GLYPH_BYTES
            invariant
                j <= GLYPH_BYTES,
                i < n,
                base == FONT_OFFSET + STORED_GLYPH_BYTES * i,
                FONT_OFFSET + STORED_GLYPH_BYTES * n <= fon@.len() <= usize::MAX,
                glyph@.len() == j,
                forall|k: int| 0 <= k < j ==> glyph@[k] == spec_glyph(fon@, i as int)[k],
            decreases GLYPH_BYTES - j,
        {
            if j < STORED_GLYPH_BYTES {
                glyph.push(reverse_bits(fon[base + j]));
            } else {
                glyph.push(0u8);
            }
            j += 1;
        }
        assert(glyph@ =~= spec_glyph(fon@, i as int));
        fonts.push(glyph);
        i += 1;
    }
    Some(fonts)
}

/// The words of a file of words: one for every ten bytes, decoded.
pub open spec fn spec_words(label: Seq<char>, word: Seq<u8>) -> Seq<Seq<char>> {
    Seq::new(
        word.len() / (WORD_BYTES as nat),
        |i: int| decoded_text(label, word.subrange(WORD_BYTES * i, WORD_BYTES * i + WORD_BYTES)),
    )
}

/// Whether `texts` hold the given sequences of characters.
pub open spec fn texts_are(texts: Seq<String>, chars: Seq<Seq<char>>) -> bool {
    texts.len() == chars.len() && forall|i: int|
        0 <= i < texts.len() ==> (#[trigger] texts[i])@ == chars[i]
}

/// Decodes the words of a file of words.
pub fn read_words(label: &str, word: &[u8]) -> (words: Vec<String>)
    ensures
        texts_are(words@, spec_words(label@, word@)),
{
    let count: usize = word.len() / WORD_BYTES;
    let mut words: Vec<String> = Vec::new();
    let mut i: usize = 0;
    while i < count
        invariant
            i <= count,
            count == word@.len() / (WORD_BYTES as nat),
            word@.len() <= usize::MAX,
            words@.len() == i,
            forall|k: int|
                0 <= k < i ==> (#[trigger] words@[k])@ == spec_words(label@, word@)[k],
        decreases count - i,
    {
        let from: usize = WORD_BYTES * i;
        words.push(decode_text(label, &word[from..from + WORD_BYTES]));
        i += 1;
    }
    words
}

/// How many messages a message index announces: one less than the offsets
/// it holds.
pub open spec fn spec_message_count(index: Seq<u8>) -> int {
    index.len() / 4 - 1
}

/// Where message `i` starts in the file of messages.
pub open spec fn message_start(index: Seq<u8>, i: int) -> int {
    le32(index, 4 * i)
}

/// Why message `i` cannot be read, if it cannot. `Error::Data`: it ends
/// before it starts. `Error::Io`: it is not empty and reaches beyond the end
/// of the file of messages, or is longer than can be decoded in one piece.
pub open spec fn message_failure(index: Seq<u8>, msg: Seq<u8>, i: int) -> Option<Error> {
    let from: int = message_start(index, i);
    let to: int = message_start(index, i + 1);
    if to < from {
        Some(Error::Data)
    } else if to > from && (to > msg.len() || to - from > MAX_TEXT_BYTES) {
        Some(Error::Io)
    } else {
        None
    }
}

/// The bytes of message `i`.
pub open spec fn message_bytes(index: Seq<u8>, msg: Seq<u8>, i: int) -> Seq<u8> {
    if message_start(index, i + 1) > message_start(index, i) {
        msg.subrange(message_start(index, i), message_start(index, i + 1))
    } else {
        Seq::empty()
    }
}

/// The first of the first `upto` messages that cannot be read, if there is
/// one, with the reason.
pub open spec fn first_message_failure(index: Seq<u8>, msg: Seq<u8>, upto: int) -> Option<Error>
    decreases upto,
{
    if upto <= 0 {
        None
    } else if first_message_failure(index, msg, upto - 1) is Some {
        first_message_failure(index, msg, upto - 1)
    } else {
        message_failure(index, msg, upto - 1)
    }
}

/// Why the messages cannot be read, if they cannot. `Error::Data`: the index
/// holds no offset at all. Otherwise the reason for the first message that
/// cannot be read.
pub open spec fn messages_failure(index: Seq<u8>, msg: Seq<u8>) -> Option<Error> {
    if spec_message_count(index) < 0 {
        Some(Error::Data)
    } else {
        first_message_failure(index, msg, spec_message_count(index))
    }
}

/// The messages: each decoded from its bytes.
pub open spec fn spec_messages(label: Seq<char>, index: Seq<u8>, msg: Seq<u8>) -> Seq<Seq<char>> {
    Seq::new(
        spec_message_count(index) as nat,
        |i: int| decoded_text(label, message_bytes(index, msg, i)),
    )
}

/// Decodes the messages that the index places in the file of messages.
pub fn read_messages(label: &str, index: &[u8], msg: &[u8]) -> (r: Result<Vec<String>, Error>)
    ensures
        match r {
            Ok(msgs) => messages_failure(index@, msg@) is None && texts_are(
                msgs@,
                spec_messages(label@, index@, msg@),
            ),
            Err(e) => messages_failure(index@, msg@) == Some(e),
        },
{
    let msg_count: usize = index.len() / 4;
    if msg_count == 0 {
        return Err(Error::Data);
    }
    let count: usize = msg_count - 1;
    let mut msgs: Vec<String> = Vec::new();
    let mut i: usize = 0;
    while i < count
        invariant
            i <= count,
            count == spec_message_count(index@),
            index@.len() <= usize::MAX,
            msgs@.len() == i,
            first_message_failure(index@, msg@, i as int) is None,
            forall|k: int|
                0 <= k < i ==> (#[trigger] msgs@[k])@ == decoded_text(
                    label@,
                    message_bytes(index@, msg@, k),
                ),
        decreases count - i,
    {
        let from: u32 = read_u32(index, 4 * i);
        let to: u32 = read_u32(index, 4 * i + 4);
        if to < from {
            proof {
                lemma_first_failure_stays(index@, msg@, i as int + 1, count as int);
            }
            return Err(Error::Data);
        }
        if to > from && (to as u64 > msg.len() as u64 || (to - from) as u64
            > MAX_TEXT_BYTES as u64) {
            proof {
                lemma_first_failure_stays(index@, msg@, i as int + 1, count as int);
            }
            return Err(Error::Io);
        }
        if to > from {
            msgs.push(decode_text(label, &msg[from as usize..to as usize]));
        } else {
            msgs.push(decode_text(label, &msg[0..0]));
            assert(msg@.subrange(0, 0) =~= Seq::<u8>::empty());
        }
        i += 1;
    }
    Ok(msgs)
}

/// Once a message cannot be read, the first failure stays what it is.
pub proof fn lemma_first_failure_stays(index: Seq<u8>, msg: Seq<u8>, from: int, upto: int)
    requires
        0 <= from <= upto,
        first_message_failure(index, msg, from) is Some,
    ensures
        first_message_failure(index, msg, upto) == first_message_failure(index, msg, from),
    decreases upto - from,
{
    if from < upto {
        lemma_first_failure_stays(index, msg, from, upto - 1);
    }
}

/// Finds the first position of `c` in `chars`.
pub fn position(chars: &Vec<char>, c: char) -> (r: Option<usize>)
    ensures
        match r {
            Some(i) => i < chars@.len() && chars@[i as int] == c && forall|k: int|
                0 <= k < i ==> chars@[k] != c,
            None => forall|k: int| 0 <= k < chars@.len() ==> chars@[k] != c,
        },
{
    let mut i: usize = 0;
    while i < chars.len()
        invariant
            i <= chars.len(),
            forall|k: int| 0 <= k < i ==> chars@[k] != c,
        decreases chars.len() - i,
    {
        if chars[i] == c {
            return Some(i);
        }
        i += 1;
    }
    None
}

/// Whether the pixel in row `row` and column `col` of a glyph is set: bit
/// `col` of the little-endian word of the row.
pub open spec fn glyph_pixel(glyph: Seq<u8>, row: int, col: int) -> bool {
    (le16(glyph, 2 * row) as u16 >> (col as u16)) & 1 == 1
}

/// A glyph as 16 rows of 16 cells: `color` where the glyph has a pixel,
/// transparent everywhere else.
pub open spec fn glyph_cells(glyph: Seq<u8>, color: u8) -> Seq<u16> {
    Seq::new(
        256,
        |k: int|
            if glyph_pixel(glyph, k / 16, k % 16) {
                color as u16
            } else {
                TRANSPARENT
            },
    )
}

/// The buffer after a glyph was drawn in `color` at `(x, y)`: the cells of
/// the glyph, drawn as a frame is.
pub open spec fn draw_glyph(
    glyph: Seq<u8>,
    dest: Seq<u8>,
    dest_width: int,
    dest_height: int,
    x: int,
    y: int,
    color: u8,
) -> Seq<u8> {
    blit_cells(glyph_cells(glyph, color), 16, 16, dest, dest_width, dest_height, x, y)
}

/// Draws a glyph in `color` with its top left corner at `(x, y)` (see
/// [`draw_glyph`]).
pub fn draw_glyph_into(
    glyph: &Vec<u8>,
    pixels: &mut [u8],
    dest_width: u32,
    dest_height: u32,
    x: i32,
    y: i32,
    color: u8,
)
    requires
        glyph@.len() == GLYPH_BYTES,
        dest_width * dest_height <= old(pixels)@.len(),
    ensures
        final(pixels)@ == draw_glyph(
            glyph@,
            old(pixels)@,
            dest_width as int,
            dest_height as int,
            x as int,
            y as int,
            color,
        ),
        final(pixels)@.len() == old(pixels)@.len(),
{
    let mut data: Vec<u16> = Vec::new();
    let mut row: usize = 0;
    while row < 16
        invariant
            row <= 16,
            glyph@.len() == GLYPH_BYTES,
            data@.len() == 16 * row,
            forall|k: int| 0 <= k < data@.len() ==> data@[k] == glyph_cells(glyph@, color)[k],
        decreases 16 - row,
    {
        let word: u16 = read_u16(glyph.as_slice(), 2 * row);
        let mut col: usize = 0;
        while col < 16
            invariant
                col <= 16,
                row < 16,
                word == le16(glyph@, 2 * row) as u16,
                data@.len() == 16 * row + col,
                forall|k: int| 0 <= k < data@.len() ==> data@[k] == glyph_cells(glyph@, color)[k],
            decreases 16 - col,
        {
            let bit: u16 = (word >> (col as u16)) & 1;
            if bit == 1 {
                data.push(color as u16);
            } else {
                data.push(TRANSPARENT);
            }
            col += 1;
        }
        row += 1;
    }
    assert(data@ =~= glyph_cells(glyph@, color));
    let frame = SpriteFrame { width: 16, height: 16, data };
    draw_sprite_frame(
        &frame,
        pixels,
        dest_width as usize,
        dest_height as usize,
        x as isize,
        y as isize,
    );
}

/// The texts of the game.
pub struct TextMgr {
    pub font_chars: Vec<char>,
    pub fonts: Vec<Vec<u8>>,
    pub msgs: Vec<String>,
    pub words: Vec<String>,
}

/// Whether there is a glyph of the right size for every font character.
pub open spec fn glyphs_fit(font_chars: Seq<char>, fonts: Seq<Vec<u8>>) -> bool {
    fonts.len() == font_chars.len() && forall|i: int|
        0 <= i < fonts.len() ==> (#[trigger] fonts[i])@.len() == GLYPH_BYTES
}

/// Why the texts cannot be loaded, if they cannot. `Error::Io`: the font
/// file ends before the glyph of the last font character. Otherwise the
/// reason why the messages cannot be read (see [`messages_failure`]).
pub open spec fn tables_failure(
    asc: Seq<u8>,
    fon: Seq<u8>,
    index: Seq<u8>,
    msg: Seq<u8>,
) -> Option<Error> {
    let label: Seq<char> = guessed_label(asc);
    if !holds_glyphs(fon, decoded_text(label, asc).len()) {
        Some(Error::Io)
    } else {
        messages_failure(index, msg)
    }
}

/// Whether font characters and glyphs are those that the files hold: the
/// font characters are the decoded list of characters, and there is a glyph
/// for each.
pub open spec fn font_is(
    font_chars: Seq<char>,
    fonts: Seq<Vec<u8>>,
    asc: Seq<u8>,
    fon: Seq<u8>,
) -> bool {
    &&& font_chars == decoded_text(guessed_label(asc), asc)
    &&& fonts.len() == font_chars.len()
    &&& forall|i: int| 0 <= i < fonts.len() ==> (#[trigger] fonts[i])@ == spec_glyph(fon, i)
}

/// Whether the four tables are those that the files hold: the font
/// characters are the decoded list of characters, there is a glyph for each,
/// and words and messages are decoded in the encoding guessed from the list
/// of characters.
pub open spec fn tables_are(
    font_chars: Seq<char>,
    fonts: Seq<Vec<u8>>,
    words: Seq<String>,
    msgs: Seq<String>,
    asc: Seq<u8>,
    fon: Seq<u8>,
    word: Seq<u8>,
    index: Seq<u8>,
    msg: Seq<u8>,
) -> bool {
    let label: Seq<char> = guessed_label(asc);
    &&& font_is(font_chars, fonts, asc, fon)
    &&& texts_are(words, spec_words(label, word))
    &&& texts_are(msgs, spec_messages(label, index, msg))
}

/// The four tables together.
pub struct Tables {
    pub font_chars: Vec<char>,
    pub fonts: Vec<Vec<u8>>,
    pub words: Vec<String>,
    pub msgs: Vec<String>,
}

/// Reads the four tables from the bytes of their files: the list of font
/// characters, the font, the words, the index of the messages and the
/// messages.
pub fn read_tables(asc: &[u8], fon: &[u8], word: &[u8], index: &[u8], msg: &[u8]) -> (r: Result<
    Tables,
    Error,
>)
    requires
        asc@.len() <= MAX_TEXT_BYTES,
    ensures
        match r {
            Ok(t) => tables_failure(asc@, fon@, index@, msg@) is None && tables_are(
                t.font_chars@,
                t.fonts@,
                t.words@,
                t.msgs@,
                asc@,
                fon@,
                word@,
                index@,
                msg@,
            ) && glyphs_fit(t.font_chars@, t.fonts@),
            Err(e) => tables_failure(asc@, fon@, index@, msg@) == Some(e),
        },
{
    let label: &'static str = guess_encoding(asc);
    let decoded: String = decode_text(label, asc);
    let font_chars: Vec<char> = chars_of(decoded.as_str());
    let fonts: Vec<Vec<u8>> = match read_glyphs(fon, font_chars.len()) {
        Some(fonts) => fonts,
        None => {
            return Err(Error::Io);
        },
    };
    let words: Vec<String> = read_words(label, word);
    let msgs: Vec<String> = read_messages(label, index, msg)?;
    Ok(Tables { font_chars, fonts, words, msgs })
}

/// Why the texts cannot be loaded with the index of the messages taken from
/// the script archive, if they cannot: the error with which the chunk of
/// the index cannot be read, or else that of [`tables_failure`].
pub open spec fn load_failure(
    asc: Seq<u8>,
    fon: Seq<u8>,
    sss: Seq<u8>,
    msg: Seq<u8>,
) -> Option<Error> {
    match spec_read_chunk(sss, CHUNK_MESSAGE_INDEX as nat) {
        Err(e) => if holds_glyphs(fon, decoded_text(guessed_label(asc), asc).len()) {
            Some(e)
        } else {
            Some(Error::Io)
        },
        Ok(index) => tables_failure(asc, fon, index, msg),
    }
}

/// Reads the four tables, the index of the messages from the script
/// archive.
pub fn load_tables(asc: &[u8], fon: &[u8], word: &[u8], sss: &MKF, msg: &[u8]) -> (r: Result<
    Tables,
    Error,
>)
    requires
        asc@.len() <= MAX_TEXT_BYTES,
    ensures
        match r {
            Ok(t) => load_failure(asc@, fon@, sss@, msg@) is None && tables_are(
                t.font_chars@,
                t.fonts@,
                t.words@,
                t.msgs@,
                asc@,
                fon@,
                word@,
                spec_read_chunk(sss@, CHUNK_MESSAGE_INDEX as nat)->Ok_0,
                msg@,
            ) && glyphs_fit(t.font_chars@, t.fonts@),
            Err(e) => load_failure(asc@, fon@, sss@, msg@) == Some(e),
        },
{
    let label: &'static str = guess_encoding(asc);
    let decoded: String = decode_text(label, asc);
    let font_chars: Vec<char> = chars_of(decoded.as_str());
    let fonts: Vec<Vec<u8>> = match read_glyphs(fon, font_chars.len()) {
        Some(fonts) => fonts,
        None => {
            return Err(Error::Io);
        },
    };
    let words: Vec<String> = read_words(label, word);
    let index: Vec<u8> = sss.read_chunk(CHUNK_MESSAGE_INDEX)?;
    let msgs: Vec<String> = read_messages(label, index.as_slice(), msg)?;
    Ok(Tables { font_chars, fonts, words, msgs })
}

impl TextMgr {
    /// The texts are well formed when there is a glyph of 32 bytes for
    /// every font character.
    pub open spec fn wf(&self) -> bool {
        glyphs_fit(self.font_chars@, self.fonts@)
    }

    /// Loads the texts from the bytes of their files and the script archive
    /// (see [`load_tables`]).
    pub fn load(asc: &[u8], fon: &[u8], word: &[u8], sss: &MKF, msg: &[u8]) -> (r: Result<
        TextMgr,
        Error,
    >)
        requires
            asc@.len() <= MAX_TEXT_BYTES,
        ensures
            match r {
                Ok(t) => load_failure(asc@, fon@, sss@, msg@) is None && tables_are(
                    t.font_chars@,
                    t.fonts@,
                    t.words@,
                    t.msgs@,
                    asc@,
                    fon@,
                    word@,
                    spec_read_chunk(sss@, CHUNK_MESSAGE_INDEX as nat)->Ok_0,
                    msg@,
                ) && t.wf(),
                Err(e) => load_failure(asc@, fon@, sss@, msg@) == Some(e),
            },
    {
        let t: Tables = load_tables(asc, fon, word, sss, msg)?;
        Ok(TextMgr { font_chars: t.font_chars, fonts: t.fonts, msgs: t.msgs, words: t.words })
    }

    /// The buffer after the character `c` was drawn: unchanged for a
    /// character that the font does not have, else with the glyph of its
    /// first occurrence among the font characters drawn.
    pub open spec fn spec_draw_char(
        font_chars: Seq<char>,
        fonts: Seq<Vec<u8>>,
        dest: Seq<u8>,
        dest_width: int,
        dest_height: int,
        x: int,
        y: int,
        c: char,
        color: u8,
    ) -> Seq<u8> {
        match font_chars.index_of_first(c) {
            Some(i) => draw_glyph(fonts[i]@, dest, dest_width, dest_height, x, y, color),
            None => dest,
        }
    }

    /// Draws the character `c` in `color` with its top left corner at
    /// `(x, y)` (see [`TextMgr::spec_draw_char`]).
    pub fn draw_char(
        &self,
        pixels: &mut [u8],
        dest_width: u32,
        dest_height: u32,
        x: i32,
        y: i32,
        c: char,
        color: u8,
    )
        requires
            self.wf(),
            dest_width * dest_height <= old(pixels)@.len(),
        ensures
            final(pixels)@ == TextMgr::spec_draw_char(
                self.font_chars@,
                self.fonts@,
                old(pixels)@,
                dest_width as int,
                dest_height as int,
                x as int,
                y as int,
                c,
                color,
            ),
            final(pixels)@.len() == old(pixels)@.len(),
    {
        draw_font_char(&self.font_chars, &self.fonts, pixels, dest_width, dest_height, x, y, c, color);
    }

    /// Word `index` of the table of words, the empty text beyond its end.
    pub fn get_word(&self, index: usize) -> (w: &str)
        ensures
            w@ == (if index < self.words@.len() {
                self.words@[index as int]@
            } else {
                Seq::<char>::empty()
            }),
    {
        text_at(&self.words, index)
    }

    /// Message `index` of the table of messages, the empty text beyond its
    /// end.
    pub fn get_msg(&self, index: usize) -> (m: &str)
        ensures
            m@ == (if index < self.msgs@.len() {
                self.msgs@[index as int]@
            } else {
                Seq::<char>::empty()
            }),
    {
        text_at(&self.msgs, index)
    }
}

/// Text `index` of a table, the empty text beyond its end.
pub fn text_at(texts: &Vec<String>, index: usize) -> (t: &str)
    ensures
        t@ == (if index < texts@.len() {
            texts@[index as int]@
        } else {
            Seq::<char>::empty()
        }),
{
    if index >= texts.len() {
        proof {
            reveal_strlit("");
        }
        return "";
    }
    texts[index].as_str()
}

/// Draws the glyph of a character, if the font has the character, and says
/// whether it has (see [`TextMgr::spec_draw_char`]).
pub fn draw_font_char(
    font_chars: &Vec<char>,
    fonts: &Vec<Vec<u8>>,
    pixels: &mut [u8],
    dest_width: u32,
    dest_height: u32,
    x: i32,
    y: i32,
    c: char,
    color: u8,
) -> (found: bool)
    requires
        glyphs_fit(font_chars@, fonts@),
        dest_width * dest_height <= old(pixels)@.len(),
    ensures
        found == font_chars@.contains(c),
        final(pixels)@ == TextMgr::spec_draw_char(
            font_chars@,
            fonts@,
            old(pixels)@,
            dest_width as int,
            dest_height as int,
            x as int,
            y as int,
            c,
            color,
        ),
        final(pixels)@.len() == old(pixels)@.len(),
{
    proof {
        font_chars@.index_of_first_ensures(c);
    }
    match position(font_chars, c) {
        None => {
            assert(!font_chars@.contains(c));
            false
        },
        Some(index) => {
            assert(font_chars@.contains(c));
            assert(font_chars@.index_of_first(c) == Some(index as int));
            draw_glyph_into(&fonts[index], pixels, dest_width, dest_height, x, y, color);
            true
        },
    }
}

/// The buffer after the characters of a text from position `from` on were
/// drawn with the glyphs of a font, the first of them at `(x, y)`, each
/// sixteen pixels right of the one before.
pub open spec fn spec_draw_line(
    font_chars: Seq<char>,
    fonts: Seq<Vec<u8>>,
    dest: Seq<u8>,
    dest_width: int,
    dest_height: int,
    x: int,
    y: int,
    text: Seq<char>,
    from: int,
    color: u8,
) -> Seq<u8>
    decreases text.len() - from,
{
    if from < 0 || from >= text.len() {
        dest
    } else {
        spec_draw_line(
            font_chars,
            fonts,
            TextMgr::spec_draw_char(
                font_chars,
                fonts,
                dest,
                dest_width,
                dest_height,
                x,
                y,
                text[from],
                color,
            ),
            dest_width,
            dest_height,
            x + 16,
            y,
            text,
            from + 1,
            color,
        )
    }
}

impl TextMgr {
    /// Whether a text of `len` characters can be drawn at column `x`: the
    /// texts are well formed and no character is placed beyond what a 32-bit
    /// coordinate holds.
    pub open spec fn line_drawable(&self, x: int, len: int) -> bool {
        self.wf() && x + 16 * len <= i32::MAX
    }

    /// Draws a text in `color` with its top left corner at `(x, y)` (see
    /// [`spec_draw_line`]).
    pub fn draw_text(
        &self,
        pixels: &mut [u8],
        dest_width: u32,
        dest_height: u32,
        x: i32,
        y: i32,
        text: &str,
        color: u8,
    )
        requires
            self.line_drawable(x as int, text@.len() as int),
            dest_width * dest_height <= old(pixels)@.len(),
        ensures
            final(pixels)@ == spec_draw_line(
                self.font_chars@,
                self.fonts@,
                old(pixels)@,
                dest_width as int,
                dest_height as int,
                x as int,
                y as int,
                text@,
                0,
                color,
            ),
            final(pixels)@.len() == old(pixels)@.len(),
    {
        let ghost whole = spec_draw_line(
            self.font_chars@,
            self.fonts@,
            pixels@,
            dest_width as int,
            dest_height as int,
            x as int,
            y as int,
            text@,
            0,
            color,
        );
        let mut at: i32 = x;
        for c in it: text.chars()
            invariant
                it.seq() == text@,
                self.line_drawable(x as int, text@.len() as int),
                at == x + 16 * it.index(),
                dest_width * dest_height <= pixels@.len(),
                pixels@.len() == old(pixels)@.len(),
                whole == spec_draw_line(
                    self.font_chars@,
                    self.fonts@,
                    old(pixels)@,
                    dest_width as int,
                    dest_height as int,
                    x as int,
                    y as int,
                    text@,
                    0,
                    color,
                ),
                spec_draw_line(
                    self.font_chars@,
                    self.fonts@,
                    pixels@,
                    dest_width as int,
                    dest_height as int,
                    at as int,
                    y as int,
                    text@,
                    it.index() as int,
                    color,
                ) == whole,
        {
            self.draw_char(pixels, dest_width, dest_height, at, y, c, color);
            at = at + 16;
        }
    }

    /// Draws word `index` of the table of words (see [`TextMgr::draw_text`]).
    pub fn draw_word(
        &self,
        pixels: &mut [u8],
        dest_width: u32,
        dest_height: u32,
        x: i32,
        y: i32,
        index: usize,
        color: u8,
    )
        requires
            self.line_drawable(
                x as int,
                if index < self.words@.len() {
                    self.words@[index as int]@.len() as int
                } else {
                    0
                },
            ),
            dest_width * dest_height <= old(pixels)@.len(),
        ensures
            final(pixels)@ == spec_draw_line(
                self.font_chars@,
                self.fonts@,
                old(pixels)@,
                dest_width as int,
                dest_height as int,
                x as int,
                y as int,
                if index < self.words@.len() {
                    self.words@[index as int]@
                } else {
                    Seq::<char>::empty()
                },
                0,
                color,
            ),
            final(pixels)@.len() == old(pixels)@.len(),
    {
        let text: &str = self.get_word(index);
        self.draw_text(pixels, dest_width, dest_height, x, y, text, color);
    }
}

} // verus!
