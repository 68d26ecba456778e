//! An indexed-colour canvas: palette indices on one side, packed RGB words
//! on the other.

use vstd::prelude::*;
use crate::error::Error;

verus! {

/// Entries of a palette.
pub const PALETTE_SIZE: usize = 256;

/// Bytes of a stored palette: three channels for each entry.
pub const PALETTE_BYTES: usize = 768;

/// A colour packed as `0x00RRGGBB`.
#[derive(Clone, Copy, Debug, PartialEq, Eq, Structural)]
pub struct Color(pub u32);

/// The packed word of the three channels.
pub open spec fn spec_rgb(r: u8, g: u8, b: u8) -> u32 {
    (r as u32 * 65536 + g as u32 * 256 + b as u32) as u32
}

/// The red channel of a packed word.
pub open spec fn spec_red(v: u32) -> u8 {
    ((v / 65536) % 256) as u8
}

/// The green channel of a packed word.
pub open spec fn spec_green(v: u32) -> u8 {
    ((v / 256) % 256) as u8
}

/// The blue channel of a packed word.
pub open spec fn spec_blue(v: u32) -> u8 {
    (v % 256) as u8
}

impl Color {
    /// Packs three channels into a colour.
    pub fn from_rgb(r: u8, g: u8, b: u8) -> (c: Color)
        ensures
            c.0 == spec_rgb(r, g, b),
            spec_red(c.0) == r,
            spec_green(c.0) == g,
            spec_blue(c.0) == b,
    {
        let r32: u32 = r as u32;
        let g32: u32 = g as u32;
        let b32: u32 = b as u32;
        let v: u32 = (r32 << 16) | (g32 << 8) | b32;
        assert(((r32 << 16) | (g32 << 8) | b32) == r32 * 65536 + g32 * 256 + b32) by (bit_vector)
            requires
                r32 < 256,
                g32 < 256,
                b32 < 256,
        ;
        Color(v)
    }

    /// The three channels of a colour. Bits above the red channel are
    /// ignored.
    pub fn to_rgb(self) -> (rgb: (u8, u8, u8))
        ensures
            rgb == (spec_red(self.0), spec_green(self.0), spec_blue(self.0)),
    {
        let v: u32 = self.0;
        let r32: u32 = (v >> 16) & 0xff;
        let g32: u32 = (v >> 8) & 0xff;
        let b32: u32 = v & 0xff;
        assert(((v >> 16) & 0xff) == (v / 65536) % 256) by (bit_vector);
        assert(((v >> 8) & 0xff) == (v / 256) % 256) by (bit_vector);
        assert((v & 0xff) == v % 256) by (bit_vector);
        (r32 as u8, g32 as u8, b32 as u8)
    }
}

/// Unpacking what was packed gives the three channels back.
pub proof fn lemma_rgb_round_trip(r: u8, g: u8, b: u8)
    ensures
        spec_red(spec_rgb(r, g, b)) == r,
        spec_green(spec_rgb(r, g, b)) == g,
        spec_blue(spec_rgb(r, g, b)) == b,
{
}

/// A stored channel widened from six bits to eight: shifted left by two,
/// bits above the eighth dropped.
pub open spec fn expand_channel(raw: u8) -> u8 {
    ((raw as int * 4) % 256) as u8
}

/// A channel that fits six bits widens to four times its value: `0x3f`, the
/// largest, to `0xfc`.
pub proof fn lemma_expand_six_bits(raw: u8)
    requires
        raw <= 0x3f,
    ensures
        expand_channel(raw) == 4 * raw,
        expand_channel(raw) <= 0xfc,
{
}

/// A table of colours.
#[derive(Clone, Debug)]
pub struct Palette {
    pub colors: Vec<Color>,
}

impl Palette {
    /// A palette is well formed when it has exactly 256 entries.
    pub open spec fn wf(&self) -> bool {
        self.colors@.len() == PALETTE_SIZE
    }

    /// A palette of 256 black entries.
    pub fn new() -> (p: Palette)
        ensures
            p.wf(),
            forall|i: int| 0 <= i < PALETTE_SIZE ==> p.colors@[i] == Color(0),
    {
        let mut colors: Vec<Color> = Vec::new();
        let mut i: usize = 0;
        while i < PALETTE_SIZE
            invariant
                i <= PALETTE_SIZE,
                colors@.len() == i,
                forall|k: int| 0 <= k < i ==> colors@[k] == Color(0),
            decreases PALETTE_SIZE - i,
        {
            colors.push(Color(0));
            i += 1;
        }
        Palette { colors }
    }

    /// A palette of the given colours.
    pub fn with_colors(colors: Vec<Color>) -> (p: Palette)
        ensures
            p.colors == colors,
    {
        Palette { colors }
    }

    /// Entry `i` of the palette that `bytes` store: red, green and blue at
    /// `3 i`, `3 i + 1` and `3 i + 2`, each widened from six bits.
    pub open spec fn spec_entry(bytes: Seq<u8>, i: int) -> Color {
        Color(
            spec_rgb(
                expand_channel(bytes[3 * i]),
                expand_channel(bytes[3 * i + 1]),
                expand_channel(bytes[3 * i + 2]),
            ),
        )
    }

    /// Reads a stored palette. The result is an error, `Error::Data`, exactly
    /// when `bytes` are fewer than 768.
    pub fn from_raw(bytes: &[u8]) -> (r: Result<Palette, Error>)
        ensures
            match r {
                Ok(p) => bytes@.len() >= PALETTE_BYTES && p.wf() && forall|i: int|
                    0 <= i < PALETTE_SIZE ==> #[trigger] p.colors@[i] == Palette::spec_entry(
                        bytes@,
                        i,
                    ),
                Err(e) => e == Error::Data && bytes@.len() < PALETTE_BYTES,
            },
    {
        if bytes.len() < PALETTE_BYTES {
            return Err(Error::Data);
        }
        let mut colors: Vec<Color> = Vec::new();
        let mut i: usize = 0;
        while i < PALETTE_SIZE
            invariant
                i <= PALETTE_SIZE,
                bytes@.len() >= PALETTE_BYTES,
                colors@.len() == i,
                forall|k: int| 0 <= k < i ==> #[trigger] colors@[k] == Palette::spec_entry(bytes@, k),
            decreases PALETTE_SIZE - i,
        {
            let r: u8 = expand(bytes[i * 3]);
            let g: u8 = expand(bytes[i * 3 + 1]);
            let b: u8 = expand(bytes[i * 3 + 2]);
            colors.push(Color::from_rgb(r, g, b));
            i += 1;
        }
        Ok(Palette { colors })
    }
}

/// Widens a stored channel (see [`expand_channel`]).
pub fn expand(raw: u8) -> (r: u8)
    ensures
        r == expand_channel(raw),
{
    let r: u8 = raw << 2;
    assert(raw << 2 == ((raw as int * 4) % 256) as u8) by (bit_vector);
    r
}

/// A canvas of palette indices with the packed colours they stand for.
pub struct Canvas {
    width: usize,
    height: usize,
    palette: Palette,
    pixels: Vec<u8>,
    buffer: Vec<u32>,
}

impl Canvas {
    /// A canvas is well formed when it holds `width * height` pixels, as
    /// many packed colours, and a well-formed palette. Every canvas that
    /// [`Canvas::new`] made is, and stays so.
    pub closed spec fn wf(&self) -> bool {
        &&& self.pixels@.len() == self.width * self.height
        &&& self.buffer@.len() == self.width * self.height
        &&& self.palette.wf()
    }

    /// Width in pixels.
    pub closed spec fn spec_width(&self) -> nat {
        self.width as nat
    }

    /// Height in pixels.
    pub closed spec fn spec_height(&self) -> nat {
        self.height as nat
    }

    /// The palette indices, row after row.
    pub closed spec fn spec_pixels(&self) -> Seq<u8> {
        self.pixels@
    }

    /// The packed colours, row after row, as of the last refresh.
    pub closed spec fn spec_buffer(&self) -> Seq<u32> {
        self.buffer@
    }

    /// The colours of the palette.
    pub closed spec fn spec_colors(&self) -> Seq<Color> {
        self.palette.colors@
    }

    /// A canvas of the given size, all pixels index zero, all colours black.
    pub fn new(width: usize, height: usize) -> (c: Canvas)
        requires
            width * height <= usize::MAX,
        ensures
            c.wf(),
            c.spec_width() == width,
            c.spec_height() == height,
            c.spec_pixels() == Seq::new((width * height) as nat, |i: int| 0u8),
            c.spec_buffer() == Seq::new((width * height) as nat, |i: int| 0u32),
            c.spec_colors() == Seq::new(PALETTE_SIZE as nat, |i: int| Color(0)),
    {
        let palette = Palette::new();
        let pixels: Vec<u8> = vec![0u8; width * height];
        let buffer: Vec<u32> = vec![0u32; width * height];
        assert(pixels@ =~= Seq::new((width * height) as nat, |i: int| 0u8));
        assert(buffer@ =~= Seq::new((width * height) as nat, |i: int| 0u32));
        assert(palette.colors@ =~= Seq::new(PALETTE_SIZE as nat, |i: int| Color(0)));
        Canvas { width, height, palette, pixels, buffer }
    }

    /// Replaces the palette by a copy of `palette`.
    pub fn set_palette(&mut self, palette: &Palette)
        requires
            old(self).wf(),
            palette.wf(),
        ensures
            final(self).wf(),
            final(self).spec_colors() == palette.colors@,
            final(self).spec_width() == old(self).spec_width(),
            final(self).spec_height() == old(self).spec_height(),
            final(self).spec_pixels() == old(self).spec_pixels(),
            final(self).spec_buffer() == old(self).spec_buffer(),
    {
        let mut colors: Vec<Color> = Vec::new();
        let mut i: usize = 0;
        while i < PALETTE_SIZE
            invariant
                i <= PALETTE_SIZE,
                palette.wf(),
                colors@ == palette.colors@.subrange(0, i as int),
            decreases PALETTE_SIZE - i,
        {
            colors.push(palette.colors[i]);
            i += 1;
            assert(colors@ =~= palette.colors@.subrange(0, i as int));
        }
        assert(colors@ =~= palette.colors@);
        self.palette = Palette { colors };
    }

    /// Hands the pixels to `f`, which may change them in place.
    pub fn set_pixels<F: FnOnce(&mut [u8])>(&mut self, f: F)
        requires
            old(self).wf(),
            forall|p: &mut [u8]| p@ == old(self).spec_pixels() ==> call_requires(f, (p,)),
            forall|p: &mut [u8]|
                p@ == old(self).spec_pixels() && call_ensures(f, (p,), ()) ==> final(p)@.len()
                    == p@.len(),
        ensures
            final(self).wf(),
            exists|p: &mut [u8]|
                p@ == old(self).spec_pixels() && final(p)@ == final(self).spec_pixels()
                    && call_ensures(f, (p,), ()),
            final(self).spec_width() == old(self).spec_width(),
            final(self).spec_height() == old(self).spec_height(),
            final(self).spec_colors() == old(self).spec_colors(),
            final(self).spec_buffer() == old(self).spec_buffer(),
    {
        f(self.pixels.as_mut_slice());
    }

    /// The palette indices, row after row.
    pub fn get_pixels(&self) -> (r: &[u8])
        requires
            self.wf(),
        ensures
            r@ == self.spec_pixels(),
            r@.len() == self.spec_width() * self.spec_height(),
    {
        self.pixels.as_slice()
    }

    /// The packed colours, as of the last refresh.
    pub fn get_buffer(&self) -> (r: &[u32])
        requires
            self.wf(),
        ensures
            r@ == self.spec_buffer(),
            r@.len() == self.spec_width() * self.spec_height(),
    {
        self.buffer.as_slice()
    }

    /// Looks every pixel up in the palette and returns the packed colours.
    pub fn refresh_buffer(&mut self) -> (r: &[u32])
        requires
            old(self).wf(),
        ensures
            final(self).wf(),
            r@ == final(self).spec_buffer(),
            r@.len() == old(self).spec_pixels().len(),
            forall|i: int|
                0 <= i < r@.len() ==> #[trigger] r@[i] == old(self).spec_colors()[old(
                    self,
                ).spec_pixels()[i] as int].0,
            final(self).spec_width() == old(self).spec_width(),
            final(self).spec_height() == old(self).spec_height(),
            final(self).spec_colors() == old(self).spec_colors(),
            final(self).spec_pixels() == old(self).spec_pixels(),
    {
        let n: usize = self.pixels.len();
        let mut buffer: Vec<u32> = Vec::new();
        let mut i: usize = 0;
        while i < n
            invariant
                i <= n,
                n == self.pixels@.len(),
                self.palette.wf(),
                buffer@.len() == i,
                forall|k: int|
                    0 <= k < i ==> #[trigger] buffer@[k] == self.palette.colors@[self.pixels@[k] as int].0,
            decreases n - i,
        {
            buffer.push(self.palette.colors[self.pixels[i] as usize].0);
            i += 1;
        }
        self.buffer = buffer;
        self.buffer.as_slice()
    }
}

} // verus!
