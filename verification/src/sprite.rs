//! Sprites: run-length encoded frames with a transparent cell, and the blit
//! that draws a decoded frame into an indexed pixel buffer.

use vstd::prelude::*;
use vstd::arithmetic::div_mod::lemma_fundamental_div_mod_converse;
use crate::bytes::{le16, read_u16};
use crate::error::Error;

verus! {

/// The cell value that marks a transparent pixel. Every other cell of a
/// decoded frame is a palette index below it.
pub const TRANSPARENT: u16 = 0x100;

/// One decoded frame: `width * height` cells in row-major order.
#[derive(Debug)]
pub struct SpriteFrame {
    pub width: u32,
    pub height: u32,
    pub data: Vec<u16>,
}

impl View for SpriteFrame {
    type V = Seq<u16>;

    /// The cells of the frame, row after row.
    open spec fn view(&self) -> Seq<u16> {
        self.data@
    }
}

impl SpriteFrame {
    /// A frame is well formed when it holds at least `width * height` cells.
    /// `width` and `height` are public: lowering `height` crops the frame
    /// from below and keeps it well formed.
    pub open spec fn wf(&self) -> bool {
        self@.len() >= self.width * self.height
    }

    /// Whether the frame is well formed.
    pub fn is_well_formed(&self) -> (r: bool)
        ensures
            r == self.wf(),
    {
        assert(self.width * self.height <= 0xffff_ffff * 0xffff_ffff) by (nonlinear_arith)
            requires
                self.width <= 0xffff_ffff,
                self.height <= 0xffff_ffff,
        ;
        self.data.len() as u64 >= self.width as u64 * self.height as u64
    }
}

/// The number of frames a sprite chunk announces: the little-endian `u16` it
/// starts with, zero for a chunk too short to hold one.
pub open spec fn spec_sprite_count(sprite_data: Seq<u8>) -> nat {
    if sprite_data.len() < 2 {
        0
    } else {
        le16(sprite_data, 0) as nat
    }
}

/// The number of frames a sprite chunk announces.
pub fn sprite_get_count(sprite_data: &[u8]) -> (r: u32)
    ensures
        r == spec_sprite_count(sprite_data@),
{
    if sprite_data.len() < 2 {
        return 0;
    }
    read_u16(sprite_data, 0) as u32
}

/// Where the offset of frame `frame_index` is stored in a sprite chunk.
pub open spec fn frame_entry(frame_index: nat) -> nat {
    4 + 2 * frame_index
}

/// The byte offset of frame `frame_index`: the stored little-endian `u16`,
/// doubled.
pub open spec fn frame_offset(sprite_data: Seq<u8>, frame_index: nat) -> nat {
    2 * (le16(sprite_data, frame_entry(frame_index) as int) as nat)
}

/// Whether a frame starts with the four bytes `02 00 00 00`, which are then
/// skipped.
pub open spec fn has_magic(src: Seq<u8>) -> bool {
    src.len() >= 4 && src[0] == 2 && src[1] == 0 && src[2] == 0 && src[3] == 0
}

/// Where width and height stand in a frame.
pub open spec fn frame_dims_at(src: Seq<u8>) -> nat {
    if has_magic(src) {
        4
    } else {
        0
    }
}

/// Whether `src` is long enough to hold the width and height of a frame.
pub open spec fn has_frame_header(src: Seq<u8>) -> bool {
    frame_dims_at(src) + 4 <= src.len()
}

/// The width a frame announces.
pub open spec fn frame_width(src: Seq<u8>) -> nat {
    le16(src, frame_dims_at(src) as int) as nat
}

/// The height a frame announces.
pub open spec fn frame_height(src: Seq<u8>) -> nat {
    le16(src, frame_dims_at(src) + 2 as int) as nat
}

/// The run-length stream of a frame: what follows width and height.
pub open spec fn frame_stream(src: Seq<u8>) -> Seq<u8> {
    src.subrange(frame_dims_at(src) + 4 as int, src.len() as int)
}

/// The cells a run-length stream expands to. A count byte below `0x80`
/// announces that many literal cells, one byte each (as many as the stream
/// still holds, if it ends early); a count byte from `0x80` announces
/// `count - 0x80` transparent cells.
pub open spec fn rle_expand(s: Seq<u8>) -> Seq<u16>
    decreases s.len(),
{
    if s.len() == 0 {
        Seq::empty()
    } else if s[0] < 0x80 {
        let n: int = if 1 + s[0] <= s.len() {
            s[0] as int
        } else {
            s.len() - 1
        };
        Seq::new(n as nat, |i: int| s[1 + i] as u16) + rle_expand(
            s.subrange(1 + n, s.len() as int),
        )
    } else {
        Seq::new((s[0] - 0x80) as nat, |i: int| TRANSPARENT) + rle_expand(
            s.subrange(1, s.len() as int),
        )
    }
}

/// `cells` cut or padded with palette index zero to exactly `n` cells.
pub open spec fn fit(cells: Seq<u16>, n: nat) -> Seq<u16> {
    Seq::new(
        n,
        |i: int|
            if i < cells.len() {
                cells[i]
            } else {
                0u16
            },
    )
}

/// Whether `frame` is what the frame bytes `src` decode to: the announced
/// width and height, and the expanded stream cut or padded to
/// `width * height` cells.
pub open spec fn decodes_to(src: Seq<u8>, frame: SpriteFrame) -> bool {
    &&& has_frame_header(src)
    &&& frame.width == frame_width(src)
    &&& frame.height == frame_height(src)
    &&& frame@ == fit(rle_expand(frame_stream(src)), frame_width(src) * frame_height(src))
}

/// Cells beyond the first `n` do not change what `fit` returns.
pub proof fn lemma_fit_prefix(a: Seq<u16>, b: Seq<u16>, n: nat)
    requires
        a.len() >= n,
    ensures
        fit(a + b, n) == fit(a, n),
{
    assert(fit(a + b, n) =~= fit(a, n));
}

/// Decodes one frame. The result is an error, `Error::Format`, exactly when
/// `src_rle` ends before width and height.
pub fn decode_rle_sprite_frame(src_rle: &[u8]) -> (r: Result<SpriteFrame, Error>)
    ensures
        match r {
            Ok(frame) => decodes_to(src_rle@, frame) && frame.wf(),
            Err(e) => e == Error::Format && !has_frame_header(src_rle@),
        },
{
    let magic: bool = src_rle.len() >= 4 && src_rle[0] == 0x02 && src_rle[1] == 0x00
        && src_rle[2] == 0x00 && src_rle[3] == 0x00;
    let at: usize = if magic {
        4
    } else {
        0
    };
    if src_rle.len() < 4 || src_rle.len() - 4 < at {
        return Err(Error::Format);
    }
    let width: u32 = read_u16(src_rle, at) as u32;
    let height: u32 = read_u16(src_rle, at + 2) as u32;
    assert(width * height <= 65535 * 65535) by (nonlinear_arith)
        requires
            width <= 65535,
            height <= 65535,
    ;
    let total: usize = (width * height) as usize;
    let stream: &[u8] = &src_rle[at + 4..src_rle.len()];
    let ghost whole: Seq<u16> = fit(rle_expand(stream@), total as nat);
    let mut data: Vec<u16> = Vec::new();
    let mut ptr: usize = 0;
    assert(stream@.subrange(0, stream@.len() as int) =~= stream@);
    assert(data@ + rle_expand(stream@) =~= rle_expand(stream@));
    while ptr < stream.len() && data.len() < total
        invariant
            ptr <= stream.len(),
            data@.len() <= total,
            fit(data@ + rle_expand(stream@.subrange(ptr as int, stream@.len() as int)), total as nat)
                == whole,
        decreases stream.len() - ptr,
    {
        let ghost rest: Seq<u8> = stream@.subrange(ptr as int, stream@.len() as int);
        let ghost before: Seq<u16> = data@;
        let count: u8 = stream[ptr];
        ptr += 1;
        if count < 0x80 {
            let n: usize = if count as usize <= stream.len() - ptr {
                count as usize
            } else {
                stream.len() - ptr
            };
            let ghost run: Seq<u16> = Seq::new(n as nat, |i: int| rest[1 + i] as u16);
            let ghost tail: Seq<u16> = rle_expand(rest.subrange(1 + n, rest.len() as int));
            assert(rest.subrange(1 + n, rest.len() as int) =~= stream@.subrange(
                ptr + n,
                stream@.len() as int,
            ));
            assert(rle_expand(rest) =~= run + tail);
            let mut k: usize = 0;
            while k < n && data.len() < total
                invariant
                    k <= n,
                    1 <= ptr,
                    ptr + n <= stream.len(),
                    data@.len() <= total,
                    rest == stream@.subrange(ptr - 1, stream@.len() as int),
                    run == Seq::new(n as nat, |i: int| rest[1 + i] as u16),
                    data@ == before + run.subrange(0, k as int),
                decreases n - k,
            {
                data.push(stream[ptr + k] as u16);
                k += 1;
                assert(data@ =~= before + run.subrange(0, k as int));
            }
            proof {
                if k < n {
                    lemma_fit_prefix(data@, tail, total as nat);
                    assert(before + run + tail =~= data@ + (run.subrange(k as int, n as int)
                        + tail));
                    lemma_fit_prefix(data@, run.subrange(k as int, n as int) + tail, total as nat);
                } else {
                    assert(run.subrange(0, k as int) =~= run);
                }
                assert(before + (run + tail) =~= before + run + tail);
            }
            ptr += n;
        } else {
            let n: usize = (count - 0x80) as usize;
            let ghost run: Seq<u16> = Seq::new(n as nat, |i: int| TRANSPARENT);
            let ghost tail: Seq<u16> = rle_expand(rest.subrange(1, rest.len() as int));
            assert(rest.subrange(1, rest.len() as int) =~= stream@.subrange(
                ptr as int,
                stream@.len() as int,
            ));
            assert(rle_expand(rest) =~= run + tail);
            let mut k: usize = 0;
            while k < n && data.len() < total
                invariant
                    k <= n,
                    data@.len() <= total,
                    run == Seq::new(n as nat, |i: int| TRANSPARENT),
                    data@ == before + run.subrange(0, k as int),
                decreases n - k,
            {
                data.push(TRANSPARENT);
                k += 1;
                assert(data@ =~= before + run.subrange(0, k as int));
            }
            proof {
                if k < n {
                    lemma_fit_prefix(data@, tail, total as nat);
                    assert(before + run + tail =~= data@ + (run.subrange(k as int, n as int)
                        + tail));
                    lemma_fit_prefix(data@, run.subrange(k as int, n as int) + tail, total as nat);
                } else {
                    assert(run.subrange(0, k as int) =~= run);
                }
                assert(before + (run + tail) =~= before + run + tail);
            }
        }
    }
    proof {
        let tail: Seq<u16> = rle_expand(stream@.subrange(ptr as int, stream@.len() as int));
        if data@.len() == total {
            lemma_fit_prefix(data@, tail, total as nat);
        } else {
            assert(stream@.subrange(ptr as int, stream@.len() as int).len() == 0);
            assert(data@ + tail =~= data@);
        }
        assert(whole == fit(data@, total as nat));
    }
    let ghost decoded: Seq<u16> = data@;
    data.resize(total, 0u16);
    assert(data@ =~= fit(decoded, total as nat));
    let frame = SpriteFrame { width, height, data };
    assert(stream@ == frame_stream(src_rle@));
    Ok(frame)
}

/// The frame `frame_index` of a sprite chunk, or why there is none.
///
/// `Error::Index`: the chunk announces no such frame, or the frame's offset
/// lies at or beyond the end of the chunk. `Error::Data`: the chunk ends
/// before the stored offset. `Error::Format`: the frame ends before its
/// width and height.
pub open spec fn frame_failure(sprite_data: Seq<u8>, frame_index: nat) -> Option<Error> {
    if frame_index >= spec_sprite_count(sprite_data) {
        Some(Error::Index)
    } else if frame_entry(frame_index) + 2 > sprite_data.len() {
        Some(Error::Data)
    } else if frame_offset(sprite_data, frame_index) >= sprite_data.len() {
        Some(Error::Index)
    } else if !has_frame_header(frame_bytes(sprite_data, frame_index)) {
        Some(Error::Format)
    } else {
        None
    }
}

/// The bytes of frame `frame_index`: from its offset to the end of the chunk.
pub open spec fn frame_bytes(sprite_data: Seq<u8>, frame_index: nat) -> Seq<u8> {
    sprite_data.subrange(frame_offset(sprite_data, frame_index) as int, sprite_data.len() as int)
}

/// Decodes frame `frame_index` of a sprite chunk.
pub fn sprite_get_frame(sprite_data: &[u8], frame_index: u32) -> (r: Result<SpriteFrame, Error>)
    ensures
        match r {
            Ok(frame) => frame_failure(sprite_data@, frame_index as nat) is None && decodes_to(
                frame_bytes(sprite_data@, frame_index as nat),
                frame,
            ) && frame.wf(),
            Err(e) => frame_failure(sprite_data@, frame_index as nat) == Some(e),
        },
{
    let image_count: u32 = sprite_get_count(sprite_data);
    if frame_index >= image_count {
        return Err(Error::Index);
    }
    let entry: usize = 4 + 2 * (frame_index as usize);
    if sprite_data.len() < 2 || entry > sprite_data.len() - 2 {
        return Err(Error::Data);
    }
    let offset: usize = 2 * (read_u16(sprite_data, entry) as usize);
    if offset >= sprite_data.len() {
        return Err(Error::Index);
    }
    decode_rle_sprite_frame(&sprite_data[offset..sprite_data.len()])
}

/// How many frames of a sprite chunk, counted from the first, decode.
pub open spec fn leading_frames(sprite_data: Seq<u8>, upto: nat) -> nat
    decreases upto,
{
    if upto == 0 {
        0
    } else {
        let before: nat = leading_frames(sprite_data, (upto - 1) as nat);
        if before == upto - 1 && frame_failure(sprite_data, (upto - 1) as nat) is None {
            upto
        } else {
            before
        }
    }
}

/// Whether `frames` are the frames of a sprite chunk: those that decode, in
/// order, up to the first one that does not.
pub open spec fn frames_of(sprite_data: Seq<u8>, frames: Seq<SpriteFrame>) -> bool {
    &&& frames.len() == leading_frames(sprite_data, spec_sprite_count(sprite_data))
    &&& forall|j: int|
        0 <= j < frames.len() ==> decodes_to(
            frame_bytes(sprite_data, j as nat),
            #[trigger] frames[j],
        ) && frames[j].wf()
}

/// Decodes the frames of a sprite chunk in order, up to the first one that
/// fails. The result is always `Ok`.
pub fn sprite_get_frames(sprite_data: &[u8]) -> (r: Result<Vec<SpriteFrame>, Error>)
    ensures
        r is Ok,
        frames_of(sprite_data@, r->Ok_0@),
{
    let mut sprites: Vec<SpriteFrame> = Vec::new();
    let count: u32 = sprite_get_count(sprite_data);
    let mut j: u32 = 0;
    while j < count
        invariant
            j <= count,
            count == spec_sprite_count(sprite_data@),
            sprites@.len() == j,
            leading_frames(sprite_data@, j as nat) == j,
            forall|k: int|
                0 <= k < sprites@.len() ==> decodes_to(
                    frame_bytes(sprite_data@, k as nat),
                    #[trigger] sprites@[k],
                ) && sprites@[k].wf(),
        decreases count - j,
    {
        match sprite_get_frame(sprite_data, j) {
            Ok(frame) => {
                sprites.push(frame);
            },
            Err(_) => {
                proof {
                    lemma_leading_frames_stop(sprite_data@, j as nat, count as nat);
                }
                return Ok(sprites);
            },
        }
        j += 1;
    }
    Ok(sprites)
}

/// Once a frame fails, no later frame is counted.
pub proof fn lemma_leading_frames_stop(sprite_data: Seq<u8>, failed: nat, upto: nat)
    requires
        failed < upto,
        leading_frames(sprite_data, failed) == failed,
        frame_failure(sprite_data, failed) is Some,
    ensures
        leading_frames(sprite_data, upto) == failed,
    decreases upto,
{
    if upto > failed + 1 {
        lemma_leading_frames_stop(sprite_data, failed, (upto - 1) as nat);
    }
}

/// Whether a rectangle `width` wide and `height` high with its top left
/// corner at `(x, y)` lies over the pixel `(px, py)`.
pub open spec fn covers_rect(width: int, height: int, x: int, y: int, px: int, py: int) -> bool {
    x <= px < x + width && y <= py < y + height
}

/// The cell that lies over the pixel `(px, py)`, of cells laid out in rows
/// of `width` with the first cell at `(x, y)`.
pub open spec fn cell_at(cells: Seq<u16>, width: int, x: int, y: int, px: int, py: int) -> u16 {
    cells[(py - y) * width + (px - x)]
}

/// Whether drawing the cells at `(x, y)` writes the pixel at index `i` of a
/// destination `dest_width` wide and `dest_height` high: the pixel lies in
/// the destination rectangle, under a cell, and that cell is not
/// transparent.
pub open spec fn writes_cells(
    cells: Seq<u16>,
    width: int,
    height: int,
    dest_width: int,
    dest_height: int,
    x: int,
    y: int,
    i: int,
) -> bool {
    &&& dest_width > 0
    &&& 0 <= i < dest_width * dest_height
    &&& covers_rect(width, height, x, y, i % dest_width, i / dest_width)
    &&& cell_at(cells, width, x, y, i % dest_width, i / dest_width) < TRANSPARENT
}

/// The destination after the cells were drawn at `(x, y)`: the pixels that
/// [`writes_cells`] names take the value of the cell over them, all others
/// keep theirs.
pub open spec fn blit_cells(
    cells: Seq<u16>,
    width: int,
    height: int,
    dest: Seq<u8>,
    dest_width: int,
    dest_height: int,
    x: int,
    y: int,
) -> Seq<u8> {
    Seq::new(
        dest.len(),
        |i: int|
            if writes_cells(cells, width, height, dest_width, dest_height, x, y, i) {
                cell_at(cells, width, x, y, i % dest_width, i / dest_width) as u8
            } else {
                dest[i]
            },
    )
}

/// Whether the frame drawn at `(x, y)` has a cell over the pixel `(px, py)`.
pub open spec fn covers(frame: SpriteFrame, x: int, y: int, px: int, py: int) -> bool {
    covers_rect(frame.width as int, frame.height as int, x, y, px, py)
}

/// The cell of the frame drawn at `(x, y)` that lies over the pixel
/// `(px, py)`.
pub open spec fn cell_over(frame: SpriteFrame, x: int, y: int, px: int, py: int) -> u16 {
    cell_at(frame@, frame.width as int, x, y, px, py)
}

/// Whether drawing the frame at `(x, y)` writes the pixel at index `i` (see
/// [`writes_cells`]).
pub open spec fn writes(
    frame: SpriteFrame,
    dest_width: nat,
    dest_height: nat,
    x: int,
    y: int,
    i: int,
) -> bool {
    writes_cells(
        frame@,
        frame.width as int,
        frame.height as int,
        dest_width as int,
        dest_height as int,
        x,
        y,
        i,
    )
}

/// The destination after the frame was drawn at `(x, y)` (see
/// [`blit_cells`]).
pub open spec fn blit(
    frame: SpriteFrame,
    dest: Seq<u8>,
    dest_width: nat,
    dest_height: nat,
    x: int,
    y: int,
) -> Seq<u8> {
    blit_cells(
        frame@,
        frame.width as int,
        frame.height as int,
        dest,
        dest_width as int,
        dest_height as int,
        x,
        y,
    )
}

/// Whether the frame drawn at `(x, y)` meets the destination rectangle.
pub open spec fn intersects(
    frame: SpriteFrame,
    dest_width: nat,
    dest_height: nat,
    x: int,
    y: int,
) -> bool {
    dest_width > 0 && dest_height > 0 && x + frame.width > 0 && x < dest_width && y + frame.height
        > 0 && y < dest_height
}

/// The pixel in row `row` and column `col` has index `row * width + col`.
pub proof fn lemma_pixel_index(row: int, col: int, width: int, height: int)
    requires
        0 <= col < width,
        0 <= row < height,
    ensures
        0 <= row * width,
        0 <= row * width + col < width * height,
        (row * width + col) / width == row,
        (row * width + col) % width == col,
{
    assert(0 <= row * width) by (nonlinear_arith)
        requires
            0 <= row,
            0 < width,
    ;
    lemma_fundamental_div_mod_converse(row * width + col, width, row, col);
    assert(row * width + col < width * height) by (nonlinear_arith)
        requires
            0 <= col < width,
            0 <= row < height,
    ;
}

/// The pixel with index `i` lies in row `i / width` and column `i % width`.
pub proof fn lemma_index_pixel(i: int, width: int, height: int)
    requires
        0 < width,
        0 <= i < width * height,
    ensures
        0 <= i % width < width,
        0 <= i / width < height,
        i == (i / width) * width + i % width,
{
    vstd::arithmetic::div_mod::lemma_fundamental_div_mod(i, width);
    assert(0 <= i / width) by (nonlinear_arith)
        requires
            0 < width,
            0 <= i,
    ;
    if i / width >= height {
        assert((i / width) * width >= height * width) by (nonlinear_arith)
            requires
                i / width >= height,
                0 < width,
        ;
        assert(width * (i / width) == (i / width) * width) by (nonlinear_arith);
        assert(height * width == width * height) by (nonlinear_arith);
    }
    assert(width * (i / width) == (i / width) * width) by (nonlinear_arith);
}

/// Draws `frame` into `pixels`, a buffer `dest_width` wide and `dest_height`
/// high, with the frame's top left cell at `(x, y)`. Cells outside the
/// buffer are clipped, transparent cells leave the pixel under them alone.
/// A frame that does not meet the buffer is not looked at, nor is the
/// buffer: only one that does has to be well formed and to find a buffer
/// that holds all its pixels.
pub fn draw_sprite_frame(
    frame: &SpriteFrame,
    pixels: &mut [u8],
    dest_width: usize,
    dest_height: usize,
    x: isize,
    y: isize,
)
    requires
        intersects(*frame, dest_width as nat, dest_height as nat, x as int, y as int) ==> frame.wf()
            && dest_width * dest_height <= old(pixels)@.len(),
    ensures
        final(pixels)@ == blit(
            *frame,
            old(pixels)@,
            dest_width as nat,
            dest_height as nat,
            x as int,
            y as int,
        ),
        !intersects(*frame, dest_width as nat, dest_height as nat, x as int, y as int)
            ==> final(pixels)@ == old(pixels)@,
{
    let ghost before: Seq<u8> = pixels@;
    let ghost after: Seq<u8> = blit(
        *frame,
        before,
        dest_width as nat,
        dest_height as nat,
        x as int,
        y as int,
    );
    assert(before.len() == pixels.len() && frame@.len() == frame.data.len());
    let fw: i128 = frame.width as i128;
    let fh: i128 = frame.height as i128;
    let dw: i128 = dest_width as i128;
    let dh: i128 = dest_height as i128;
    let x0: i128 = x as i128;
    let y0: i128 = y as i128;
    if dest_width == 0 || dest_height == 0 || x0 + fw <= 0 || x0 >= dw || y0 + fh <= 0 || y0
        >= dh {
        proof {
            assert forall|i: int| 0 <= i < before.len() implies !writes_cells(
                frame@,
                frame.width as int,
                frame.height as int,
                dest_width as int,
                dest_height as int,
                x as int,
                y as int,
                i,
            ) by {
                if dest_width > 0 && 0 <= i < dest_width * dest_height {
                    lemma_index_pixel(i, dest_width as int, dest_height as int);
                }
            }
            assert(after =~= before);
        }
        return ;
    }
    assert(intersects(*frame, dest_width as nat, dest_height as nat, x as int, y as int));
    let maxy: i128 = if y0 + fh < dh {
        y0 + fh
    } else {
        dh
    };
    let maxx: i128 = if x0 + fw < dw {
        x0 + fw
    } else {
        dw
    };
    let sy: i128 = if y0 > 0 {
        y0
    } else {
        0
    };
    let sx: i128 = if x0 > 0 {
        x0
    } else {
        0
    };
    let mut dy: i128 = sy;
    proof {
        assert forall|i: int| 0 <= i < before.len() && i < dy * dw implies after[i] == before[i] by {
            assert(dy * dw <= dw * dh) by (nonlinear_arith)
                requires
                    0 <= dy <= dh,
                    0 < dw,
            ;
            lemma_index_pixel(i, dw as int, dh as int);
            assert(i / (dw as int) < dy) by (nonlinear_arith)
                requires
                    i < dy * dw,
                    0 < dw,
                    i == (i / (dw as int)) * dw + i % (dw as int),
                    0 <= i % (dw as int),
            ;
        }
    }
    while dy < maxy
        invariant
            frame.wf(),
            fw == frame.width,
            fh == frame.height,
            dw == dest_width,
            dh == dest_height,
            x0 == x,
            y0 == y,
            0 < dw,
            0 < dh,
            dest_width * dest_height <= before.len() <= usize::MAX,
            frame@.len() <= usize::MAX,
            0 <= sx <= maxx <= dw,
            0 <= sy <= dy <= maxy <= dh,
            sx == (if x0 > 0 { x0 } else { 0 }),
            sy == (if y0 > 0 { y0 } else { 0 }),
            maxx == (if x0 + fw < dw { x0 + fw } else { dw as int }),
            maxy == (if y0 + fh < dh { y0 + fh } else { dh as int }),
            pixels@.len() == before.len(),
            after == blit(
                *frame,
                before,
                dest_width as nat,
                dest_height as nat,
                x as int,
                y as int,
            ),
            forall|i: int|
                0 <= i < before.len() ==> #[trigger] pixels@[i] == (if i < dy * dw {
                    after[i]
                } else {
                    before[i]
                }),
        decreases maxy - dy,
    {
        let mut dx: i128 = sx;
        proof {
            assert forall|i: int| 0 <= i < before.len() implies #[trigger] pixels@[i] == (if i
                < dy * dw + dx {
                after[i]
            } else {
                before[i]
            }) by {
                if dy * dw <= i < dy * dw + dx {
                    assert((dy + 1) * dw == dy * dw + dw) by (nonlinear_arith);
                    lemma_row_pixel(i, dy as int, dw as int, dh as int);
                }
            }
        }
        while dx < maxx
            invariant
                frame.wf(),
                fw == frame.width,
                fh == frame.height,
                dw == dest_width,
                dh == dest_height,
                x0 == x,
                y0 == y,
                0 < dw,
                0 < dh,
                dest_width * dest_height <= before.len() <= usize::MAX,
                frame@.len() <= usize::MAX,
                0 <= sx <= dx <= maxx <= dw,
                0 <= sy <= dy < maxy <= dh,
                sx == (if x0 > 0 { x0 } else { 0 }),
                sy == (if y0 > 0 { y0 } else { 0 }),
                maxx == (if x0 + fw < dw { x0 + fw } else { dw as int }),
                maxy == (if y0 + fh < dh { y0 + fh } else { dh as int }),
                pixels@.len() == before.len(),
                after == blit(
                    *frame,
                    before,
                    dest_width as nat,
                    dest_height as nat,
                    x as int,
                    y as int,
                ),
                forall|i: int|
                    0 <= i < before.len() ==> #[trigger] pixels@[i] == (if i < dy * dw + dx {
                        after[i]
                    } else {
                        before[i]
                    }),
            decreases maxx - dx,
        {
            proof {
                lemma_pixel_index(dy as int, dx as int, dw as int, dh as int);
                lemma_pixel_index((dy - y0) as int, (dx - x0) as int, fw as int, fh as int);
                assert(dw * dh == dest_width * dest_height);
                assert(fw * fh == frame.width * frame.height);
                assert(0 <= dy * dw);
                assert(dy * dw + dx < before.len());
                assert(0 <= (dy - y0) * fw);
                assert((dy - y0) * fw + (dx - x0) < frame@.len());
            }
            let src_index: usize = ((dy - y0) * fw + (dx - x0)) as usize;
            let dest_index: usize = (dy * dw + dx) as usize;
            let src_pixel: u16 = frame.data[src_index];
            if src_pixel < TRANSPARENT {
                pixels[dest_index] = src_pixel as u8;
            }
            dx += 1;
        }
        proof {
            assert forall|i: int| 0 <= i < before.len() implies #[trigger] pixels@[i] == (if i
                < (dy + 1) * dw {
                after[i]
            } else {
                before[i]
            }) by {
                assert((dy + 1) * dw == dy * dw + dw) by (nonlinear_arith);
                if dy * dw + maxx <= i < (dy + 1) * dw {
                    lemma_row_pixel(i, dy as int, dw as int, dh as int);
                }
            }
        }
        dy += 1;
    }
    proof {
        assert forall|i: int| 0 <= i < before.len() implies #[trigger] pixels@[i] == after[i] by {
            if i >= dy * dw {
                if i < dw * dh {
                    lemma_index_pixel(i, dw as int, dh as int);
                    assert(i / (dw as int) >= dy) by (nonlinear_arith)
                        requires
                            i >= dy * dw,
                            0 < dw,
                            i == (i / (dw as int)) * dw + i % (dw as int),
                            0 <= i % (dw as int) < dw,
                    ;
                }
            } else if dy == sy {
                // nothing was drawn: the frame has no visible row
            }
        }
        assert(pixels@ =~= after);
    }
}

/// An index between the start of a row and that of the next lies in the row.
pub proof fn lemma_row_pixel(i: int, row: int, width: int, height: int)
    requires
        0 < width,
        0 <= row < height,
        row * width <= i < (row + 1) * width,
    ensures
        i / width == row,
        i % width == i - row * width,
        0 <= i < width * height,
{
    assert((row + 1) * width == row * width + width) by (nonlinear_arith);
    lemma_fundamental_div_mod_converse(i, width, row, i - row * width);
    lemma_pixel_index(row, i - row * width, width, height);
}

/// Decoding has no hidden state: two frames decoded from the same bytes
/// agree in width, height and every cell.
pub proof fn lemma_decode_is_deterministic(src: Seq<u8>, a: SpriteFrame, b: SpriteFrame)
    requires
        decodes_to(src, a),
        decodes_to(src, b),
    ensures
        a.width == b.width,
        a.height == b.height,
        a@ == b@,
{
}

/// Drawing a frame that does not meet the destination rectangle leaves the
/// destination as it was.
pub proof fn lemma_blit_outside(
    frame: SpriteFrame,
    dest: Seq<u8>,
    dest_width: nat,
    dest_height: nat,
    x: int,
    y: int,
)
    requires
        !intersects(frame, dest_width, dest_height, x, y),
    ensures
        blit(frame, dest, dest_width, dest_height, x, y) == dest,
{
    assert forall|i: int| 0 <= i < dest.len() implies !writes_cells(
        frame@,
        frame.width as int,
        frame.height as int,
        dest_width as int,
        dest_height as int,
        x,
        y,
        i,
    ) by {
        if dest_width > 0 && 0 <= i < dest_width * dest_height {
            lemma_index_pixel(i, dest_width as int, dest_height as int);
        }
    }
    assert(blit(frame, dest, dest_width, dest_height, x, y) =~= dest);
}

/// Every pixel of the destination either keeps its value or takes that of
/// the cell over it, and then that cell is not transparent: no pixel ever
/// takes a value from a transparent cell.
pub proof fn lemma_blit_transparency(
    frame: SpriteFrame,
    dest: Seq<u8>,
    dest_width: nat,
    dest_height: nat,
    x: int,
    y: int,
    i: int,
)
    requires
        0 <= i < dest.len(),
    ensures
        ({
            let after: Seq<u8> = blit(frame, dest, dest_width, dest_height, x, y);
            let px: int = i % (dest_width as int);
            let py: int = i / (dest_width as int);
            ||| after[i] == dest[i]
            ||| (dest_width > 0 && covers(frame, x, y, px, py) && cell_over(frame, x, y, px, py)
                != TRANSPARENT && after[i] == cell_over(frame, x, y, px, py))
        }),
        dest_width > 0 && cell_over(
            frame,
            x,
            y,
            i % (dest_width as int),
            i / (dest_width as int),
        ) == TRANSPARENT ==> blit(frame, dest, dest_width, dest_height, x, y)[i] == dest[i],
{
}

/// Every cell that a stream expands to is a palette index or transparent.
pub proof fn lemma_expanded_cells(s: Seq<u8>, i: int)
    requires
        0 <= i < rle_expand(s).len(),
    ensures
        rle_expand(s)[i] <= TRANSPARENT,
    decreases s.len(),
{
    if s.len() > 0 {
        if s[0] < 0x80 {
            let n: int = if 1 + s[0] <= s.len() {
                s[0] as int
            } else {
                s.len() - 1
            };
            if i >= n {
                lemma_expanded_cells(s.subrange(1 + n, s.len() as int), i - n);
            }
        } else {
            let n: int = s[0] - 0x80;
            if i >= n {
                lemma_expanded_cells(s.subrange(1, s.len() as int), i - n);
            }
        }
    }
}

/// Every cell of a decoded frame is a palette index, below `0x100`, or
/// transparent, `0x100`.
pub proof fn lemma_decoded_cells(src: Seq<u8>, frame: SpriteFrame, i: int)
    requires
        decodes_to(src, frame),
        0 <= i < frame@.len(),
    ensures
        frame@[i] <= TRANSPARENT,
{
    let cells: Seq<u16> = rle_expand(frame_stream(src));
    if i < cells.len() {
        lemma_expanded_cells(frame_stream(src), i);
    }
}

} // verus!
