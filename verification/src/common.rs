//! Drawing a run-length encoded frame straight into an indexed pixel buffer,
//! cell by cell as the stream is read, without a decoded frame in between.
//!
//! The result is that of decoding the frame and drawing it: cells outside
//! the buffer are clipped, transparent cells leave the pixel under them
//! alone, and a frame that does not meet the buffer is not read at all.

use vstd::prelude::*;
use crate::bytes::read_u16;
use crate::error::Error;
use crate::sprite::{
    blit, blit_cells, decodes_to, fit, frame_dims_at, frame_entry, frame_height, frame_offset,
    frame_stream, frame_width, has_frame_header, lemma_blit_outside, lemma_index_pixel,
    lemma_pixel_index, rle_expand, spec_sprite_count, sprite_get_count, writes_cells,
    SpriteFrame, TRANSPARENT,
};

verus! {

/// The bytes of frame `frame_index` of a sprite chunk, from the frame's
/// offset to the end of the chunk, or why there are none.
///
/// `Error::Index`: the chunk announces no such frame, or the frame's offset
/// lies beyond the end of the chunk. `Error::Data`: the chunk ends before the
/// stored offset.
pub open spec fn spec_frame_slice(sprite_data: Seq<u8>, frame_index: nat) -> Result<Seq<u8>, Error> {
    if frame_index >= spec_sprite_count(sprite_data) {
        Err(Error::Index)
    } else if frame_entry(frame_index) + 2 > sprite_data.len() {
        Err(Error::Data)
    } else if frame_offset(sprite_data, frame_index) > sprite_data.len() {
        Err(Error::Index)
    } else {
        Ok(
            sprite_data.subrange(
                frame_offset(sprite_data, frame_index) as int,
                sprite_data.len() as int,
            ),
        )
    }
}

/// The bytes of frame `frame_index` of a sprite chunk (see
/// [`spec_frame_slice`]).
pub fn sprite_get_frame(sprite_data: &[u8], frame_index: u32) -> (r: Result<&[u8], Error>)
    ensures
        match r {
            Ok(frame) => spec_frame_slice(sprite_data@, frame_index as nat) == Ok::<Seq<u8>, Error>(
                frame@,
            ),
            Err(e) => spec_frame_slice(sprite_data@, frame_index as nat) == Err::<Seq<u8>, Error>(e),
        },
{
    let image_count: u32 = sprite_get_count(sprite_data);
    if frame_index >= image_count {
        return Err(Error::Index);
    }
    let entry: usize = 4 + 2 * (frame_index as usize);
    if sprite_data.len() < 2 || entry > sprite_data.len() - 2 {
        return Err(Error::Data);
    }
    let offset: usize = 2 * (read_u16(sprite_data, entry) as usize);
    if offset > sprite_data.len() {
        return Err(Error::Index);
    }
    Ok(&sprite_data[offset..sprite_data.len()])
}

/// The width a frame announces, zero for a frame that ends before it.
pub open spec fn spec_rle_width(bitmap_rle: Seq<u8>) -> nat {
    if frame_dims_at(bitmap_rle) + 2 <= bitmap_rle.len() {
        frame_width(bitmap_rle)
    } else {
        0
    }
}

/// The width a frame announces (see [`spec_rle_width`]).
pub fn rle_get_width(bitmap_rle: &[u8]) -> (r: u32)
    ensures
        r == spec_rle_width(bitmap_rle@),
{
    let magic: bool = bitmap_rle.len() >= 4 && bitmap_rle[0] == 0x02 && bitmap_rle[1] == 0x00
        && bitmap_rle[2] == 0x00 && bitmap_rle[3] == 0x00;
    let at: usize = if magic {
        4
    } else {
        0
    };
    if bitmap_rle.len() < 2 || bitmap_rle.len() - 2 < at {
        return 0;
    }
    read_u16(bitmap_rle, at) as u32
}

/// Whether a rectangle `width` wide and `height` high with its top left
/// corner at `(x, y)` meets a buffer `dest_width` wide and `dest_height`
/// high.
pub open spec fn meets(
    width: int,
    height: int,
    dest_width: int,
    dest_height: int,
    x: int,
    y: int,
) -> bool {
    dest_width > 0 && dest_height > 0 && x + width > 0 && x < dest_width && y + height > 0 && y
        < dest_height
}

/// The cells that the frame `src` holds: its expanded stream, cut or padded
/// to width times height.
pub open spec fn frame_cells(src: Seq<u8>) -> Seq<u16> {
    fit(rle_expand(frame_stream(src)), frame_width(src) * frame_height(src))
}

/// Drawing the frame `src` into `dest` with its top left corner at `(x, y)`:
/// the destination afterwards and how the drawing ended.
///
/// A frame that ends before its width and height is `Error::Format`, and
/// nothing is drawn. A frame that does not meet the buffer leaves it as it
/// is. Otherwise every cell of the frame that lies over a pixel of the
/// buffer and is not transparent gives that pixel its value, wherever the
/// edges of the buffer cut the frame.
pub open spec fn spec_decode_rle(
    src: Seq<u8>,
    dest: Seq<u8>,
    dest_width: int,
    dest_height: int,
    x: int,
    y: int,
) -> (Seq<u8>, Result<(), Error>) {
    if !has_frame_header(src) {
        (dest, Err(Error::Format))
    } else if !meets(
        frame_width(src) as int,
        frame_height(src) as int,
        dest_width,
        dest_height,
        x,
        y,
    ) {
        (dest, Ok(()))
    } else {
        (
            blit_cells(
                frame_cells(src),
                frame_width(src) as int,
                frame_height(src) as int,
                dest,
                dest_width,
                dest_height,
                x,
                y,
            ),
            Ok(()),
        )
    }
}

/// The first `n` of the cells, with all the others transparent: what has
/// been drawn of a frame when `n` of its cells have been read.
pub open spec fn shown(cells: Seq<u16>, n: int) -> Seq<u16> {
    Seq::new(
        cells.len(),
        |k: int|
            if k < n {
                cells[k]
            } else {
                TRANSPARENT
            },
    )
}

/// `dest` with the value of cell `i` of a frame `width` wide, drawn at
/// `(x, y)`, written to the pixel under it, if there is one.
pub open spec fn spec_put_cell(
    dest: Seq<u8>,
    dest_width: int,
    dest_height: int,
    x: int,
    y: int,
    width: int,
    i: int,
    value: u8,
) -> Seq<u8> {
    let px: int = x + i % width;
    let py: int = y + i / width;
    if 0 <= px < dest_width && 0 <= py < dest_height && py * dest_width + px < dest.len() {
        dest.update(py * dest_width + px, value)
    } else {
        dest
    }
}

/// Nothing shown, nothing drawn.
pub proof fn lemma_show_none(
    cells: Seq<u16>,
    width: int,
    height: int,
    dest: Seq<u8>,
    dest_width: int,
    dest_height: int,
    x: int,
    y: int,
)
    requires
        0 <= width,
        0 <= height,
        cells.len() == width * height,
    ensures
        blit_cells(shown(cells, 0), width, height, dest, dest_width, dest_height, x, y) == dest,
{
    let none: Seq<u16> = shown(cells, 0);
    assert forall|j: int| 0 <= j < dest.len() implies !writes_cells(
        none,
        width,
        height,
        dest_width,
        dest_height,
        x,
        y,
        j,
    ) by {
        let px: int = j % dest_width;
        let py: int = j / dest_width;
        if dest_width > 0 && x <= px < x + width && y <= py < y + height {
            lemma_pixel_index(py - y, px - x, width, height);
        }
    }
    assert(blit_cells(none, width, height, dest, dest_width, dest_height, x, y) =~= dest);
}

/// The rows that lie below the buffer draw nothing: the rows down to the
/// lower edge of the buffer are all that has to be shown.
pub proof fn lemma_show_rows(
    cells: Seq<u16>,
    rows: int,
    width: int,
    height: int,
    dest: Seq<u8>,
    dest_width: int,
    dest_height: int,
    x: int,
    y: int,
)
    requires
        0 <= width,
        0 <= rows <= height,
        rows == height || y + rows >= dest_height,
        cells.len() == width * height,
    ensures
        blit_cells(shown(cells, rows * width), width, height, dest, dest_width, dest_height, x, y)
            == blit_cells(cells, width, height, dest, dest_width, dest_height, x, y),
{
    let some: Seq<u16> = shown(cells, rows * width);
    assert forall|j: int| 0 <= j < dest.len() implies blit_cells(
        some,
        width,
        height,
        dest,
        dest_width,
        dest_height,
        x,
        y,
    )[j] == blit_cells(cells, width, height, dest, dest_width, dest_height, x, y)[j] by {
        if dest_width > 0 && j < dest_width * dest_height {
            lemma_index_pixel(j, dest_width, dest_height);
            let px: int = j % dest_width;
            let py: int = j / dest_width;
            if x <= px < x + width && y <= py < y + height {
                lemma_pixel_index(py - y, px - x, width, height);
                let k: int = (py - y) * width + (px - x);
                assert(k < rows * width) by (nonlinear_arith)
                    requires
                        k == (py - y) * width + (px - x),
                        0 <= px - x < width,
                        py - y < rows,
                ;
                assert(some[k] == cells[k]);
            }
        }
    }
    assert(blit_cells(some, width, height, dest, dest_width, dest_height, x, y) =~= blit_cells(
        cells,
        width,
        height,
        dest,
        dest_width,
        dest_height,
        x,
        y,
    ));
}

/// Transparent cells show nothing.
pub proof fn lemma_show_transparent(cells: Seq<u16>, a: int, b: int)
    requires
        a <= b,
        forall|k: int| a <= k < b && 0 <= k < cells.len() ==> cells[k] == TRANSPARENT,
    ensures
        shown(cells, b) == shown(cells, a),
{
    assert(shown(cells, b) =~= shown(cells, a));
}

/// Showing one cell more draws that cell, and nothing else: where it is not
/// transparent, its value is put to the pixel under it.
pub proof fn lemma_show_cell(
    cells: Seq<u16>,
    i: int,
    width: int,
    height: int,
    dest: Seq<u8>,
    dest_width: int,
    dest_height: int,
    x: int,
    y: int,
)
    requires
        0 < width,
        0 <= i < width * height,
        cells.len() == width * height,
    ensures
        blit_cells(shown(cells, i + 1), width, height, dest, dest_width, dest_height, x, y) == (
        if cells[i] < TRANSPARENT {
            spec_put_cell(
                blit_cells(shown(cells, i), width, height, dest, dest_width, dest_height, x, y),
                dest_width,
                dest_height,
                x,
                y,
                width,
                i,
                cells[i] as u8,
            )
        } else {
            blit_cells(shown(cells, i), width, height, dest, dest_width, dest_height, x, y)
        }),
{
    let less: Seq<u16> = shown(cells, i);
    let more: Seq<u16> = shown(cells, i + 1);
    let drawn: Seq<u8> = blit_cells(less, width, height, dest, dest_width, dest_height, x, y);
    let next: Seq<u8> = blit_cells(more, width, height, dest, dest_width, dest_height, x, y);
    let put: Seq<u8> = if cells[i] < TRANSPARENT {
        spec_put_cell(drawn, dest_width, dest_height, x, y, width, i, cells[i] as u8)
    } else {
        drawn
    };
    lemma_index_pixel(i, width, height);
    let col: int = i % width;
    let row: int = i / width;
    let px: int = x + col;
    let py: int = y + row;
    let inside: bool = 0 <= px < dest_width && 0 <= py < dest_height;
    let at: int = py * dest_width + px;
    if inside {
        lemma_pixel_index(py, px, dest_width, dest_height);
    }
    assert(put.len() == dest.len());
    assert forall|j: int| 0 <= j < dest.len() implies next[j] == put[j] by {
        if dest_width > 0 && j < dest_width * dest_height {
            lemma_index_pixel(j, dest_width, dest_height);
            let pxj: int = j % dest_width;
            let pyj: int = j / dest_width;
            if x <= pxj < x + width && y <= pyj < y + height {
                lemma_pixel_index(pyj - y, pxj - x, width, height);
                let k: int = (pyj - y) * width + (pxj - x);
                if k == i {
                    assert(inside && at == j);
                } else {
                    assert(more[k] == less[k]);
                    assert(!(inside && at == j));
                }
            } else {
                assert(!(inside && at == j));
            }
        } else {
            assert(!(inside && at == j));
        }
    }
    assert(next =~= put);
}

/// Puts the value of cell `i` of a frame `width` wide, drawn at `(x, y)`, to
/// the pixel under it, if there is one (see [`spec_put_cell`]).
pub fn put_cell(
    dest: &mut [u8],
    dest_width: usize,
    dest_height: usize,
    x: isize,
    y: isize,
    width: usize,
    i: usize,
    value: u8,
)
    requires
        0 < width,
        dest_width * dest_height <= old(dest)@.len(),
    ensures
        final(dest)@ == spec_put_cell(
            old(dest)@,
            dest_width as int,
            dest_height as int,
            x as int,
            y as int,
            width as int,
            i as int,
            value,
        ),
{
    let px: i128 = x as i128 + (i % width) as i128;
    let py: i128 = y as i128 + (i / width) as i128;
    assert(dest@.len() == dest.len());
    if 0 <= px && px < dest_width as i128 && 0 <= py && py < dest_height as i128 {
        proof {
            lemma_pixel_index(py as int, px as int, dest_width as int, dest_height as int);
        }
        let at: usize = (py * (dest_width as i128) + px) as usize;
        dest[at] = value;
    }
}

/// Draws the frame `src_rle` into `dest`, a buffer `dest_width` wide and
/// `dest_height` high, with the frame's top left corner at `(x, y)` (see
/// [`spec_decode_rle`]). A frame that does not meet the buffer is not read
/// and the buffer not touched; only for one that does has the buffer to
/// hold all its pixels.
pub fn decode_rle(
    src_rle: &[u8],
    dest: &mut [u8],
    dest_width: usize,
    dest_height: usize,
    x: isize,
    y: isize,
) -> (r: Result<(), Error>)
    requires
        has_frame_header(src_rle@) && meets(
            frame_width(src_rle@) as int,
            frame_height(src_rle@) as int,
            dest_width as int,
            dest_height as int,
            x as int,
            y as int,
        ) ==> dest_width * dest_height <= old(dest)@.len(),
    ensures
        (final(dest)@, r) == spec_decode_rle(
            src_rle@,
            old(dest)@,
            dest_width as int,
            dest_height as int,
            x as int,
            y as int,
        ),
        final(dest)@.len() == old(dest)@.len(),
        has_frame_header(src_rle@) && !meets(
            frame_width(src_rle@) as int,
            frame_height(src_rle@) as int,
            dest_width as int,
            dest_height as int,
            x as int,
            y as int,
        ) ==> final(dest)@ == old(dest)@ && r is Ok,
{
    let magic: bool = src_rle.len() >= 4 && src_rle[0] == 0x02 && src_rle[1] == 0x00
        && src_rle[2] == 0x00 && src_rle[3] == 0x00;
    let header_at: usize = if magic {
        4
    } else {
        0
    };
    if src_rle.len() < 4 || src_rle.len() - 4 < header_at {
        return Err(Error::Format);
    }
    let w: u32 = read_u16(src_rle, header_at) as u32;
    let h: u32 = read_u16(src_rle, header_at + 2) as u32;
    if dest_width == 0 || dest_height == 0 || x as i128 + w as i128 <= 0 || x as i128
        >= dest_width as i128 || y as i128 + h as i128 <= 0 || y as i128 >= dest_height as i128 {
        return Ok(());
    }
    assert(w * h <= 65535 * 65535) by (nonlinear_arith)
        requires
            w <= 65535,
            h <= 65535,
    ;
    let total: usize = (w * h) as usize;
    let width: usize = w as usize;
    // Rows below the lower edge of the buffer are not read.
    let rows: u32 = if y as i128 + h as i128 <= dest_height as i128 {
        h
    } else {
        (dest_height as i128 - y as i128) as u32
    };
    assert(rows * w <= h * w) by (nonlinear_arith)
        requires
            0 <= rows <= h,
            0 <= w,
    ;
    let limit: usize = (rows * w) as usize;
    let s: &[u8] = &src_rle[header_at + 4..src_rle.len()];
    assert(s@ == frame_stream(src_rle@));
    let ghost before: Seq<u8> = dest@;
    let ghost whole: Seq<u16> = fit(rle_expand(s@), total as nat);
    let ghost mut data: Seq<u16> = Seq::empty();
    let mut ptr: usize = 0;
    let mut i: usize = 0;
    proof {
        assert(s@.subrange(0, s@.len() as int) =~= s@);
        assert(data + rle_expand(s@) =~= rle_expand(s@));
        lemma_show_none(
            whole,
            w as int,
            h as int,
            before,
            dest_width as int,
            dest_height as int,
            x as int,
            y as int,
        );
    }
    while ptr < s.len() && i < limit
        invariant
            ptr <= s.len(),
            i <= limit <= total,
            total == w * h,
            width == w,
            data.len() == i,
            whole.len() == total,
            dest_width * dest_height <= before.len(),
            dest@.len() == before.len(),
            i < limit ==> fit(
                data + rle_expand(s@.subrange(ptr as int, s@.len() as int)),
                total as nat,
            ) == whole,
            dest@ == blit_cells(
                shown(whole, i as int),
                w as int,
                h as int,
                before,
                dest_width as int,
                dest_height as int,
                x as int,
                y as int,
            ),
        decreases s.len() - ptr,
    {
        let ghost rest: Seq<u8> = s@.subrange(ptr as int, s@.len() as int);
        let ghost data0: Seq<u16> = data;
        let count: u8 = s[ptr];
        ptr += 1;
        if count < 0x80 {
            let n: usize = if count as usize <= s.len() - ptr {
                count as usize
            } else {
                s.len() - ptr
            };
            let ghost run: Seq<u16> = Seq::new(n as nat, |k: int| rest[1 + k] as u16);
            let ghost tail: Seq<u16> = rle_expand(rest.subrange(1 + n, rest.len() as int));
            assert(rest.subrange(1 + n, rest.len() as int) =~= s@.subrange(
                ptr + n,
                s@.len() as int,
            ));
            assert(rle_expand(rest) =~= run + tail);
            assert(data0 + (run + tail) =~= data0 + run + tail);
            let mut k: usize = 0;
            while k < n && i < limit
                invariant
                    k <= n,
                    1 <= ptr,
                    ptr + n <= s.len(),
                    i <= limit <= total,
                    total == w * h,
                    width == w,
                    whole.len() == total,
                    data.len() == i,
                    dest_width * dest_height <= before.len(),
                    dest@.len() == before.len(),
                    rest == s@.subrange(ptr - 1, s@.len() as int),
                    run == Seq::new(n as nat, |k: int| rest[1 + k] as u16),
                    whole == fit(data0 + run + tail, total as nat),
                    data == data0 + run.subrange(0, k as int),
                    dest@ == blit_cells(
                        shown(whole, i as int),
                        w as int,
                        h as int,
                        before,
                        dest_width as int,
                        dest_height as int,
                        x as int,
                        y as int,
                    ),
                decreases n - k,
            {
                let value: u8 = s[ptr + k];
                proof {
                    assert(0 < w) by (nonlinear_arith)
                        requires
                            i < w * h,
                            0 <= w,
                            0 <= h,
                    ;
                    assert((data0 + run + tail)[i as int] == run[k as int]);
                    assert(whole[i as int] == value as u16);
                    lemma_show_cell(
                        whole,
                        i as int,
                        w as int,
                        h as int,
                        before,
                        dest_width as int,
                        dest_height as int,
                        x as int,
                        y as int,
                    );
                }
                put_cell(dest, dest_width, dest_height, x, y, width, i, value);
                i += 1;
                k += 1;
                proof {
                    data = data.push(value as u16);
                    assert(data =~= data0 + run.subrange(0, k as int));
                }
            }
            assert(k == n ==> run.subrange(0, k as int) =~= run);
            ptr += n;
        } else {
            let n: usize = (count - 0x80) as usize;
            let k: usize = if n <= limit - i {
                n
            } else {
                limit - i
            };
            let ghost run: Seq<u16> = Seq::new(n as nat, |k: int| TRANSPARENT);
            let ghost tail: Seq<u16> = rle_expand(rest.subrange(1, rest.len() as int));
            assert(rest.subrange(1, rest.len() as int) =~= s@.subrange(ptr as int, s@.len() as int));
            assert(rle_expand(rest) =~= run + tail);
            assert(data0 + (run + tail) =~= data0 + run + tail);
            proof {
                assert forall|c: int| i <= c < i + k implies whole[c] == TRANSPARENT by {
                    assert((data0 + run + tail)[c] == run[c - i]);
                }
                lemma_show_transparent(whole, i as int, i + k);
                data = data0 + run.subrange(0, k as int);
                assert(k == n ==> run.subrange(0, k as int) =~= run);
            }
            i += k;
        }
    }
    proof {
        if i < limit {
            assert(rle_expand(s@.subrange(ptr as int, s@.len() as int)) =~= Seq::<u16>::empty());
            assert(data + Seq::<u16>::empty() =~= data);
        }
    }
    // Where the stream ends early, the cells it lacks are palette index zero.
    while i < limit
        invariant
            i <= limit <= total,
            total == w * h,
            width == w,
            whole.len() == total,
            dest_width * dest_height <= before.len(),
            dest@.len() == before.len(),
            forall|c: int| i <= c < limit ==> whole[c] == 0,
            dest@ == blit_cells(
                shown(whole, i as int),
                w as int,
                h as int,
                before,
                dest_width as int,
                dest_height as int,
                x as int,
                y as int,
            ),
        decreases limit - i,
    {
        proof {
            assert(0 < w) by (nonlinear_arith)
                requires
                    i < w * h,
                    0 <= w,
                    0 <= h,
            ;
            lemma_show_cell(
                whole,
                i as int,
                w as int,
                h as int,
                before,
                dest_width as int,
                dest_height as int,
                x as int,
                y as int,
            );
        }
        put_cell(dest, dest_width, dest_height, x, y, width, i, 0u8);
        i += 1;
    }
    proof {
        lemma_show_rows(
            whole,
            rows as int,
            w as int,
            h as int,
            before,
            dest_width as int,
            dest_height as int,
            x as int,
            y as int,
        );
    }
    Ok(())
}

/// Drawing a frame straight from its bytes is decoding it and drawing the
/// decoded frame, wherever it is drawn.
pub proof fn lemma_decode_rle_draws_decoded(
    src: Seq<u8>,
    frame: SpriteFrame,
    dest: Seq<u8>,
    dest_width: nat,
    dest_height: nat,
    x: int,
    y: int,
)
    requires
        decodes_to(src, frame),
    ensures
        spec_decode_rle(src, dest, dest_width as int, dest_height as int, x, y) == (
            blit(frame, dest, dest_width, dest_height, x, y),
            Ok::<(), Error>(()),
        ),
{
    if !meets(
        frame_width(src) as int,
        frame_height(src) as int,
        dest_width as int,
        dest_height as int,
        x,
        y,
    ) {
        lemma_blit_outside(frame, dest, dest_width, dest_height, x, y);
    }
}

/// Drawing a frame that does not meet the buffer leaves the buffer as it
/// is, byte for byte, whatever the buffer holds and however long it is.
pub proof fn lemma_decode_rle_outside(
    src: Seq<u8>,
    dest: Seq<u8>,
    dest_width: int,
    dest_height: int,
    x: int,
    y: int,
)
    requires
        has_frame_header(src),
        dest_width <= 0 || dest_height <= 0 || x + frame_width(src) <= 0 || x >= dest_width || y
            + frame_height(src) <= 0 || y >= dest_height,
    ensures
        spec_decode_rle(src, dest, dest_width, dest_height, x, y) == (dest, Ok::<(), Error>(())),
{
}

} // verus!
