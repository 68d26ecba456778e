use pal::common::{decode_rle, put_cell, rle_get_width, sprite_get_frame};
use pal::error::Error;

fn frame() -> Vec<u8> {
    // 3 x 2: two literals and one transparent pixel, then the reverse
    vec![3, 0, 2, 0, 2, 1, 2, 0x81, 0x81, 2, 5, 6]
}

fn draw(src: &[u8], dw: usize, dh: usize, x: isize, y: isize) -> (Vec<u8>, Result<(), Error>) {
    let mut dest = vec![9u8; dw * dh];
    let r = decode_rle(src, &mut dest, dw, dh, x, y);
    (dest, r)
}

#[test]
fn rle_inside() {
    assert_eq!(
        draw(&frame(), 5, 4, 1, 1),
        (vec![9, 9, 9, 9, 9, 9, 1, 2, 9, 9, 9, 9, 5, 6, 9, 9, 9, 9, 9, 9], Ok(()))
    );
}

#[test]
fn rle_with_magic() {
    let mut src = vec![2, 0, 0, 0];
    src.extend_from_slice(&frame());
    assert_eq!(
        draw(&src, 5, 4, 0, 0),
        (vec![1, 2, 9, 9, 9, 9, 5, 6, 9, 9, 9, 9, 9, 9, 9, 9, 9, 9, 9, 9], Ok(()))
    );
}

#[test]
fn rle_clipped_above_and_below() {
    assert_eq!(
        draw(&frame(), 5, 4, 1, -1),
        (vec![9, 9, 5, 6, 9, 9, 9, 9, 9, 9, 9, 9, 9, 9, 9, 9, 9, 9, 9, 9], Ok(()))
    );
    assert_eq!(draw(&frame(), 5, 2, 1, 1), (vec![9, 9, 9, 9, 9, 9, 1, 2, 9, 9], Ok(())));
}

#[test]
fn rle_outside_is_untouched() {
    for (x, y) in [(5isize, 0isize), (-3, 0), (0, 4), (0, -2), (isize::MAX, 0), (isize::MIN, 0), (0, isize::MAX), (0, isize::MIN)] {
        assert_eq!(draw(&frame(), 5, 4, x, y), (vec![9; 20], Ok(())));
    }
    let mut dest = vec![9u8; 4];
    assert_eq!(decode_rle(&frame(), &mut dest, 0, 4, 0, 0), Ok(()));
    assert_eq!(decode_rle(&frame(), &mut dest, 4, 0, 0, 0), Ok(()));
    assert_eq!(dest, vec![9; 4]);
}

#[test]
fn rle_outside_does_not_ask_for_a_whole_buffer() {
    // a buffer shorter than width times height, and an empty one
    let mut dest = vec![9u8; 4];
    for (x, y) in [(5isize, 0isize), (-3, 0), (0, 4), (0, -2)] {
        assert_eq!(decode_rle(&frame(), &mut dest, 5, 4, x, y), Ok(()));
        assert_eq!(dest, vec![9; 4]);
    }
    let mut none: Vec<u8> = vec![];
    assert_eq!(decode_rle(&frame(), &mut none, 5, 4, 5, 0), Ok(()));
    assert_eq!(decode_rle(&frame(), &mut none, usize::MAX, usize::MAX, -3, 0), Ok(()));
    assert!(none.is_empty());
}

#[test]
fn rle_rows_of_single_runs() {
    let src = [4, 0, 2, 0, 4, 1, 2, 3, 4, 4, 5, 6, 7, 8];
    assert_eq!(draw(&src, 4, 2, 0, 0), (vec![1, 2, 3, 4, 5, 6, 7, 8], Ok(())));
}

#[test]
fn rle_transparent_run_across_left_edge() {
    let src = [4, 0, 2, 0, 0x83, 1, 7, 0x83, 1, 8];
    assert_eq!(draw(&src, 4, 2, -2, 0), (vec![9, 7, 9, 9, 9, 8, 9, 9], Ok(())));
}

#[test]
fn rle_runs_cut_by_a_side_edge_are_clipped() {
    // a literal run across the left edge
    let src = [4, 0, 2, 0, 4, 1, 2, 3, 4, 4, 5, 6, 7, 8];
    assert_eq!(draw(&src, 4, 2, -2, 0), (vec![3, 4, 9, 9, 7, 8, 9, 9], Ok(())));
    assert_eq!(
        draw(&frame(), 5, 4, -1, 0),
        (vec![2, 9, 9, 9, 9, 5, 6, 9, 9, 9, 9, 9, 9, 9, 9, 9, 9, 9, 9, 9], Ok(()))
    );
    assert_eq!(
        draw(&frame(), 5, 4, -2, 0),
        (vec![9, 9, 9, 9, 9, 6, 9, 9, 9, 9, 9, 9, 9, 9, 9, 9, 9, 9, 9, 9], Ok(()))
    );
    // a run across the right edge
    assert_eq!(draw(&src, 4, 2, 2, 0), (vec![9, 9, 1, 2, 9, 9, 5, 6], Ok(())));
    assert_eq!(draw(&frame(), 3, 2, 1, 0), (vec![9, 1, 2, 9, 9, 5], Ok(())));
    assert_eq!(draw(&frame(), 3, 2, 2, 0), (vec![9, 9, 1, 9, 9, 9], Ok(())));
    assert_eq!(draw(&[4, 0, 2, 0, 0x84, 0x84], 4, 2, 2, 0), (vec![9; 8], Ok(())));
    // across both edges at once
    assert_eq!(draw(&src, 2, 1, -1, -1), (vec![6, 7], Ok(())));
}

#[test]
fn rle_runs_may_cross_rows() {
    assert_eq!(draw(&[2, 0, 2, 0, 4, 1, 2, 3, 4], 2, 2, 0, 0), (vec![1, 2, 3, 4], Ok(())));
    assert_eq!(draw(&[2, 0, 2, 0, 0x83, 1, 4], 2, 2, 0, 0), (vec![9, 9, 9, 4], Ok(())));
    assert_eq!(draw(&[2, 0, 2, 0, 1, 1, 0x82, 1, 4], 3, 2, 1, 0), (vec![9, 1, 9, 9, 9, 4], Ok(())));
}

#[test]
fn rle_stream_beyond_the_frame_is_cut() {
    assert_eq!(draw(&[2, 0, 1, 0, 5, 1, 2, 3, 4, 5], 3, 3, 0, 0), (vec![1, 2, 9, 9, 9, 9, 9, 9, 9], Ok(())));
    assert_eq!(draw(&[2, 0, 1, 0, 1, 1, 0x85, 3, 7, 7, 7], 3, 2, 0, 0), (vec![1, 9, 9, 9, 9, 9], Ok(())));
}

#[test]
fn rle_truncated_stream_is_padded_with_index_zero() {
    let src = frame();
    assert_eq!(
        draw(&src[..11], 5, 4, 1, 1),
        (vec![9, 9, 9, 9, 9, 9, 1, 2, 9, 9, 9, 9, 5, 0, 9, 9, 9, 9, 9, 9], Ok(()))
    );
    assert_eq!(
        draw(&[3, 0, 2, 0, 3, 1, 2, 3], 4, 4, 0, 0),
        (vec![1, 2, 3, 9, 0, 0, 0, 9, 9, 9, 9, 9, 9, 9, 9, 9], Ok(()))
    );
    assert_eq!(
        draw(&[3, 0, 2, 0], 4, 4, 0, 0),
        (vec![0, 0, 0, 9, 0, 0, 0, 9, 9, 9, 9, 9, 9, 9, 9, 9], Ok(()))
    );
    // a literal run that announces more than the stream holds
    assert_eq!(draw(&[3, 0, 1, 0, 3, 1], 3, 1, 0, 0), (vec![1, 0, 0], Ok(())));
    // rows above the buffer that the stream does not hold
    assert_eq!(
        draw(&[3, 0, 2, 0, 2, 1, 2], 4, 4, 0, -1),
        (vec![0, 0, 0, 9, 9, 9, 9, 9, 9, 9, 9, 9, 9, 9, 9, 9], Ok(()))
    );
}

#[test]
fn rle_rows_below_the_buffer_are_not_read() {
    // a frame of 65535 rows, of which the buffer shows two
    let mut src = vec![2, 0, 0xff, 0xff, 2, 1, 2, 2, 3, 4];
    assert_eq!(draw(&src, 2, 2, 0, 0), (vec![1, 2, 3, 4], Ok(())));
    src.truncate(7);
    assert_eq!(draw(&src, 2, 2, 0, 0), (vec![1, 2, 0, 0], Ok(())));
    assert_eq!(draw(&[0xff, 0xff, 0xff, 0xff], 2, 2, 1, 1), (vec![9, 9, 9, 0], Ok(())));
}

#[test]
fn rle_truncated_header_is_format_error() {
    assert_eq!(draw(&[], 4, 4, 0, 0), (vec![9; 16], Err(Error::Format)));
    assert_eq!(draw(&[3, 0, 2], 4, 4, 0, 0), (vec![9; 16], Err(Error::Format)));
    assert_eq!(draw(&[2, 0, 0, 0, 3, 0], 4, 4, 0, 0), (vec![9; 16], Err(Error::Format)));
    // also where the frame would lie outside
    assert_eq!(draw(&[3, 0, 2], 4, 4, 100, 0), (vec![9; 16], Err(Error::Format)));
}

#[test]
fn rle_width() {
    assert_eq!(rle_get_width(&[]), 0);
    assert_eq!(rle_get_width(&[7]), 0);
    assert_eq!(rle_get_width(&[0x34, 0x12]), 0x1234);
    assert_eq!(rle_get_width(&frame()), 3);
    assert_eq!(rle_get_width(&[2, 0, 0, 0, 9, 1, 5, 0]), 0x109);
    assert_eq!(rle_get_width(&[2, 0, 0, 0, 9]), 0);
    assert_eq!(rle_get_width(&[2, 0, 0, 0]), 0);
    assert_eq!(rle_get_width(&[2, 0, 0]), 2);
}

#[test]
fn frame_slice_by_index() {
    let chunk = [2u8, 0, 0, 0, 4, 0, 5, 0, 0xaa, 0xbb, 0xcc];
    assert_eq!(sprite_get_frame(&chunk, 0), Ok(&chunk[8..]));
    assert_eq!(sprite_get_frame(&chunk, 1), Ok(&chunk[10..]));
    assert_eq!(sprite_get_frame(&chunk, 2), Err(Error::Index));
    assert_eq!(sprite_get_frame(&[], 0), Err(Error::Index));
    // an offset at the very end gives an empty frame, one beyond it an error
    assert_eq!(sprite_get_frame(&[1, 0, 0, 0, 3, 0], 0), Ok(&[][..]));
    assert_eq!(sprite_get_frame(&[1, 0, 0, 0, 4, 0], 0), Err(Error::Index));
    assert_eq!(sprite_get_frame(&[1, 0, 0, 0, 4], 0), Err(Error::Data));
}

#[test]
fn cell_put_under_its_pixel() {
    let mut dest = vec![9u8; 6];
    // cell 4 of a frame three wide is column 1 of row 1
    put_cell(&mut dest, 3, 2, 1, 0, 3, 4, 7);
    assert_eq!(dest, vec![9, 9, 9, 9, 9, 7]);
    put_cell(&mut dest, 3, 2, -1, -1, 3, 4, 8);
    assert_eq!(dest, vec![8, 9, 9, 9, 9, 7]);
    // no pixel under the cell
    put_cell(&mut dest, 3, 2, 2, 0, 3, 4, 1);
    put_cell(&mut dest, 3, 2, 0, 1, 3, 4, 1);
    put_cell(&mut dest, 3, 2, -2, 0, 3, 4, 1);
    put_cell(&mut dest, 3, 2, 0, -2, 3, 4, 1);
    assert_eq!(dest, vec![8, 9, 9, 9, 9, 7]);
}

#[test]
fn rle_draws_the_decoded_frame_wherever_it_lies() {
    let mut with_magic = vec![2, 0, 0, 0];
    with_magic.extend_from_slice(&frame());
    let wide = vec![4, 0, 3, 0, 1, 7, 0x80, 0x82, 1, 8, 0x84, 0, 2, 1, 2, 2, 3, 4, 99, 99];
    let ragged = vec![5, 0, 3, 0, 7, 1, 2, 3, 4, 5, 6, 7, 0x83, 9, 1, 2, 3];
    for src in [frame(), with_magic, wide, ragged] {
        let decoded = pal::sprite::decode_rle_sprite_frame(&src).unwrap();
        for x in -7..8 {
            for y in -5..7 {
                let mut expected: Vec<u8> = (0u8..30).collect();
                pal::sprite::draw_sprite_frame(&decoded, &mut expected, 6, 5, x, y);
                let mut direct: Vec<u8> = (0u8..30).collect();
                assert_eq!(decode_rle(&src, &mut direct, 6, 5, x, y), Ok(()));
                assert_eq!(direct, expected);
            }
        }
    }
}

#[test]
fn rle_frame_without_cells_draws_nothing() {
    assert_eq!(draw(&[0, 0, 2, 0, 1, 5], 3, 3, 1, 0), (vec![9; 9], Ok(())));
    assert_eq!(draw(&[2, 0, 0, 0, 2, 0, 0, 0, 1, 5], 3, 3, 0, 1), (vec![9; 9], Ok(())));
}
