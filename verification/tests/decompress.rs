use pal::error::Error;
use pal::mkf::decompress::{
    build_tree, copy_back, decompress, yj1_get_bits, yj1_get_count, yj1_get_loop, YJ1BlockHeader,
    YJ1Header, YJ1TreeNode,
};

fn header(uncompressed: u32, blocks: u16, tree_pairs: u8) -> Vec<u8> {
    let mut v = vec![0x59, 0x4a, 0x5f, 0x31];
    v.extend_from_slice(&uncompressed.to_le_bytes());
    v.extend_from_slice(&0u32.to_le_bytes());
    v.extend_from_slice(&blocks.to_le_bytes());
    v.push(0);
    v.push(tree_pairs);
    v
}

fn tables() -> Vec<u8> {
    vec![2, 0, 3, 0, 4, 0, 5, 0, 1, 2, 3, 4, 1, 2, 3, 3, 4, 5, 1, 2]
}

fn two_leaves() -> Vec<u8> {
    // two leaves, 'A' and 'B', and one word of clear leaf flags
    vec![0x41, 0x42, 0x00, 0x00]
}

#[test]
fn stored_block_round_trip() {
    let payload = vec![1u8, 2, 3, 250, 0, 7];
    let mut buf = header(6, 1, 1);
    buf.extend_from_slice(&two_leaves());
    buf.extend_from_slice(&[6, 0, 0, 0]);
    buf.extend_from_slice(&payload);
    assert_eq!(decompress(buf), Ok(payload));
}

#[test]
fn stored_block_round_trip_without_tree() {
    let payload = vec![9u8, 8, 7];
    let mut buf = header(3, 1, 0);
    buf.extend_from_slice(&[3, 0, 0, 0]);
    buf.extend_from_slice(&payload);
    assert_eq!(decompress(buf), Ok(payload));
}

#[test]
fn short_output_is_data_error() {
    let mut buf = header(5, 1, 0);
    buf.extend_from_slice(&[2, 0, 0, 0, 0xaa, 0xbb]);
    assert_eq!(decompress(buf), Err(Error::Data));
    let mut buf = header(2, 1, 0);
    buf.extend_from_slice(&[2, 0, 0, 0, 0xaa, 0xbb]);
    assert_eq!(decompress(buf), Ok(vec![0xaa, 0xbb]));
}

#[test]
fn literals_and_back_references() {
    let mut buf = header(7, 1, 1);
    buf.extend_from_slice(&two_leaves());
    buf.extend_from_slice(&[7, 0, 28, 0]);
    buf.extend_from_slice(&tables());
    buf.extend_from_slice(&[70, 45, 0, 25]);
    assert_eq!(decompress(buf), Ok(b"ABABABB".to_vec()));
}

#[test]
fn compressed_block_then_stored_block() {
    // the stored block starts 24 + 4 bytes after the compressed one
    let mut buf = header(10, 2, 1);
    buf.extend_from_slice(&two_leaves());
    buf.extend_from_slice(&[7, 0, 4, 0]);
    buf.extend_from_slice(&tables());
    buf.extend_from_slice(&[70, 45, 0, 25]);
    buf.extend_from_slice(&[3, 0, 0, 0, 0x78, 0x79, 0x7a]);
    assert_eq!(decompress(buf), Ok(b"ABABABBxyz".to_vec()));
}

#[test]
fn walk_through_inner_node() {
    let buf = vec![
        89, 74, 95, 49, 5, 0, 0, 0, 0, 0, 0, 0, 1, 0, 0, 2, 1, 67, 68, 69, 0, 128, 5, 0, 2, 0, 2, 0,
        3, 0, 4, 0, 5, 0, 1, 2, 3, 4, 1, 2, 3, 3, 4, 5, 5, 2, 144, 196,
    ];
    assert_eq!(decompress(buf), Ok(b"CDEDC".to_vec()));
}

#[test]
fn overlapping_back_reference_repeats_written_bytes() {
    let buf = vec![
        89, 74, 95, 49, 6, 0, 0, 0, 0, 0, 0, 0, 1, 0, 0, 1, 65, 66, 0, 0, 6, 0, 2, 0, 2, 0, 3, 0, 4,
        0, 5, 0, 1, 2, 3, 4, 1, 2, 3, 3, 4, 5, 1, 2, 144, 184,
    ];
    assert_eq!(decompress(buf), Ok(b"AAAAAA".to_vec()));
}

#[test]
fn escaped_repeat_count() {
    let buf = vec![
        89, 74, 95, 49, 2, 0, 0, 0, 0, 0, 0, 0, 1, 0, 0, 1, 65, 66, 0, 0, 2, 0, 2, 0, 2, 0, 3, 0, 4,
        0, 5, 0, 1, 2, 3, 4, 1, 2, 3, 3, 4, 5, 1, 2, 72, 174,
    ];
    assert_eq!(decompress(buf), Ok(vec![0x41, 0x41]));
}

#[test]
fn back_distance_zero_writes_zero() {
    let buf = vec![
        89, 74, 95, 49, 3, 0, 0, 0, 0, 0, 0, 0, 1, 0, 0, 1, 65, 66, 0, 0, 3, 0, 2, 0, 2, 0, 3, 0, 4,
        0, 5, 0, 1, 2, 3, 4, 1, 2, 3, 3, 4, 5, 1, 2, 32, 224,
    ];
    assert_eq!(decompress(buf), Ok(vec![0x42, 0, 0]));
}

#[test]
fn back_distance_before_start_is_data_error() {
    // one literal, then a back reference of distance 3
    // bits: 1 0 1 00 01 11 ... : loop 1, literal A, loop 1, length 2, width 2, distance 3
    let mut buf = header(6, 1, 1);
    buf.extend_from_slice(&two_leaves());
    buf.extend_from_slice(&[6, 0, 2, 0]);
    buf.extend_from_slice(&tables());
    // 1 0 1 00 01 11 0000000 -> 1010 0011 1000 0000 = 0xa380
    buf.extend_from_slice(&[0x80, 0xa3]);
    assert_eq!(decompress(buf), Err(Error::Data));
}

#[test]
fn bad_signature_is_format_error() {
    let mut buf = header(0, 0, 0);
    buf[3] = 0x32;
    assert_eq!(decompress(buf), Err(Error::Format));
    assert_eq!(decompress(vec![0xff, 0xfe, 0xfd, 0xfc, 0, 0, 0, 0, 0, 0, 0, 0, 0, 0, 0, 0]), Err(Error::Format));
}

#[test]
fn truncated_header_is_format_error() {
    assert_eq!(decompress(vec![]), Err(Error::Format));
    assert_eq!(decompress(vec![0x59, 0x4a, 0x5f]), Err(Error::Format));
    assert_eq!(decompress(vec![0x59, 0x4a, 0x5f, 0x31]), Err(Error::Format));
    let mut buf = header(0, 0, 0);
    buf.pop();
    assert_eq!(decompress(buf), Err(Error::Format));
}

#[test]
fn all_zero_buffer_is_format_error() {
    assert_eq!(decompress(vec![0u8; 16]), Err(Error::Format));
    assert_eq!(decompress(vec![0u8; 4096]), Err(Error::Format));
}

#[test]
fn signed_zeros_are_data_errors() {
    assert_eq!(
        decompress(vec![0x59, 0x4a, 0x5f, 0x31, 0, 0, 0, 0, 0, 0, 0, 0, 0, 0, 0, 0]),
        Err(Error::Data)
    );
    let mut buf = vec![0u8; 4096];
    buf[..4].copy_from_slice(&[0x59, 0x4a, 0x5f, 0x31]);
    assert_eq!(decompress(buf), Err(Error::Data));
}

#[test]
fn signed_header_without_blocks_is_data_error() {
    assert_eq!(decompress(header(0, 0, 0)), Err(Error::Data));
    assert_eq!(decompress(header(3, 0, 0)), Err(Error::Data));
    let mut buf = header(3, 0, 0);
    buf.extend_from_slice(&[3, 0, 0, 0, 1, 2, 3]);
    assert_eq!(decompress(buf), Err(Error::Data));
}

#[test]
fn every_truncation_of_a_stored_buffer_is_an_error() {
    let mut buf = header(6, 1, 1);
    buf.extend_from_slice(&two_leaves());
    buf.extend_from_slice(&[6, 0, 0, 0, 1, 2, 3, 250, 0, 7]);
    for n in 0..buf.len() {
        assert!(decompress(buf[..n].to_vec()).is_err());
    }
    assert!(decompress(buf).is_ok());
}

#[test]
fn empty_stored_block_is_empty() {
    let mut buf = header(0, 1, 0);
    buf.extend_from_slice(&[0, 0, 0, 0]);
    assert_eq!(decompress(buf), Ok(vec![]));
}

#[test]
fn truncated_tree_is_data_error() {
    // announces two nodes, holds one
    let mut buf = header(0, 0, 1);
    buf.push(0x41);
    assert_eq!(decompress(buf), Err(Error::Data));
    // nodes without the word of flags
    let mut buf = header(0, 0, 1);
    buf.extend_from_slice(&[0x41, 0x42, 0x00]);
    assert_eq!(decompress(buf), Err(Error::Data));
}

#[test]
fn truncated_blocks_are_data_errors() {
    // a block is announced, nothing follows
    assert_eq!(decompress(header(1, 1, 0)), Err(Error::Data));
    // stored block shorter than its length
    let mut buf = header(4, 1, 0);
    buf.extend_from_slice(&[4, 0, 0, 0, 1, 2, 3]);
    assert_eq!(decompress(buf), Err(Error::Data));
    // compressed block with a truncated header
    let mut buf = header(4, 1, 0);
    buf.extend_from_slice(&[4, 0, 9, 0, 1, 2, 3]);
    assert_eq!(decompress(buf), Err(Error::Data));
    // compressed block whose bit stream ends at once
    let mut buf = header(7, 1, 1);
    buf.extend_from_slice(&two_leaves());
    buf.extend_from_slice(&[7, 0, 28, 0]);
    buf.extend_from_slice(&tables());
    assert_eq!(decompress(buf.clone()), Err(Error::Data));
    // ... or in the middle
    buf.extend_from_slice(&[70, 45]);
    assert_eq!(decompress(buf), Err(Error::Data));
}

#[test]
fn output_beyond_uncompressed_length_is_data_error() {
    let mut buf = header(2, 1, 0);
    buf.extend_from_slice(&[3, 0, 0, 0, 1, 2, 3]);
    assert_eq!(decompress(buf), Err(Error::Data));
    let mut buf = header(6, 1, 1);
    buf.extend_from_slice(&two_leaves());
    buf.extend_from_slice(&[7, 0, 28, 0]);
    buf.extend_from_slice(&tables());
    buf.extend_from_slice(&[70, 45, 0, 25]);
    assert_eq!(decompress(buf), Err(Error::Data));
}

#[test]
fn walk_out_of_a_tree_without_nodes_is_data_error() {
    // no tree, but a compressed block that asks for a literal
    let mut buf = header(1, 1, 0);
    buf.extend_from_slice(&[1, 0, 2, 0]);
    buf.extend_from_slice(&tables());
    buf.extend_from_slice(&[0x00, 0x80]);
    assert_eq!(decompress(buf), Err(Error::Data));
}

#[test]
fn header_fields() {
    let buf = vec![0x59, 0x4a, 0x5f, 0x31, 1, 2, 3, 4, 5, 6, 7, 8, 9, 10, 11, 12];
    let h = YJ1Header::from(&buf).unwrap();
    assert_eq!(h.signature, [0x59, 0x4a, 0x5f, 0x31]);
    assert_eq!(h.uncompressed_length, 0x04030201);
    assert_eq!(h.compressed_length, 0x08070605);
    assert_eq!(h.block_count, 0x0a09);
    assert_eq!(h.unknown, 11);
    assert_eq!(h.huffman_tree_length, 12);
    assert!(h.is_signed());
    assert!(YJ1Header::from(&buf[..15]).is_none());
    let mut other = buf.clone();
    other[0] = 0x5a;
    assert!(!YJ1Header::from(&other).unwrap().is_signed());
}

#[test]
fn block_header_fields() {
    let mut buf = vec![7, 1, 28, 2];
    buf.extend_from_slice(&tables());
    let h = YJ1BlockHeader::from(&buf).unwrap();
    assert_eq!(h.uncompressed_length, 0x0107);
    assert_eq!(h.compressed_length, 0x021c);
    assert_eq!(h.lzss_repeat_table, [2, 3, 4, 5]);
    assert_eq!(h.lzss_offset_code_length_table, [1, 2, 3, 4]);
    assert_eq!(h.lzss_repeat_code_length_table, [1, 2, 3]);
    assert_eq!(h.code_count_code_length_table, [3, 4, 5]);
    assert_eq!(h.code_count_table, [1, 2]);
    assert!(YJ1BlockHeader::from(&buf[..23]).is_none());
    assert!(YJ1BlockHeader::from(&buf[..3]).is_none());
    // a stored block has only its lengths
    let h = YJ1BlockHeader::from(&[5, 0, 0, 0, 9, 9, 9]).unwrap();
    assert_eq!(h.uncompressed_length, 5);
    assert_eq!(h.compressed_length, 0);
    assert_eq!(h.lzss_repeat_table, [0, 0, 0, 0]);
    assert_eq!(h.code_count_table, [0, 0]);
}

#[test]
fn new_tree_node_is_empty() {
    let n = YJ1TreeNode::new();
    assert_eq!(n.value, 0);
    assert!(!n.leaf);
    assert_eq!(n.left, None);
    assert_eq!(n.right, None);
}

#[test]
fn tree_nodes_from_flags() {
    let buf = vec![
        89, 74, 95, 49, 5, 0, 0, 0, 0, 0, 0, 0, 1, 0, 0, 2, 1, 67, 68, 69, 0, 128,
    ];
    let tree = build_tree(&buf, 4);
    assert_eq!(tree.len(), 5);
    assert_eq!((tree[0].leaf, tree[0].left, tree[0].right), (false, Some(1), Some(2)));
    assert_eq!((tree[1].leaf, tree[1].value, tree[1].left, tree[1].right), (false, 1, Some(3), Some(4)));
    assert_eq!((tree[2].leaf, tree[2].value, tree[2].left), (true, 67, None));
    assert_eq!((tree[3].leaf, tree[3].value), (true, 68));
    assert_eq!((tree[4].leaf, tree[4].value), (true, 69));
}

#[test]
fn bits_are_read_from_the_top_of_each_word() {
    let src = [0x46u8, 0x2d, 0x00, 0x19];
    let mut p = 0u32;
    assert_eq!(yj1_get_bits(&src, &mut p, 3), Ok(1));
    assert_eq!(p, 3);
    assert_eq!(yj1_get_bits(&src, &mut p, 5), Ok(13));
    assert_eq!(yj1_get_bits(&src, &mut p, 8), Ok(70));
    assert_eq!(p, 16);
    assert_eq!(yj1_get_bits(&src, &mut p, 10), Ok(100));
    assert_eq!(p, 26);
    // across two words
    let mut p = 4u32;
    assert_eq!(yj1_get_bits(&src, &mut p, 20), Ok(869913));
    assert_eq!(p, 24);
    // a whole word, and the whole window
    let mut p = 0u32;
    assert_eq!(yj1_get_bits(&src, &mut p, 16), Ok(0x2d46));
    let mut p = 0u32;
    assert_eq!(yj1_get_bits(&src, &mut p, 32), Ok(0x2d461900));
}

#[test]
fn unreadable_bits_are_data_errors() {
    let src = [0x46u8, 0x2d, 0x00, 0x19];
    // no bits at all
    let mut p = 0u32;
    assert_eq!(yj1_get_bits(&src, &mut p, 0), Err(Error::Data));
    assert_eq!(p, 0);
    // more than the window holds
    let mut p = 1u32;
    assert_eq!(yj1_get_bits(&src, &mut p, 32), Err(Error::Data));
    assert_eq!(p, 1);
    // beyond the end
    let mut p = 32u32;
    assert_eq!(yj1_get_bits(&src, &mut p, 1), Err(Error::Data));
    let mut p = 20u32;
    assert_eq!(yj1_get_bits(&src, &mut p, 13), Err(Error::Data));
    // half a word
    let mut p = 0u32;
    assert_eq!(yj1_get_bits(&src[..1], &mut p, 1), Err(Error::Data));
    let mut p = 10u32;
    assert_eq!(yj1_get_bits(&src[..3], &mut p, 7), Err(Error::Data));
    // the last bits of the last word can be read
    let mut p = 26u32;
    assert_eq!(yj1_get_bits(&src, &mut p, 6), Ok(0));
    assert_eq!(p, 32);
}

fn block_header() -> YJ1BlockHeader {
    let mut buf = vec![7, 0, 28, 0];
    buf.extend_from_slice(&tables());
    YJ1BlockHeader::from(&buf).unwrap()
}

#[test]
fn loop_counts() {
    let h = block_header();
    // flag set: the first fixed count
    let mut p = 0u32;
    assert_eq!(yj1_get_loop(&[0x00, 0x80], &mut p, &h), Ok(1));
    assert_eq!(p, 1);
    // flag clear, selector zero: the second fixed count
    let mut p = 0u32;
    assert_eq!(yj1_get_loop(&[0x00, 0x00], &mut p, &h), Ok(2));
    assert_eq!(p, 3);
    // selector 2: a code of four bits, 0 10 1011
    let mut p = 0u32;
    assert_eq!(yj1_get_loop(&[0x00, 0x56], &mut p, &h), Ok(11));
    assert_eq!(p, 7);
    let mut p = 15u32;
    assert_eq!(yj1_get_loop(&[0x00, 0x00], &mut p, &h), Err(Error::Data));
}

#[test]
fn repeat_counts() {
    let h = block_header();
    // selector zero
    let mut p = 0u32;
    assert_eq!(yj1_get_count(&[0x00, 0x00], &mut p, &h), Ok(2));
    assert_eq!(p, 2);
    // selector 3, no escape: 11 0
    let mut p = 0u32;
    assert_eq!(yj1_get_count(&[0x00, 0xc0], &mut p, &h), Ok(5));
    assert_eq!(p, 3);
    // selector 3, escape, a code of three bits: 11 1 101
    let mut p = 0u32;
    assert_eq!(yj1_get_count(&[0x00, 0xf4], &mut p, &h), Ok(5));
    assert_eq!(p, 6);
    // selector 2, escape, a code of two bits: 10 1 11
    let mut p = 0u32;
    assert_eq!(yj1_get_count(&[0x00, 0xb8], &mut p, &h), Ok(3));
    assert_eq!(p, 5);
}

#[test]
fn copy_back_is_byte_by_byte() {
    let mut out = vec![1u8, 2, 3];
    assert_eq!(copy_back(&mut out, 2, 5, 100), Ok(()));
    assert_eq!(out, vec![1, 2, 3, 2, 3, 2, 3, 2]);
    let mut out = vec![1u8, 2, 3];
    assert_eq!(copy_back(&mut out, 4, 1, 100), Err(Error::Data));
    let mut out = vec![1u8, 2, 3];
    assert_eq!(copy_back(&mut out, 1, 2, 4), Err(Error::Data));
    let mut out = vec![1u8, 2, 3];
    assert_eq!(copy_back(&mut out, 9, 0, 3), Ok(()));
    assert_eq!(out, vec![1, 2, 3]);
}
