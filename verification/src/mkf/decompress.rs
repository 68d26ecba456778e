//! The "YJ_1" block compression: Huffman-coded literals and LZSS back
//! references, packed into a stream of 16-bit little-endian words.

use vstd::prelude::*;
use crate::bytes::{bytes_of, le16, le32, read_u16, read_u32};
use crate::error::Error;

verus! {

/// Length of the fixed header in front of every compressed buffer.
pub const HEADER_LENGTH: usize = 16;

/// Length of the header of a stored sub-block.
pub const RAW_BLOCK_HEADER_LENGTH: usize = 4;

/// Length of the header of a compressed sub-block.
pub const BLOCK_HEADER_LENGTH: usize = 24;

/// The four bytes every compressed buffer starts with: `YJ_1`.
pub open spec fn signature() -> Seq<u8> {
    seq![0x59u8, 0x4au8, 0x5fu8, 0x31u8]
}

/// The fixed 16-byte header of a compressed buffer.
#[derive(Debug)]
pub struct YJ1Header {
    pub signature: [u8; 4],
    pub uncompressed_length: u32,
    pub compressed_length: u32,
    pub block_count: u16,
    pub unknown: u8,
    pub huffman_tree_length: u8,
}

/// The header that the first 16 bytes of `data` spell out.
pub open spec fn spec_header(data: Seq<u8>) -> YJ1Header {
    YJ1Header {
        signature: [data[0], data[1], data[2], data[3]],
        uncompressed_length: le32(data, 4) as u32,
        compressed_length: le32(data, 8) as u32,
        block_count: le16(data, 12) as u16,
        unknown: data[14],
        huffman_tree_length: data[15],
    }
}

impl YJ1Header {
    /// Parses the fixed header; `None` when `data` is shorter than the header.
    pub fn from(data: &[u8]) -> (r: Option<YJ1Header>)
        ensures
            r == if data.len() >= HEADER_LENGTH {
                Some(spec_header(data@))
            } else {
                None
            },
    {
        if data.len() < HEADER_LENGTH {
            return None;
        }
        let h = YJ1Header {
            signature: [data[0], data[1], data[2], data[3]],
            uncompressed_length: read_u32(data, 4),
            compressed_length: read_u32(data, 8),
            block_count: read_u16(data, 12),
            unknown: data[14],
            huffman_tree_length: data[15],
        };
        assert(h.signature@ =~= spec_header(data@).signature@);
        Some(h)
    }

    /// Whether the header carries the `YJ_1` signature.
    pub open spec fn spec_is_signed(&self) -> bool {
        self.signature@ == signature()
    }

    /// Whether the header carries the `YJ_1` signature.
    pub fn is_signed(&self) -> (r: bool)
        ensures
            r == self.spec_is_signed(),
    {
        let r = self.signature[0] == 0x59 && self.signature[1] == 0x4a && self.signature[2] == 0x5f
            && self.signature[3] == 0x31;
        assert(r == (self.signature@ =~= signature()));
        r
    }
}

/// The header of one sub-block: its two lengths and, for a compressed
/// sub-block, the tables its bit codes are read with.
#[derive(Debug)]
pub struct YJ1BlockHeader {
    pub uncompressed_length: u16,
    pub compressed_length: u16,
    pub lzss_repeat_table: [u16; 4],
    pub lzss_offset_code_length_table: [u8; 4],
    pub lzss_repeat_code_length_table: [u8; 3],
    pub code_count_code_length_table: [u8; 3],
    pub code_count_table: [u8; 2],
}

/// The sub-block header at the start of `data`. A stored sub-block (compressed
/// length zero) has only its two lengths; its tables are all zero.
pub open spec fn spec_block_header(data: Seq<u8>) -> YJ1BlockHeader {
    if le16(data, 2) == 0 {
        YJ1BlockHeader {
            uncompressed_length: le16(data, 0) as u16,
            compressed_length: 0u16,
            lzss_repeat_table: [0u16, 0u16, 0u16, 0u16],
            lzss_offset_code_length_table: [0u8, 0u8, 0u8, 0u8],
            lzss_repeat_code_length_table: [0u8, 0u8, 0u8],
            code_count_code_length_table: [0u8, 0u8, 0u8],
            code_count_table: [0u8, 0u8],
        }
    } else {
        YJ1BlockHeader {
            uncompressed_length: le16(data, 0) as u16,
            compressed_length: le16(data, 2) as u16,
            lzss_repeat_table: [
                le16(data, 4) as u16,
                le16(data, 6) as u16,
                le16(data, 8) as u16,
                le16(data, 10) as u16,
            ],
            lzss_offset_code_length_table: [data[12], data[13], data[14], data[15]],
            lzss_repeat_code_length_table: [data[16], data[17], data[18]],
            code_count_code_length_table: [data[19], data[20], data[21]],
            code_count_table: [data[22], data[23]],
        }
    }
}

/// Whether `data` is long enough for the sub-block header it starts with:
/// four bytes for a stored sub-block, 24 for a compressed one.
pub open spec fn has_block_header(data: Seq<u8>) -> bool {
    data.len() >= RAW_BLOCK_HEADER_LENGTH && (le16(data, 2) != 0 ==> data.len()
        >= BLOCK_HEADER_LENGTH)
}

impl YJ1BlockHeader {
    /// Parses the sub-block header at the start of `data`; `None` when `data`
    /// ends inside it.
    pub fn from(data: &[u8]) -> (r: Option<YJ1BlockHeader>)
        ensures
            r == if has_block_header(data@) {
                Some(spec_block_header(data@))
            } else {
                None
            },
    {
        if data.len() < RAW_BLOCK_HEADER_LENGTH {
            return None;
        }
        let uncompressed_length: u16 = read_u16(data, 0);
        let compressed_length: u16 = read_u16(data, 2);
        if compressed_length == 0 {
            let h = YJ1BlockHeader {
                uncompressed_length,
                compressed_length,
                lzss_repeat_table: [0u16, 0u16, 0u16, 0u16],
                lzss_offset_code_length_table: [0u8, 0u8, 0u8, 0u8],
                lzss_repeat_code_length_table: [0u8, 0u8, 0u8],
                code_count_code_length_table: [0u8, 0u8, 0u8],
                code_count_table: [0u8, 0u8],
            };
            return Some(h);
        }
        if data.len() < BLOCK_HEADER_LENGTH {
            return None;
        }
        let h = YJ1BlockHeader {
            uncompressed_length,
            compressed_length,
            lzss_repeat_table: [
                read_u16(data, 4),
                read_u16(data, 6),
                read_u16(data, 8),
                read_u16(data, 10),
            ],
            lzss_offset_code_length_table: [data[12], data[13], data[14], data[15]],
            lzss_repeat_code_length_table: [data[16], data[17], data[18]],
            code_count_code_length_table: [data[19], data[20], data[21]],
            code_count_table: [data[22], data[23]],
        };
        let ghost s = spec_block_header(data@);
        assert(h.lzss_repeat_table@ =~= s.lzss_repeat_table@);
        assert(h.lzss_offset_code_length_table@ =~= s.lzss_offset_code_length_table@);
        assert(h.lzss_repeat_code_length_table@ =~= s.lzss_repeat_code_length_table@);
        assert(h.code_count_code_length_table@ =~= s.code_count_code_length_table@);
        assert(h.code_count_table@ =~= s.code_count_table@);
        Some(h)
    }
}

/// One node of the Huffman tree. The tree is an arena: children are indices
/// into the vector that holds the nodes.
#[derive(Debug, Clone, Copy)]
pub struct YJ1TreeNode {
    pub value: u8,
    pub leaf: bool,
    pub left: Option<usize>,
    pub right: Option<usize>,
}

impl YJ1TreeNode {
    /// An inner node without children and with value zero.
    pub fn new() -> (n: YJ1TreeNode)
        ensures
            n == (YJ1TreeNode { value: 0, leaf: false, left: None, right: None }),
    {
        YJ1TreeNode { value: 0, leaf: false, left: None, right: None }
    }
}

/// The 16-bit word number `w` of the stream `src`: two bytes, low byte first.
pub open spec fn stream_word(src: Seq<u8>, w: int) -> u32 {
    le16(src, 2 * w) as u32
}

/// Whether `count` bits can be read at bit position `pos`: the run is not
/// empty, ends within the word after the one it starts in, lies inside `src`,
/// and the position after it still fits the 32-bit cursor.
pub open spec fn bits_readable(src: Seq<u8>, pos: nat, count: nat) -> bool {
    let b: nat = pos % 16;
    let w: nat = pos / 16;
    &&& 1 <= count
    &&& b + count <= 32
    &&& pos + count <= u32::MAX
    &&& if b + count <= 16 {
        2 * w + 2 <= src.len()
    } else {
        2 * w + 4 <= src.len()
    }
}

/// The value of the `c` bits that start `b` bits below the top of the word
/// `w0` and go on, where the word ends, from the top of the word `w1`.
pub open spec fn window_bits(w0: u32, w1: u32, b: u32, c: u32) -> u32 {
    if b + c <= 16 {
        (w0 >> ((16 - b - c) as u32)) & ((0xffffu32 >> ((16 - c) as u32)))
    } else {
        ((w0 & (0xffffu32 >> b)) << ((b + c - 16) as u32)) | (w1 >> ((32 - b - c) as u32))
    }
}

/// The value of the `count` bits at bit position `pos`, first bit most
/// significant. Within a word the stream runs from bit 15 down to bit 0.
pub open spec fn bits_value(src: Seq<u8>, pos: nat, count: nat) -> u32 {
    window_bits(
        stream_word(src, (pos / 16) as int),
        stream_word(src, (pos / 16) as int + 1),
        (pos % 16) as u32,
        count as u32,
    )
}

/// Bit `k` of the stream that two words make, counted from the top of the
/// first: zero or one.
pub open spec fn window_bit(w0: u32, w1: u32, k: u32) -> u32 {
    if k < 16 {
        (w0 >> ((15 - k) as u32)) & 1
    } else {
        (w1 >> ((31 - k) as u32)) & 1
    }
}

/// One bit read is the bit at its place, and `c` bits read are the first
/// `c - 1` of them, shifted up by one, with the last of them below: the
/// first bit read is the most significant.
pub proof fn lemma_window_bits(w0: u32, w1: u32, b: u32, c: u32)
    by (bit_vector)
    requires
        w0 < 0x10000,
        w1 < 0x10000,
        b < 16,
        1 <= c,
        b + c <= 32,
    ensures
        c == 1 ==> window_bits(w0, w1, b, c) == window_bit(w0, w1, b),
        c >= 2 ==> window_bits(w0, w1, b, c) == (window_bits(w0, w1, b, (c - 1) as u32) << 1)
            | window_bit(w0, w1, (b + c - 1) as u32),
{
}

/// Reading `count` bits at `pos`: the value and the position after it, or
/// `None` where the bits cannot be read.
pub open spec fn spec_get_bits(src: Seq<u8>, pos: nat, count: nat) -> Option<(u32, nat)> {
    if bits_readable(src, pos, count) {
        Some((bits_value(src, pos, count), pos + count))
    } else {
        None
    }
}

/// Reads `count` bits at `*bitptr` and moves the cursor past them. Fails with
/// `Error::Data`, leaving the cursor alone, where the bits cannot be read.
pub fn yj1_get_bits(src: &[u8], bitptr: &mut u32, count: u32) -> (r: Result<u32, Error>)
    ensures
        match spec_get_bits(src@, *old(bitptr) as nat, count as nat) {
            Some((v, p)) => r == Ok::<u32, Error>(v) && *final(bitptr) == p,
            None => r == Err::<u32, Error>(Error::Data) && *final(bitptr) == *old(bitptr),
        },
{
    let pos: u32 = *bitptr;
    let b: u32 = pos % 16;
    let w: usize = (pos / 16) as usize;
    if count < 1 || count > 32 - b || count > u32::MAX - pos {
        return Err(Error::Data);
    }
    if b + count <= 16 {
        if src.len() < 2 || w > (src.len() - 2) / 2 {
            return Err(Error::Data);
        }
        let w0: u32 = read_u16(src, 2 * w) as u32;
        *bitptr = pos + count;
        Ok((w0 >> (16 - b - count)) & (0xffffu32 >> (16 - count)))
    } else {
        if src.len() < 4 || w > (src.len() - 4) / 2 {
            return Err(Error::Data);
        }
        let w0: u32 = read_u16(src, 2 * w) as u32;
        let w1: u32 = read_u16(src, 2 * w + 2) as u32;
        *bitptr = pos + count;
        Ok(((w0 & (0xffffu32 >> b)) << (b + count - 16)) | (w1 >> (32 - b - count)))
    }
}

/// Reading a loop count at `pos`: one flag bit selects the first fixed count;
/// otherwise a two-bit selector picks the second fixed count (selector zero)
/// or a code whose width the header gives.
pub open spec fn spec_get_loop(src: Seq<u8>, pos: nat, h: YJ1BlockHeader) -> Option<(u16, nat)> {
    match spec_get_bits(src, pos, 1) {
        None => None,
        Some((flag, p1)) => if flag != 0 {
            Some((h.code_count_table[0] as u16, p1))
        } else {
            match spec_get_bits(src, p1, 2) {
                None => None,
                Some((sel, p2)) => if sel != 0 {
                    match spec_get_bits(src, p2, h.code_count_code_length_table[sel - 1] as nat) {
                        None => None,
                        Some((v, p3)) => Some(((v % 0x10000) as u16, p3)),
                    }
                } else {
                    Some((h.code_count_table[1] as u16, p2))
                },
            }
        },
    }
}

/// Reading the length of one back reference at `pos`: a two-bit selector
/// picks a fixed length; for a selector other than zero one more bit may
/// replace it by a code whose width the header gives.
pub open spec fn spec_get_count(src: Seq<u8>, pos: nat, h: YJ1BlockHeader) -> Option<(u16, nat)> {
    match spec_get_bits(src, pos, 2) {
        None => None,
        Some((sel, p1)) => if sel != 0 {
            match spec_get_bits(src, p1, 1) {
                None => None,
                Some((escape, p2)) => if escape == 1 {
                    match spec_get_bits(src, p2, h.lzss_repeat_code_length_table[sel - 1] as nat) {
                        None => None,
                        Some((v, p3)) => Some(((v % 0x10000) as u16, p3)),
                    }
                } else {
                    Some((h.lzss_repeat_table[sel as int], p2))
                },
            }
        } else {
            Some((h.lzss_repeat_table[0], p1))
        },
    }
}

proof fn lemma_two_bits(v: u32, w0: u32, w1: u32, b: u32)
    by (bit_vector)
    requires
        b < 16,
        w0 < 0x10000,
        w1 < 0x10000,
        v == (if b + 2 <= 16 {
            (w0 >> ((16 - b - 2) as u32)) & ((0xffffu32 >> ((16 - 2) as u32)))
        } else {
            ((w0 & (0xffffu32 >> b)) << ((b + 2 - 16) as u32)) | (w1 >> ((32 - b - 2) as u32))
        }),
    ensures
        v < 4,
{
}

/// A two-bit read yields a value below four.
pub proof fn lemma_selector_range(src: Seq<u8>, pos: nat)
    requires
        bits_readable(src, pos, 2),
    ensures
        bits_value(src, pos, 2) < 4,
{
    let b: u32 = (pos % 16) as u32;
    let w: int = (pos / 16) as int;
    let w0: u32 = stream_word(src, w);
    let w1: u32 = if b + 2 <= 16 { 0u32 } else { stream_word(src, w + 1) };
    lemma_two_bits(bits_value(src, pos, 2), w0, w1, b);
}

/// Reads a loop count (see [`spec_get_loop`]). On failure the result is
/// `Error::Data`.
pub fn yj1_get_loop(src: &[u8], bitptr: &mut u32, header: &YJ1BlockHeader) -> (r: Result<
    u16,
    Error,
>)
    ensures
        match spec_get_loop(src@, *old(bitptr) as nat, *header) {
            Some((v, p)) => r == Ok::<u16, Error>(v) && *final(bitptr) == p,
            None => r == Err::<u16, Error>(Error::Data),
        },
{
    let flag: u32 = yj1_get_bits(src, bitptr, 1)?;
    if flag != 0 {
        return Ok(header.code_count_table[0] as u16);
    }
    proof {
        if bits_readable(src@, *bitptr as nat, 2) {
            lemma_selector_range(src@, *bitptr as nat);
        }
    }
    let sel: u32 = yj1_get_bits(src, bitptr, 2)?;
    if sel != 0 {
        let width: u32 = header.code_count_code_length_table[sel as usize - 1] as u32;
        let v: u32 = yj1_get_bits(src, bitptr, width)?;
        Ok((v % 0x10000) as u16)
    } else {
        Ok(header.code_count_table[1] as u16)
    }
}

/// Reads the length of one back reference (see [`spec_get_count`]). On
/// failure the result is `Error::Data`.
pub fn yj1_get_count(src: &[u8], bitptr: &mut u32, header: &YJ1BlockHeader) -> (r: Result<
    u16,
    Error,
>)
    ensures
        match spec_get_count(src@, *old(bitptr) as nat, *header) {
            Some((v, p)) => r == Ok::<u16, Error>(v) && *final(bitptr) == p,
            None => r == Err::<u16, Error>(Error::Data),
        },
{
    proof {
        if bits_readable(src@, *bitptr as nat, 2) {
            lemma_selector_range(src@, *bitptr as nat);
        }
    }
    let sel: u32 = yj1_get_bits(src, bitptr, 2)?;
    if sel != 0 {
        let escape: u32 = yj1_get_bits(src, bitptr, 1)?;
        if escape == 1 {
            let width: u32 = header.lzss_repeat_code_length_table[sel as usize - 1] as u32;
            let v: u32 = yj1_get_bits(src, bitptr, width)?;
            Ok((v % 0x10000) as u16)
        } else {
            Ok(header.lzss_repeat_table[sel as usize])
        }
    } else {
        Ok(header.lzss_repeat_table[0])
    }
}

/// Bytes that the leaf flags of a tree of `tree_len` nodes take: one bit per
/// node, in whole 16-bit words.
pub open spec fn flags_length(tree_len: nat) -> nat {
    2 * ((tree_len + 15) / 16)
}

/// Node `i` of the tree that `data` holds behind its fixed header. Node 0 is
/// the root, with children 1 and 2. Node `i > 0` takes its byte from
/// `data[15 + i]` and is a leaf where flag bit `i - 1` is clear; an inner
/// node with byte `v` has children `2 v + 1` and `2 v + 2`.
pub open spec fn spec_tree_node(data: Seq<u8>, tree_len: nat, i: int) -> YJ1TreeNode {
    if i == 0 {
        YJ1TreeNode { value: 0, leaf: false, left: Some(1usize), right: Some(2usize) }
    } else {
        let flags: Seq<u8> = data.subrange(HEADER_LENGTH + tree_len, data.len() as int);
        let value: u8 = data[15 + i];
        if bits_value(flags, (i - 1) as nat, 1) == 0 {
            YJ1TreeNode { value, leaf: true, left: None, right: None }
        } else {
            YJ1TreeNode {
                value,
                leaf: false,
                left: Some((2 * value + 1) as usize),
                right: Some((2 * value + 2) as usize),
            }
        }
    }
}

/// The whole tree: `tree_len + 1` nodes.
pub open spec fn spec_tree(data: Seq<u8>, tree_len: nat) -> Seq<YJ1TreeNode> {
    Seq::new(tree_len + 1, |i: int| spec_tree_node(data, tree_len, i))
}

/// Builds the tree of `tree_len` nodes (and the root) from `data`.
pub fn build_tree(data: &[u8], tree_len: usize) -> (tree: Vec<YJ1TreeNode>)
    requires
        tree_len <= 510,
        HEADER_LENGTH + tree_len + flags_length(tree_len as nat) <= data.len(),
    ensures
        tree@ == spec_tree(data@, tree_len as nat),
{
    let flags: &[u8] = &data[HEADER_LENGTH + tree_len..data.len()];
    let mut tree: Vec<YJ1TreeNode> = Vec::new();
    tree.push(YJ1TreeNode { value: 0, leaf: false, left: Some(1usize), right: Some(2usize) });
    let mut bitptr: u32 = 0;
    let mut i: usize = 1;
    while i <= tree_len
        invariant
            1 <= i <= tree_len + 1,
            tree_len <= 510,
            bitptr == i - 1,
            HEADER_LENGTH + tree_len + flags_length(tree_len as nat) <= data.len(),
            flags@ == data@.subrange(HEADER_LENGTH + tree_len, data.len() as int),
            tree@.len() == i,
            forall|k: int| 0 <= k < i ==> tree@[k] == spec_tree_node(data@, tree_len as nat, k),
        decreases tree_len + 1 - i,
    {
        assert(bits_readable(flags@, bitptr as nat, 1));
        let flag: u32 = match yj1_get_bits(flags, &mut bitptr, 1) {
            Ok(f) => f,
            Err(_) => 0,
        };
        let value: u8 = data[15 + i];
        let node = if flag == 0 {
            YJ1TreeNode { value, leaf: true, left: None, right: None }
        } else {
            let left: usize = 2 * (value as usize) + 1;
            YJ1TreeNode { value, leaf: false, left: Some(left), right: Some(left + 1) }
        };
        tree.push(node);
        i += 1;
    }
    assert(tree@ =~= spec_tree(data@, tree_len as nat));
    tree
}

/// Walking the tree from `node`, one bit per step (a set bit goes right),
/// until a leaf: the leaf's byte and the position after the walk. `None`
/// where the walk leaves the tree or the bits run out.
pub open spec fn spec_walk(src: Seq<u8>, pos: nat, tree: Seq<YJ1TreeNode>, node: int) -> Option<
    (u8, nat),
>
    decreases u32::MAX - pos,
{
    if !(0 <= node < tree.len()) {
        None
    } else if tree[node].leaf {
        Some((tree[node].value, pos))
    } else {
        match spec_get_bits(src, pos, 1) {
            None => None,
            Some((bit, p)) => {
                let next: Option<usize> = if bit != 0 {
                    tree[node].right
                } else {
                    tree[node].left
                };
                match next {
                    None => None,
                    Some(k) => spec_walk(src, p, tree, k as int),
                }
            },
        }
    }
}

/// Decodes one literal: a walk from the root.
pub fn huffman_decode(src: &[u8], bitptr: &mut u32, tree: &Vec<YJ1TreeNode>) -> (r: Result<
    u8,
    Error,
>)
    ensures
        match spec_walk(src@, *old(bitptr) as nat, tree@, 0) {
            Some((v, p)) => r == Ok::<u8, Error>(v) && *final(bitptr) == p,
            None => r == Err::<u8, Error>(Error::Data),
        },
{
    let ghost start: nat = *bitptr as nat;
    let mut node: usize = 0;
    loop
        invariant
            start == *old(bitptr),
            spec_walk(src@, *bitptr as nat, tree@, node as int) == spec_walk(src@, start, tree@, 0),
        decreases u32::MAX - *bitptr,
    {
        if node >= tree.len() {
            return Err(Error::Data);
        }
        if tree[node].leaf {
            return Ok(tree[node].value);
        }
        let bit: u32 = yj1_get_bits(src, bitptr, 1)?;
        let next: Option<usize> = if bit != 0 {
            tree[node].right
        } else {
            tree[node].left
        };
        match next {
            Some(k) => {
                node = k;
            },
            None => {
                return Err(Error::Data);
            },
        }
    }
}

/// A run of `n` literals appended to `out`, which may not grow beyond
/// `limit`.
pub open spec fn spec_literals(
    src: Seq<u8>,
    pos: nat,
    tree: Seq<YJ1TreeNode>,
    n: nat,
    out: Seq<u8>,
    limit: nat,
) -> Option<(Seq<u8>, nat)>
    decreases n,
{
    if n == 0 {
        Some((out, pos))
    } else {
        match spec_walk(src, pos, tree, 0) {
            None => None,
            Some((v, p)) => if out.len() >= limit {
                None
            } else {
                spec_literals(src, p, tree, (n - 1) as nat, out.push(v), limit)
            },
        }
    }
}

/// Decodes a run of `count` literals onto the end of `out`.
pub fn decode_literals(
    src: &[u8],
    bitptr: &mut u32,
    tree: &Vec<YJ1TreeNode>,
    count: u16,
    out: &mut Vec<u8>,
    limit: usize,
) -> (r: Result<(), Error>)
    ensures
        match spec_literals(
            src@,
            *old(bitptr) as nat,
            tree@,
            count as nat,
            old(out)@,
            limit as nat,
        ) {
            Some((o, p)) => r is Ok && final(out)@ == o && *final(bitptr) == p,
            None => r == Err::<(), Error>(Error::Data),
        },
{
    let ghost whole = spec_literals(
        src@,
        *bitptr as nat,
        tree@,
        count as nat,
        out@,
        limit as nat,
    );
    let mut i: u16 = 0;
    while i < count
        invariant
            i <= count,
            whole == spec_literals(
                src@,
                *old(bitptr) as nat,
                tree@,
                count as nat,
                old(out)@,
                limit as nat,
            ),
            spec_literals(src@, *bitptr as nat, tree@, (count - i) as nat, out@, limit as nat)
                == whole,
        decreases count - i,
    {
        let v: u8 = huffman_decode(src, bitptr, tree)?;
        if out.len() >= limit {
            return Err(Error::Data);
        }
        out.push(v);
        i += 1;
    }
    Ok(())
}

/// The byte that a back reference of distance `back` copies onto the end of
/// `out`: the byte `back` places before the end, zero for distance zero.
pub open spec fn referenced_byte(out: Seq<u8>, back: nat) -> u8 {
    if back == 0 {
        0u8
    } else {
        out[out.len() - back]
    }
}

/// `count` bytes appended to `out`, each the one `back` places before the end
/// at the moment it is written, so that a run may repeat bytes it has just
/// written. `None` where the distance reaches before the start of `out` or
/// `out` would grow beyond `limit`.
pub open spec fn spec_copy(out: Seq<u8>, back: nat, count: nat, limit: nat) -> Option<Seq<u8>>
    decreases count,
{
    if count == 0 {
        Some(out)
    } else if back > out.len() || out.len() >= limit {
        None
    } else {
        spec_copy(out.push(referenced_byte(out, back)), back, (count - 1) as nat, limit)
    }
}

/// Appends the bytes of one back reference to `out`, one by one.
pub fn copy_back(out: &mut Vec<u8>, back: u32, count: u16, limit: usize) -> (r: Result<
    (),
    Error,
>)
    ensures
        match spec_copy(old(out)@, back as nat, count as nat, limit as nat) {
            Some(o) => r is Ok && final(out)@ == o,
            None => r == Err::<(), Error>(Error::Data),
        },
{
    let ghost whole = spec_copy(out@, back as nat, count as nat, limit as nat);
    let mut i: u16 = 0;
    while i < count
        invariant
            i <= count,
            whole == spec_copy(old(out)@, back as nat, count as nat, limit as nat),
            spec_copy(out@, back as nat, (count - i) as nat, limit as nat) == whole,
        decreases count - i,
    {
        let len: usize = out.len();
        if back as usize > len || len >= limit {
            return Err(Error::Data);
        }
        let v: u8 = if back == 0 {
            0u8
        } else {
            out[len - back as usize]
        };
        out.push(v);
        i += 1;
    }
    Ok(())
}

/// A run of `n` back references: for each, a length (see
/// [`spec_get_count`]), a two-bit selector of the width of the distance, the
/// distance, and the copy.
pub open spec fn spec_matches(
    src: Seq<u8>,
    pos: nat,
    h: YJ1BlockHeader,
    n: nat,
    out: Seq<u8>,
    limit: nat,
) -> Option<(Seq<u8>, nat)>
    decreases n,
{
    if n == 0 {
        Some((out, pos))
    } else {
        match spec_get_count(src, pos, h) {
            None => None,
            Some((count, p1)) => match spec_get_bits(src, p1, 2) {
                None => None,
                Some((sel, p2)) => match spec_get_bits(
                    src,
                    p2,
                    h.lzss_offset_code_length_table[sel as int] as nat,
                ) {
                    None => None,
                    Some((back, p3)) => match spec_copy(out, back as nat, count as nat, limit) {
                        None => None,
                        Some(o) => spec_matches(src, p3, h, (n - 1) as nat, o, limit),
                    },
                },
            },
        }
    }
}

/// Decodes a run of `count` back references onto the end of `out`.
pub fn decode_matches(
    src: &[u8],
    bitptr: &mut u32,
    header: &YJ1BlockHeader,
    count: u16,
    out: &mut Vec<u8>,
    limit: usize,
) -> (r: Result<(), Error>)
    ensures
        match spec_matches(
            src@,
            *old(bitptr) as nat,
            *header,
            count as nat,
            old(out)@,
            limit as nat,
        ) {
            Some((o, p)) => r is Ok && final(out)@ == o && *final(bitptr) == p,
            None => r == Err::<(), Error>(Error::Data),
        },
{
    let ghost whole = spec_matches(
        src@,
        *bitptr as nat,
        *header,
        count as nat,
        out@,
        limit as nat,
    );
    let mut i: u16 = 0;
    while i < count
        invariant
            i <= count,
            whole == spec_matches(
                src@,
                *old(bitptr) as nat,
                *header,
                count as nat,
                old(out)@,
                limit as nat,
            ),
            spec_matches(src@, *bitptr as nat, *header, (count - i) as nat, out@, limit as nat)
                == whole,
        decreases count - i,
    {
        let length: u16 = yj1_get_count(src, bitptr, header)?;
        proof {
            if bits_readable(src@, *bitptr as nat, 2) {
                lemma_selector_range(src@, *bitptr as nat);
            }
        }
        let sel: u32 = yj1_get_bits(src, bitptr, 2)?;
        let width: u32 = header.lzss_offset_code_length_table[sel as usize] as u32;
        let back: u32 = yj1_get_bits(src, bitptr, width)?;
        copy_back(out, back, length, limit)?;
        i += 1;
    }
    Ok(())
}

/// A walk never moves the cursor back, nor past the end of its range.
pub proof fn lemma_walk_advances(src: Seq<u8>, pos: nat, tree: Seq<YJ1TreeNode>, node: int)
    ensures
        spec_walk(src, pos, tree, node) matches Some((_, p)) ==> pos <= p && (pos <= u32::MAX
            ==> p <= u32::MAX),
    decreases u32::MAX - pos,
{
    if 0 <= node < tree.len() && !tree[node].leaf {
        match spec_get_bits(src, pos, 1) {
            None => {},
            Some((bit, p)) => {
                let next: Option<usize> = if bit != 0 {
                    tree[node].right
                } else {
                    tree[node].left
                };
                match next {
                    None => {},
                    Some(k) => {
                        lemma_walk_advances(src, p, tree, k as int);
                    },
                }
            },
        }
    }
}

/// A run of literals never moves the cursor back, and appends exactly `n`
/// bytes.
pub proof fn lemma_literals_advance(
    src: Seq<u8>,
    pos: nat,
    tree: Seq<YJ1TreeNode>,
    n: nat,
    out: Seq<u8>,
    limit: nat,
)
    ensures
        spec_literals(src, pos, tree, n, out, limit) matches Some((o, p)) ==> pos <= p && (pos
            <= u32::MAX ==> p <= u32::MAX) && o.len() == out.len() + n && (o.len() <= limit
            || o.len() == out.len()) && o.subrange(0, out.len() as int) == out,
    decreases n,
{
    if n > 0 {
        lemma_walk_advances(src, pos, tree, 0);
        match spec_walk(src, pos, tree, 0) {
            None => {},
            Some((v, p)) => {
                if out.len() < limit {
                    lemma_literals_advance(src, p, tree, (n - 1) as nat, out.push(v), limit);
                    match spec_literals(src, p, tree, (n - 1) as nat, out.push(v), limit) {
                        None => {},
                        Some((o, _)) => {
                            assert(o.subrange(0, out.len() as int) =~= o.subrange(
                                0,
                                out.len() + 1 as int,
                            ).subrange(0, out.len() as int));
                            assert(out.push(v).subrange(0, out.len() as int) =~= out);
                        },
                    }
                }
            },
        }
    } else {
        assert(out.subrange(0, out.len() as int) =~= out);
    }
}

/// A back reference appends exactly `count` bytes and keeps what was there.
pub proof fn lemma_copy_extends(out: Seq<u8>, back: nat, count: nat, limit: nat)
    ensures
        spec_copy(out, back, count, limit) matches Some(o) ==> o.len() == out.len() + count
            && (o.len() <= limit || o.len() == out.len()) && o.subrange(0, out.len() as int)
            == out,
    decreases count,
{
    if count > 0 && back <= out.len() && out.len() < limit {
        let next: Seq<u8> = out.push(referenced_byte(out, back));
        lemma_copy_extends(next, back, (count - 1) as nat, limit);
        match spec_copy(next, back, (count - 1) as nat, limit) {
            None => {},
            Some(o) => {
                assert(o.subrange(0, out.len() as int) =~= o.subrange(0, out.len() + 1 as int).subrange(
                    0,
                    out.len() as int,
                ));
                assert(next.subrange(0, out.len() as int) =~= out);
            },
        }
    } else {
        assert(out.subrange(0, out.len() as int) =~= out);
    }
}

/// A run of back references never moves the cursor back, and keeps what was
/// in `out`.
pub proof fn lemma_matches_advance(
    src: Seq<u8>,
    pos: nat,
    h: YJ1BlockHeader,
    n: nat,
    out: Seq<u8>,
    limit: nat,
)
    ensures
        spec_matches(src, pos, h, n, out, limit) matches Some((o, p)) ==> pos <= p && (pos
            <= u32::MAX ==> p <= u32::MAX) && out.len() <= o.len() && (o.len() <= limit
            || o.len() == out.len()) && o.subrange(0, out.len() as int) == out,
    decreases n,
{
    if n > 0 {
        match spec_get_count(src, pos, h) {
            None => {},
            Some((count, p1)) => match spec_get_bits(src, p1, 2) {
                None => {},
                Some((sel, p2)) => match spec_get_bits(
                    src,
                    p2,
                    h.lzss_offset_code_length_table[sel as int] as nat,
                ) {
                    None => {},
                    Some((back, p3)) => {
                        lemma_copy_extends(out, back as nat, count as nat, limit);
                        match spec_copy(out, back as nat, count as nat, limit) {
                            None => {},
                            Some(o) => {
                                lemma_matches_advance(src, p3, h, (n - 1) as nat, o, limit);
                                match spec_matches(src, p3, h, (n - 1) as nat, o, limit) {
                                    None => {},
                                    Some((o2, _)) => {
                                        assert(o2.subrange(0, out.len() as int) =~= o2.subrange(
                                            0,
                                            o.len() as int,
                                        ).subrange(0, out.len() as int));
                                    },
                                }
                            },
                        }
                    },
                },
            },
        }
    } else {
        assert(out.subrange(0, out.len() as int) =~= out);
    }
}

/// The body of a compressed sub-block, read from `src` at `pos`: a loop
/// count and that many literals, then a loop count and that many back
/// references, again and again; a loop count of zero ends the sub-block.
pub open spec fn spec_block_body(
    src: Seq<u8>,
    pos: nat,
    tree: Seq<YJ1TreeNode>,
    h: YJ1BlockHeader,
    out: Seq<u8>,
    limit: nat,
) -> Option<Seq<u8>>
    decreases u32::MAX - pos,
    via block_body_decreases
{
    match spec_get_loop(src, pos, h) {
        None => None,
        Some((n1, p1)) => if n1 == 0 {
            Some(out)
        } else {
            match spec_literals(src, p1, tree, n1 as nat, out, limit) {
                None => None,
                Some((o2, p2)) => match spec_get_loop(src, p2, h) {
                    None => None,
                    Some((n2, p3)) => if n2 == 0 {
                        Some(o2)
                    } else {
                        match spec_matches(src, p3, h, n2 as nat, o2, limit) {
                            None => None,
                            Some((o3, p4)) => spec_block_body(src, p4, tree, h, o3, limit),
                        }
                    },
                },
            }
        },
    }
}

#[via_fn]
proof fn block_body_decreases(
    src: Seq<u8>,
    pos: nat,
    tree: Seq<YJ1TreeNode>,
    h: YJ1BlockHeader,
    out: Seq<u8>,
    limit: nat,
) {
    match spec_get_loop(src, pos, h) {
        None => {},
        Some((n1, p1)) => {
            if n1 != 0 {
                lemma_literals_advance(src, p1, tree, n1 as nat, out, limit);
                match spec_literals(src, p1, tree, n1 as nat, out, limit) {
                    None => {},
                    Some((o2, p2)) => match spec_get_loop(src, p2, h) {
                        None => {},
                        Some((n2, p3)) => {
                            if n2 != 0 {
                                lemma_matches_advance(src, p3, h, n2 as nat, o2, limit);
                            }
                        },
                    },
                }
            }
        },
    }
}

/// Decodes the body of a compressed sub-block onto the end of `out`.
pub fn decode_block(
    src: &[u8],
    tree: &Vec<YJ1TreeNode>,
    header: &YJ1BlockHeader,
    out: &mut Vec<u8>,
    limit: usize,
) -> (r: Result<(), Error>)
    ensures
        match spec_block_body(src@, 0, tree@, *header, old(out)@, limit as nat) {
            Some(o) => r is Ok && final(out)@ == o,
            None => r == Err::<(), Error>(Error::Data),
        },
{
    let ghost whole = spec_block_body(src@, 0, tree@, *header, out@, limit as nat);
    let mut bitptr: u32 = 0;
    loop
        invariant
            whole == spec_block_body(src@, 0, tree@, *header, old(out)@, limit as nat),
            spec_block_body(src@, bitptr as nat, tree@, *header, out@, limit as nat) == whole,
        decreases u32::MAX - bitptr,
    {
        let ghost p0: nat = bitptr as nat;
        let ghost o0: Seq<u8> = out@;
        let n1: u16 = yj1_get_loop(src, &mut bitptr, header)?;
        if n1 == 0 {
            return Ok(());
        }
        proof {
            lemma_literals_advance(src@, bitptr as nat, tree@, n1 as nat, out@, limit as nat);
        }
        decode_literals(src, &mut bitptr, tree, n1, out, limit)?;
        let ghost o2: Seq<u8> = out@;
        let n2: u16 = yj1_get_loop(src, &mut bitptr, header)?;
        if n2 == 0 {
            return Ok(());
        }
        proof {
            lemma_matches_advance(src@, bitptr as nat, *header, n2 as nat, out@, limit as nat);
        }
        decode_matches(src, &mut bitptr, header, n2, out, limit)?;
    }
}

/// The sub-block of `data` at `offset`, appended to `out`: the new output and
/// the offset of the next sub-block. A stored sub-block is a four-byte header
/// and its bytes; a compressed one is a 24-byte header and a bit stream that
/// the next sub-block follows after the compressed length the header gives.
#[verifier::opaque]
pub open spec fn spec_block(
    data: Seq<u8>,
    offset: nat,
    tree: Seq<YJ1TreeNode>,
    out: Seq<u8>,
    limit: nat,
) -> Option<(Seq<u8>, nat)> {
    if offset > data.len() || !has_block_header(data.subrange(offset as int, data.len() as int)) {
        None
    } else {
        let h: YJ1BlockHeader = spec_block_header(data.subrange(offset as int, data.len() as int));
        if h.compressed_length == 0 {
            let from: nat = offset + RAW_BLOCK_HEADER_LENGTH as nat;
            let to: nat = from + h.uncompressed_length as nat;
            if to > data.len() || out.len() + h.uncompressed_length > limit {
                None
            } else {
                Some((out + data.subrange(from as int, to as int), to))
            }
        } else {
            let from: nat = offset + BLOCK_HEADER_LENGTH as nat;
            match spec_block_body(
                data.subrange(from as int, data.len() as int),
                0,
                tree,
                h,
                out,
                limit,
            ) {
                None => None,
                Some(o) => Some((o, from + h.compressed_length as nat)),
            }
        }
    }
}

/// `n` sub-blocks of `data`, the first at `offset`, appended to `out`.
pub open spec fn spec_blocks(
    data: Seq<u8>,
    offset: nat,
    n: nat,
    tree: Seq<YJ1TreeNode>,
    out: Seq<u8>,
    limit: nat,
) -> Option<Seq<u8>>
    decreases n,
{
    if n == 0 {
        Some(out)
    } else {
        match spec_block(data, offset, tree, out, limit) {
            None => None,
            Some((o, next)) => spec_blocks(data, next, (n - 1) as nat, tree, o, limit),
        }
    }
}

/// What a compressed buffer decodes to.
///
/// A buffer shorter than the fixed header, or without the `YJ_1` signature,
/// is `Error::Format`. A header that announces no sub-block is
/// `Error::Data`, and so is anything that reaches outside the buffer, would
/// write beyond the uncompressed length the header gives, or ends short of
/// it. Otherwise the result is what the sub-blocks decode to, and has exactly
/// the uncompressed length.
pub open spec fn spec_decompress(data: Seq<u8>) -> Result<Seq<u8>, Error> {
    if data.len() < HEADER_LENGTH || data.subrange(0, 4) != signature() {
        Err(Error::Format)
    } else {
        let h: YJ1Header = spec_header(data);
        let tree_len: nat = 2 * (h.huffman_tree_length as nat);
        let start: nat = HEADER_LENGTH as nat + tree_len + flags_length(tree_len);
        if h.block_count == 0 || start > data.len() {
            Err(Error::Data)
        } else {
            match spec_blocks(
                data,
                start,
                h.block_count as nat,
                spec_tree(data, tree_len),
                Seq::empty(),
                h.uncompressed_length as nat,
            ) {
                None => Err(Error::Data),
                Some(out) => if out.len() == h.uncompressed_length {
                    Ok(out)
                } else {
                    Err(Error::Data)
                },
            }
        }
    }
}

/// The body of a sub-block keeps what was in `out` and never writes beyond
/// the limit.
pub proof fn lemma_block_body_bounded(
    src: Seq<u8>,
    pos: nat,
    tree: Seq<YJ1TreeNode>,
    h: YJ1BlockHeader,
    out: Seq<u8>,
    limit: nat,
)
    ensures
        spec_block_body(src, pos, tree, h, out, limit) matches Some(o) ==> out.len() <= o.len()
            && (o.len() <= limit || o.len() == out.len()),
    decreases u32::MAX - pos,
{
    match spec_get_loop(src, pos, h) {
        None => {},
        Some((n1, p1)) => {
            if n1 != 0 {
                lemma_literals_advance(src, p1, tree, n1 as nat, out, limit);
                match spec_literals(src, p1, tree, n1 as nat, out, limit) {
                    None => {},
                    Some((o2, p2)) => match spec_get_loop(src, p2, h) {
                        None => {},
                        Some((n2, p3)) => {
                            if n2 != 0 {
                                lemma_matches_advance(src, p3, h, n2 as nat, o2, limit);
                                match spec_matches(src, p3, h, n2 as nat, o2, limit) {
                                    None => {},
                                    Some((o3, p4)) => {
                                        lemma_block_body_bounded(src, p4, tree, h, o3, limit);
                                    },
                                }
                            }
                        },
                    },
                }
            }
        },
    }
}

/// Decodes the sub-block of `data` at `offset` onto the end of `out`, and
/// returns how far the next sub-block is from `offset`.
pub fn decode_sub_block(
    data: &[u8],
    offset: usize,
    tree: &Vec<YJ1TreeNode>,
    out: &mut Vec<u8>,
    limit: usize,
) -> (r: Result<usize, Error>)
    requires
        offset <= data.len(),
        old(out)@.len() <= limit,
    ensures
        match spec_block(data@, offset as nat, tree@, old(out)@, limit as nat) {
            Some((o, next)) => r is Ok && offset + r->Ok_0 == next && final(out)@ == o && o.len()
                <= limit,
            None => r == Err::<usize, Error>(Error::Data),
        },
{
    reveal(spec_block);
    let rest: &[u8] = &data[offset..data.len()];
    let block = match YJ1BlockHeader::from(rest) {
        Some(b) => b,
        None => {
            return Err(Error::Data);
        },
    };
    if block.compressed_length == 0 {
        let length: usize = block.uncompressed_length as usize;
        if rest.len() - RAW_BLOCK_HEADER_LENGTH < length || limit - out.len() < length {
            return Err(Error::Data);
        }
        let from: usize = offset + RAW_BLOCK_HEADER_LENGTH;
        out.extend_from_slice(&data[from..from + length]);
        Ok(RAW_BLOCK_HEADER_LENGTH + length)
    } else {
        let from: usize = offset + BLOCK_HEADER_LENGTH;
        proof {
            lemma_block_body_bounded(
                data@.subrange(from as int, data@.len() as int),
                0,
                tree@,
                block,
                out@,
                limit as nat,
            );
        }
        decode_block(&data[from..data.len()], tree, &block, out, limit)?;
        Ok(BLOCK_HEADER_LENGTH + block.compressed_length as usize)
    }
}

/// Decodes `count` sub-blocks of `data`, the first at `start`.
pub fn decode_blocks(
    data: &[u8],
    start: usize,
    count: u16,
    tree: &Vec<YJ1TreeNode>,
    limit: usize,
) -> (r: Result<Vec<u8>, Error>)
    requires
        start <= data.len(),
    ensures
        match spec_blocks(data@, start as nat, count as nat, tree@, Seq::empty(), limit as nat) {
            Some(o) => r is Ok && r->Ok_0@ == o && o.len() <= limit,
            None => r == Err::<Vec<u8>, Error>(Error::Data),
        },
{
    let mut out: Vec<u8> = Vec::new();
    let mut offset: usize = start;
    let mut i: u16 = 0;
    let ghost whole = spec_blocks(
        data@,
        start as nat,
        count as nat,
        tree@,
        Seq::empty(),
        limit as nat,
    );
    while i < count
        invariant
            i <= count,
            offset <= data.len(),
            out@.len() <= limit,
            whole == spec_blocks(
                data@,
                start as nat,
                count as nat,
                tree@,
                Seq::empty(),
                limit as nat,
            ),
            i < count ==> spec_blocks(
                data@,
                offset as nat,
                (count - i) as nat,
                tree@,
                out@,
                limit as nat,
            ) == whole,
            i == count ==> whole == Some(out@),
        decreases count - i,
    {
        let step: usize = decode_sub_block(data, offset, tree, &mut out, limit)?;
        i += 1;
        proof {
            let next: nat = (offset + step) as nat;
            let rest: nat = (count - i) as nat;
            assert(spec_blocks(data@, next, rest, tree@, out@, limit as nat) == whole);
            if next > data@.len() && rest > 0 {
                reveal(spec_block);
                assert(spec_block(data@, next, tree@, out@, limit as nat) is None);
            }
        }
        if step > data.len() - offset {
            // The next sub-block would start beyond the end of the buffer.
            if i < count {
                return Err(Error::Data);
            }
        } else {
            offset += step;
        }
    }
    Ok(out)
}

/// Decompresses a `YJ_1` buffer (see [`spec_decompress`]).
pub fn decompress(data: Vec<u8>) -> (r: Result<Vec<u8>, Error>)
    ensures
        bytes_of(r) == spec_decompress(data@),
{
    let bytes: &[u8] = data.as_slice();
    let header = match YJ1Header::from(bytes) {
        Some(h) => h,
        None => {
            return Err(Error::Format);
        },
    };
    assert(spec_header(data@).signature@ =~= data@.subrange(0, 4));
    if !header.is_signed() {
        return Err(Error::Format);
    }
    let limit: usize = header.uncompressed_length as usize;
    let tree_len: usize = header.huffman_tree_length as usize * 2;
    let flags_len: usize = 2 * ((tree_len + 15) / 16);
    let start: usize = HEADER_LENGTH + tree_len + flags_len;
    if header.block_count == 0 || start > bytes.len() {
        return Err(Error::Data);
    }
    let tree: Vec<YJ1TreeNode> = build_tree(bytes, tree_len);
    let out: Vec<u8> = decode_blocks(bytes, start, header.block_count, &tree, limit)?;
    if out.len() != limit {
        return Err(Error::Data);
    }
    Ok(out)
}

/// Whether `data` is a compressed buffer that holds `payload` as its one
/// sub-block, stored: the signature, a tree of any length with its flags,
/// the uncompressed length and a block count of one in the header, then the
/// four-byte header of a stored sub-block and the payload itself.
pub open spec fn holds_stored(data: Seq<u8>, payload: Seq<u8>) -> bool {
    let tree_len: nat = 2 * (data[15] as nat);
    let start: nat = HEADER_LENGTH as nat + tree_len + flags_length(tree_len);
    &&& payload.len() <= 0xffff
    &&& data.len() == start + RAW_BLOCK_HEADER_LENGTH + payload.len()
    &&& data.subrange(0, 4) == signature()
    &&& le32(data, 4) == payload.len()
    &&& le16(data, 12) == 1
    &&& le16(data, start as int) == payload.len()
    &&& le16(data, start as int + 2) == 0
    &&& data.subrange(start + RAW_BLOCK_HEADER_LENGTH, data.len() as int) == payload
}

/// A buffer that holds a payload as its one stored sub-block decompresses to
/// that payload.
pub proof fn lemma_stored_round_trip(data: Seq<u8>, payload: Seq<u8>)
    requires
        holds_stored(data, payload),
    ensures
        spec_decompress(data) == Ok::<Seq<u8>, Error>(payload),
{
    reveal(spec_block);
    let h: YJ1Header = spec_header(data);
    let tree_len: nat = 2 * (h.huffman_tree_length as nat);
    let start: nat = HEADER_LENGTH as nat + tree_len + flags_length(tree_len);
    let tree: Seq<YJ1TreeNode> = spec_tree(data, tree_len);
    let rest: Seq<u8> = data.subrange(start as int, data.len() as int);
    let limit: nat = payload.len();
    assert(le16(rest, 0) == le16(data, start as int));
    assert(le16(rest, 2) == le16(data, start as int + 2));
    assert(has_block_header(rest));
    let first = spec_block(data, start, tree, Seq::empty(), limit);
    let from: nat = start + RAW_BLOCK_HEADER_LENGTH as nat;
    assert(Seq::<u8>::empty() + data.subrange(from as int, data.len() as int) =~= payload);
    assert(first == Some((payload, data.len())));
    assert(spec_blocks(data, data.len(), 0, tree, payload, limit) == Some(payload));
    assert(spec_blocks(data, start, 1, tree, Seq::empty(), limit) == Some(payload));
}

/// How decompression can fail, and what it yields where it does not.
///
/// The only errors are `Error::Format` and `Error::Data`. A buffer shorter
/// than the fixed header, or one that does not start with the signature, is
/// `Error::Format`. A signed header that announces no sub-block is
/// `Error::Data`. A result has exactly the uncompressed length that the
/// header gives.
pub proof fn lemma_decompress_outcomes(data: Seq<u8>)
    ensures
        spec_decompress(data) matches Err(e) ==> e == Error::Format || e == Error::Data,
        data.len() < HEADER_LENGTH ==> spec_decompress(data) == Err::<Seq<u8>, Error>(
            Error::Format,
        ),
        data.len() >= 4 && data.subrange(0, 4) != signature() ==> spec_decompress(data) == Err::<
            Seq<u8>,
            Error,
        >(Error::Format),
        data.len() >= HEADER_LENGTH && data.subrange(0, 4) == signature() && le16(data, 12) == 0
            ==> spec_decompress(data) == Err::<Seq<u8>, Error>(Error::Data),
        spec_decompress(data) matches Ok(out) ==> out.len() == le32(data, 4),
{
}

/// A buffer that holds nothing but zeros behind its first four bytes is
/// rejected, whatever those four bytes are: without the signature, or
/// shorter than the fixed header, it is `Error::Format`; with the signature
/// it announces no sub-block and is `Error::Data`.
pub proof fn lemma_zeros_rejected(data: Seq<u8>)
    requires
        forall|i: int| 4 <= i < data.len() ==> data[i] == 0,
    ensures
        spec_decompress(data) is Err,
        data.len() >= HEADER_LENGTH && data.subrange(0, 4) == signature() ==> spec_decompress(data)
            == Err::<Seq<u8>, Error>(Error::Data),
        !(data.len() >= HEADER_LENGTH && data.subrange(0, 4) == signature()) ==> spec_decompress(
            data,
        ) == Err::<Seq<u8>, Error>(Error::Format),
{
    if data.len() >= HEADER_LENGTH {
        assert(data[12] == 0 && data[13] == 0);
        assert(le16(data, 12) == 0);
    }
}

/// A truncated buffer is rejected: every proper prefix of a buffer that
/// holds a payload as its one stored sub-block is an error.
pub proof fn lemma_truncated_rejected(data: Seq<u8>, payload: Seq<u8>, n: int)
    requires
        holds_stored(data, payload),
        0 <= n < data.len(),
    ensures
        spec_decompress(data.subrange(0, n)) is Err,
{
    reveal(spec_block);
    let cut: Seq<u8> = data.subrange(0, n);
    if n >= HEADER_LENGTH {
        assert(cut.subrange(0, 4) =~= data.subrange(0, 4));
        let h: YJ1Header = spec_header(cut);
        assert(h.huffman_tree_length == data[15]);
        assert(le16(cut, 12) == le16(data, 12));
        assert(le32(cut, 4) == le32(data, 4));
        let tree_len: nat = 2 * (h.huffman_tree_length as nat);
        let start: nat = HEADER_LENGTH as nat + tree_len + flags_length(tree_len);
        if start <= cut.len() {
            let tree: Seq<YJ1TreeNode> = spec_tree(cut, tree_len);
            let rest: Seq<u8> = cut.subrange(start as int, cut.len() as int);
            if has_block_header(rest) {
                assert(le16(rest, 0) == le16(data, start as int));
                assert(le16(rest, 2) == le16(data, start as int + 2));
                assert(spec_block(cut, start, tree, Seq::empty(), payload.len()) is None);
            }
            assert(spec_blocks(cut, start, 1, tree, Seq::empty(), payload.len()) is None);
        }
    }
}

} // verus!
