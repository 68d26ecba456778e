//! Small shared types: directions, positions, rectangles, and the bit
//! reversal that font bitmaps need.

use vstd::prelude::*;

verus! {

/// A direction on the map.
#[derive(Debug, PartialEq, Eq, Clone, Copy, Structural)]
pub enum Dir {
    South,
    West,
    North,
    East,
    Unknown,
}

impl Dir {
    /// The direction with the given number; `Unknown` for a number above
    /// three.
    pub open spec fn spec_from_u8(n: u8) -> Dir {
        if n == 0 {
            Dir::South
        } else if n == 1 {
            Dir::West
        } else if n == 2 {
            Dir::North
        } else if n == 3 {
            Dir::East
        } else {
            Dir::Unknown
        }
    }

    /// The number of the direction: zero to three, four for `Unknown`.
    pub open spec fn spec_index(self) -> nat {
        match self {
            Dir::South => 0,
            Dir::West => 1,
            Dir::North => 2,
            Dir::East => 3,
            Dir::Unknown => 4,
        }
    }

    /// The direction with the given number.
    pub fn from_u8(n: u8) -> (d: Dir)
        ensures
            d == Dir::spec_from_u8(n),
            n <= 3 ==> d.spec_index() == n,
    {
        match n {
            0 => Dir::South,
            1 => Dir::West,
            2 => Dir::North,
            3 => Dir::East,
            _ => Dir::Unknown,
        }
    }

    /// The number of the direction.
    pub fn index(self) -> (n: usize)
        ensures
            n == self.spec_index(),
    {
        match self {
            Dir::South => 0,
            Dir::West => 1,
            Dir::North => 2,
            Dir::East => 3,
            Dir::Unknown => 4,
        }
    }
}

/// A position in pixels.
#[derive(Debug, Clone, Copy, PartialEq, Eq, Structural)]
pub struct Pos {
    pub x: isize,
    pub y: isize,
}

/// A rectangle in pixels.
#[derive(Debug, Clone, Copy, PartialEq, Eq, Structural)]
pub struct Rect {
    pub x: isize,
    pub y: isize,
    pub w: usize,
    pub h: usize,
}

/// Bit `i` of a byte, counted from the least significant.
pub open spec fn bit_of(byte: u8, i: u8) -> u8 {
    (byte >> i) & 1
}

/// The byte with the bits of `byte` in reverse order.
pub open spec fn spec_reverse_bits(byte: u8) -> u8 {
    ((byte & 0x01) << 7) | ((byte & 0x02) << 5) | ((byte & 0x04) << 3) | ((byte & 0x08) << 1) | ((
    byte & 0x10) >> 1) | ((byte & 0x20) >> 3) | ((byte & 0x40) >> 5) | ((byte & 0x80) >> 7)
}

/// Reverses the order of the bits of a byte: bit `i` of the result is bit
/// `7 - i` of `byte`.
pub fn reverse_bits(byte: u8) -> (r: u8)
    ensures
        r == spec_reverse_bits(byte),
        forall|i: u8| i < 8 ==> #[trigger] bit_of(r, i) == bit_of(byte, (7 - i) as u8),
{
    let a: u8 = (byte & 0xF0) >> 4 | (byte & 0x0F) << 4;
    let b: u8 = (a & 0xCC) >> 2 | (a & 0x33) << 2;
    let c: u8 = (b & 0xAA) >> 1 | (b & 0x55) << 1;
    assert(c == spec_reverse_bits(byte)) by (bit_vector)
        requires
            a == (byte & 0xF0) >> 4 | (byte & 0x0F) << 4,
            b == (a & 0xCC) >> 2 | (a & 0x33) << 2,
            c == (b & 0xAA) >> 1 | (b & 0x55) << 1,
    ;
    proof {
        lemma_reverse_bits(byte);
    }
    c
}

/// Bit `i` of the reversed byte is bit `7 - i` of the byte, and reversing
/// twice gives the byte back.
pub proof fn lemma_reverse_bits(byte: u8)
    ensures
        forall|i: u8| i < 8 ==> #[trigger] bit_of(spec_reverse_bits(byte), i) == bit_of(
            byte,
            (7 - i) as u8,
        ),
        spec_reverse_bits(spec_reverse_bits(byte)) == byte,
{
    assert forall|i: u8| i < 8 implies #[trigger] bit_of(spec_reverse_bits(byte), i) == bit_of(
        byte,
        (7 - i) as u8,
    ) by {
        lemma_reversed_bit(byte, i);
    }
    lemma_reverse_twice(byte);
}

proof fn lemma_reversed_bit(byte: u8, i: u8)
    by (bit_vector)
    requires
        i < 8,
    ensures
        (((((byte & 0x01) << 7) | ((byte & 0x02) << 5) | ((byte & 0x04) << 3) | ((byte & 0x08)
            << 1) | ((byte & 0x10) >> 1) | ((byte & 0x20) >> 3) | ((byte & 0x40) >> 5) | ((byte
            & 0x80) >> 7)) as u8) >> i) & 1 == (byte >> ((7 - i) as u8)) & 1,
{
}

proof fn lemma_reverse_twice(byte: u8)
    by (bit_vector)
    ensures
        spec_reverse_bits(spec_reverse_bits(byte)) == byte,
{
}

} // verus!
