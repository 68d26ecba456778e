//! The animation codec: an opcode stream that patches a frame buffer in units
//! of two bytes.

use vstd::prelude::*;
use crate::bytes::{le16, read_u16};
use crate::error::Error;

verus! {

/// `dst` with the two bytes `a`, `b` written at `at`.
pub open spec fn put_unit(dst: Seq<u8>, at: int, a: u8, b: u8) -> Seq<u8> {
    dst.update(at, a).update(at + 1, b)
}

/// A run of `n` units written to `dst` from `dst_ptr` on. Each unit is the
/// two bytes of `src` at the source position, which moves on by `step` after
/// every unit: by two for a run of literal units, not at all for a run that
/// repeats one unit. The run stops, and reports `false`, at the first unit
/// that does not lie inside `dst` or whose source does not lie inside `src`;
/// the units before it stay written.
pub open spec fn spec_run(
    src: Seq<u8>,
    ptr: nat,
    dst: Seq<u8>,
    dst_ptr: nat,
    n: nat,
    step: nat,
) -> (Seq<u8>, bool)
    decreases n,
{
    if n == 0 {
        (dst, true)
    } else if dst_ptr + 2 > dst.len() || ptr + 2 > src.len() {
        (dst, false)
    } else {
        spec_run(
            src,
            ptr + step,
            put_unit(dst, dst_ptr as int, src[ptr as int], src[ptr as int + 1]),
            dst_ptr + 2,
            (n - 1) as nat,
            step,
        )
    }
}

/// How many bytes of operand an opcode reads before anything else: the width
/// of its skip or repeat count.
pub open spec fn operand_width(op: u8) -> nat {
    if op == 0x03 || op == 0x0b || op == 0x11 {
        1
    } else if op == 0x04 || op == 0x0c || op == 0x12 {
        2
    } else {
        0
    }
}

/// The operand of the opcode at `ptr`: one byte, or two bytes little-endian.
pub open spec fn operand(src: Seq<u8>, ptr: nat) -> nat {
    if operand_width(src[ptr as int]) == 1 {
        src[ptr as int + 1] as nat
    } else if operand_width(src[ptr as int]) == 2 {
        le16(src, ptr as int + 1) as nat
    } else {
        0
    }
}

/// How many units an opcode skips in the destination without writing.
pub open spec fn skipped_units(src: Seq<u8>, ptr: nat) -> nat {
    let op: u8 = src[ptr as int];
    if op == 0x02 {
        1
    } else if op == 0x03 || op == 0x04 {
        operand(src, ptr) + 1
    } else {
        0
    }
}

/// How many units an opcode writes.
pub open spec fn written_units(src: Seq<u8>, ptr: nat) -> nat {
    let op: u8 = src[ptr as int];
    if 0x06 <= op <= 0x0a {
        (op - 0x05) as nat
    } else if 0x0d <= op <= 0x10 {
        (op - 0x0b) as nat
    } else if op == 0x0b || op == 0x0c || op == 0x11 || op == 0x12 {
        operand(src, ptr) + 1
    } else {
        0
    }
}

/// Whether the units an opcode writes repeat one source unit (otherwise each
/// has its own).
pub open spec fn repeats(op: u8) -> bool {
    0x0d <= op <= 0x12
}

/// Whether `op` is an opcode of the format.
pub open spec fn known_opcode(op: u8) -> bool {
    op <= 0x13
}

/// Whether `op` ends the stream.
pub open spec fn terminates(op: u8) -> bool {
    op == 0x00 || op == 0x13
}

/// The bytes of source that an opcode with its operand and its units takes,
/// the opcode byte included.
pub open spec fn opcode_length(src: Seq<u8>, ptr: nat) -> nat {
    let op: u8 = src[ptr as int];
    1 + operand_width(op) + (if repeats(op) {
        2
    } else {
        2 * written_units(src, ptr)
    })
}

/// Running the opcode stream `src` from `ptr` on, with the destination
/// cursor at `dst_ptr`: the destination afterwards and how the run ended.
///
/// The stream ends at a terminating opcode or at the end of `src`. An
/// unknown opcode is `Error::Format`. An operand that does not lie inside
/// `src`, or a unit that cannot be read or written (see [`spec_run`]), is
/// `Error::Data`. In both cases what was written before stays written.
pub open spec fn spec_decode_rng(src: Seq<u8>, ptr: nat, dst: Seq<u8>, dst_ptr: nat) -> (
    Seq<u8>,
    Result<(), Error>,
)
    decreases src.len() - ptr,
    via decode_rng_decreases
{
    if ptr >= src.len() {
        (dst, Ok(()))
    } else {
        let op: u8 = src[ptr as int];
        if terminates(op) {
            (dst, Ok(()))
        } else if !known_opcode(op) {
            (dst, Err(Error::Format))
        } else if ptr + 1 + operand_width(op) > src.len() {
            (dst, Err(Error::Data))
        } else {
            let from: nat = ptr + 1 + operand_width(op);
            let at: nat = dst_ptr + 2 * skipped_units(src, ptr);
            let n: nat = written_units(src, ptr);
            let step: nat = if repeats(op) {
                0
            } else {
                2
            };
            let (written, complete) = spec_run(src, from, dst, at, n, step);
            if complete {
                spec_decode_rng(src, ptr + opcode_length(src, ptr), written, at + 2 * n)
            } else {
                (written, Err(Error::Data))
            }
        }
    }
}

#[via_fn]
proof fn decode_rng_decreases(src: Seq<u8>, ptr: nat, dst: Seq<u8>, dst_ptr: nat) {
    if ptr < src.len() {
        let op: u8 = src[ptr as int];
        if !terminates(op) && known_opcode(op) && ptr + 1 + operand_width(op) <= src.len() {
            lemma_opcode_stays_inside(src, ptr, dst, dst_ptr);
        }
    }
}

/// An opcode whose units were all written lies inside `src`.
pub proof fn lemma_opcode_stays_inside(src: Seq<u8>, ptr: nat, dst: Seq<u8>, dst_ptr: nat)
    requires
        ptr < src.len(),
        known_opcode(src[ptr as int]),
        ptr + 1 + operand_width(src[ptr as int]) <= src.len(),
    ensures
        spec_run(
            src,
            ptr + 1 + operand_width(src[ptr as int]),
            dst,
            dst_ptr + 2 * skipped_units(src, ptr),
            written_units(src, ptr),
            if repeats(src[ptr as int]) {
                0
            } else {
                2
            },
        ).1 ==> ptr + opcode_length(src, ptr) <= src.len() && (repeats(src[ptr as int])
            ==> written_units(src, ptr) > 0),
{
    let op: u8 = src[ptr as int];
    let n: nat = written_units(src, ptr);
    let step: nat = if repeats(op) {
        0
    } else {
        2
    };
    lemma_run_stays_inside(
        src,
        ptr + 1 + operand_width(op),
        dst,
        dst_ptr + 2 * skipped_units(src, ptr),
        n,
        step,
    );
    if n > 0 {
        if step == 2 {
            assert(step * (n - 1) == 2 * n - 2) by (nonlinear_arith)
                requires
                    step == 2,
            ;
        } else {
            assert(step * (n - 1) == 0) by (nonlinear_arith)
                requires
                    step == 0,
            ;
        }
    }
}

/// Writes a run of `n` units (see [`spec_run`]) and says whether the run is
/// complete.
pub fn write_run(src: &[u8], ptr: usize, dst: &mut [u8], dst_ptr: u128, n: usize, step: usize) -> (complete:
    bool)
    requires
        ptr <= src.len(),
        n <= 65536,
        step <= 2,
        dst_ptr <= u128::MAX - 262144,
    ensures
        (final(dst)@, complete) == spec_run(
            src@,
            ptr as nat,
            old(dst)@,
            dst_ptr as nat,
            n as nat,
            step as nat,
        ),
        final(dst)@.len() == old(dst)@.len(),
{
    let ghost whole = spec_run(src@, ptr as nat, dst@, dst_ptr as nat, n as nat, step as nat);
    let mut k: usize = 0;
    let mut from: usize = ptr;
    let mut to: u128 = dst_ptr;
    while k < n
        invariant
            k <= n <= 65536,
            step <= 2,
            from <= src.len(),
            to == dst_ptr + 2 * k,
            dst_ptr <= u128::MAX - 262144,
            dst@.len() == old(dst)@.len(),
            whole == spec_run(
                src@,
                ptr as nat,
                old(dst)@,
                dst_ptr as nat,
                n as nat,
                step as nat,
            ),
            spec_run(src@, from as nat, dst@, to as nat, (n - k) as nat, step as nat) == whole,
        decreases n - k,
    {
        if dst.len() < 2 || to > (dst.len() - 2) as u128 || src.len() - from < 2 {
            return false;
        }
        let at: usize = to as usize;
        dst[at] = src[from];
        dst[at + 1] = src[from + 1];
        from += step;
        to += 2;
        k += 1;
    }
    true
}

/// Applies the opcode stream `src` to the frame buffer `dst` (see
/// [`spec_decode_rng`]).
pub fn decode_rng(src: &[u8], dst: &mut [u8]) -> (r: Result<(), Error>)
    ensures
        (final(dst)@, r) == spec_decode_rng(src@, 0, old(dst)@, 0),
        final(dst)@.len() == old(dst)@.len(),
{
    let ghost whole = spec_decode_rng(src@, 0, dst@, 0);
    let mut ptr: usize = 0;
    let mut dst_ptr: u128 = 0;
    while ptr < src.len()
        invariant
            ptr <= src.len(),
            dst_ptr <= 131072 * ptr,
            dst@.len() == old(dst)@.len(),
            whole == spec_decode_rng(src@, 0, old(dst)@, 0),
            spec_decode_rng(src@, ptr as nat, dst@, dst_ptr as nat) == whole,
        decreases src.len() - ptr,
    {
        let op: u8 = src[ptr];
        if op == 0x00 || op == 0x13 {
            return Ok(());
        }
        if op > 0x13 {
            return Err(Error::Format);
        }
        let width: usize = if op == 0x03 || op == 0x0b || op == 0x11 {
            1
        } else if op == 0x04 || op == 0x0c || op == 0x12 {
            2
        } else {
            0
        };
        if src.len() - ptr - 1 < width {
            return Err(Error::Data);
        }
        let value: usize = if width == 1 {
            src[ptr + 1] as usize
        } else if width == 2 {
            read_u16(src, ptr + 1) as usize
        } else {
            0
        };
        let skipped: usize = if op == 0x02 {
            1
        } else if op == 0x03 || op == 0x04 {
            value + 1
        } else {
            0
        };
        let n: usize = if 0x06 <= op && op <= 0x0a {
            (op - 0x05) as usize
        } else if 0x0d <= op && op <= 0x10 {
            (op - 0x0b) as usize
        } else if op == 0x0b || op == 0x0c || op == 0x11 || op == 0x12 {
            value + 1
        } else {
            0
        };
        let repeat: bool = 0x0d <= op;
        let from: usize = ptr + 1 + width;
        let at: u128 = dst_ptr + 2 * (skipped as u128);
        let step: usize = if repeat {
            0
        } else {
            2
        };
        proof {
            lemma_opcode_stays_inside(src@, ptr as nat, dst@, dst_ptr as nat);
        }
        let complete: bool = write_run(src, from, dst, at, n, step);
        if !complete {
            return Err(Error::Data);
        }
        let length: usize = 1 + width + (if repeat {
            2
        } else {
            2 * n
        });
        dst_ptr = at + 2 * (n as u128);
        ptr += length;
    }
    Ok(())
}

/// A complete run has read all its units inside `src`.
pub proof fn lemma_run_stays_inside(
    src: Seq<u8>,
    ptr: nat,
    dst: Seq<u8>,
    dst_ptr: nat,
    n: nat,
    step: nat,
)
    requires
        ptr <= src.len(),
    ensures
        spec_run(src, ptr, dst, dst_ptr, n, step).1 && n > 0 ==> ptr + 2 + step * (n - 1)
            <= src.len(),
    decreases n,
{
    if n > 0 && dst_ptr + 2 <= dst.len() && ptr + 2 <= src.len() {
        let next: Seq<u8> = put_unit(dst, dst_ptr as int, src[ptr as int], src[ptr as int + 1]);
        if n > 1 && spec_run(src, ptr + step, next, dst_ptr + 2, (n - 1) as nat, step).1 {
            lemma_run_stays_inside(src, ptr + step, next, dst_ptr + 2, (n - 1) as nat, step);
            assert(step * (n - 1) == step + step * (n - 2)) by (nonlinear_arith);
        } else if n == 1 {
            assert(step * 0 == 0) by (nonlinear_arith);
        }
    }
}

/// An unknown opcode ends the run with `Error::Format` wherever the stream
/// reaches it, whatever has been written until then, and nothing more is
/// written.
pub proof fn lemma_unknown_opcode(src: Seq<u8>, ptr: nat, dst: Seq<u8>, dst_ptr: nat)
    requires
        ptr < src.len(),
        !known_opcode(src[ptr as int]),
    ensures
        spec_decode_rng(src, ptr, dst, dst_ptr) == (dst, Err::<(), Error>(Error::Format)),
{
}

/// A run ends with `Error::Format` only at an unknown opcode: the stream
/// holds one at or behind the position the run starts from.
pub proof fn lemma_format_error_names_opcode(src: Seq<u8>, ptr: nat, dst: Seq<u8>, dst_ptr: nat)
    requires
        spec_decode_rng(src, ptr, dst, dst_ptr).1 == Err::<(), Error>(Error::Format),
    ensures
        exists|q: int| ptr <= q < src.len() && !known_opcode(#[trigger] src[q]),
    decreases src.len() - ptr,
{
    let op: u8 = src[ptr as int];
    if known_opcode(op) {
        let from: nat = ptr + 1 + operand_width(op);
        let at: nat = dst_ptr + 2 * skipped_units(src, ptr);
        let n: nat = written_units(src, ptr);
        let step: nat = if repeats(op) {
            0
        } else {
            2
        };
        let written: Seq<u8> = spec_run(src, from, dst, at, n, step).0;
        lemma_opcode_stays_inside(src, ptr, dst, dst_ptr);
        lemma_format_error_names_opcode(src, ptr + opcode_length(src, ptr), written, at + 2 * n);
    } else {
        assert(!known_opcode(src[ptr as int]));
    }
}

} // verus!
