//! The chunked archive container: a table of little-endian 32-bit offsets at
//! the start of the file, chunk `i` lying between offset `i` and offset
//! `i + 1`.

use vstd::prelude::*;
use crate::bytes::{bytes_of, le32, read_u32};
use crate::error::Error;
use crate::mkf::decompress::{decompress, spec_decompress};

pub mod decompress;

verus! {

/// The number of chunks an archive file announces in its first four bytes,
/// which hold the size of the offset table: `4 * (count + 1)`.
///
/// `Error::Io`: the file ends before them. `Error::Format`: they say less
/// than four.
pub open spec fn spec_chunk_count(file: Seq<u8>) -> Result<nat, Error> {
    if file.len() < 4 {
        Err(Error::Io)
    } else if le32(file, 0) < 4 {
        Err(Error::Format)
    } else {
        Ok(((le32(file, 0) - 4) / 4) as nat)
    }
}

/// Entry `i` of the offset table that starts at `base`.
pub open spec fn table_entry(file: Seq<u8>, base: nat, i: nat) -> nat {
    le32(file, (base + 4 * i) as int) as nat
}

/// Where chunk `index` starts and where the next one starts.
///
/// `Error::Index`: there is no chunk `index`. `Error::Io`: the file ends
/// before the two table entries. `Error::Data`: the chunk is empty, or ends
/// before it starts.
pub open spec fn spec_chunk_span(file: Seq<u8>, index: nat) -> Result<(nat, nat), Error> {
    match spec_chunk_count(file) {
        Err(e) => Err(e),
        Ok(count) => {
            if index >= count {
                Err(Error::Index)
            } else if 4 * index + 8 > file.len() {
                Err(Error::Io)
            } else if table_entry(file, 0, index + 1) <= table_entry(file, 0, index) {
                Err(Error::Data)
            } else {
                Ok((table_entry(file, 0, index), table_entry(file, 0, index + 1)))
            }
        },
    }
}

/// The bytes of chunk `index`. `Error::Io` where the chunk reaches beyond the
/// end of the file; the other errors are those of [`spec_chunk_span`].
pub open spec fn spec_read_chunk(file: Seq<u8>, index: nat) -> Result<Seq<u8>, Error> {
    match spec_chunk_span(file, index) {
        Err(e) => Err(e),
        Ok((from, to)) => {
            if to > file.len() {
                Err(Error::Io)
            } else {
                Ok(file.subrange(from as int, to as int))
            }
        },
    }
}

/// Chunk `index`, decompressed.
pub open spec fn spec_read_chunk_decompressed(file: Seq<u8>, index: nat) -> Result<
    Seq<u8>,
    Error,
> {
    match spec_read_chunk(file, index) {
        Err(e) => Err(e),
        Ok(chunk) => spec_decompress(chunk),
    }
}

/// The number of sub-chunks of chunk `index`, which starts with an offset
/// table of its own, laid out like that of the file.
///
/// `Error::Io`: the file ends before the first four bytes of the chunk.
/// `Error::Format`: they say less than four. The other errors are those of
/// [`spec_chunk_span`].
pub open spec fn spec_sub_count(file: Seq<u8>, index: nat) -> Result<nat, Error> {
    match spec_chunk_span(file, index) {
        Err(e) => Err(e),
        Ok((from, _)) => {
            if from + 4 > file.len() {
                Err(Error::Io)
            } else if le32(file, from as int) < 4 {
                Err(Error::Format)
            } else {
                Ok(((le32(file, from as int) - 4) / 4) as nat)
            }
        },
    }
}

/// Sub-chunk `sub` of chunk `index`, decompressed. Its offsets count from the
/// start of the chunk. A sub-chunk of no bytes is empty and not decompressed.
///
/// `Error::Index`: the chunk has no sub-chunk `sub`. `Error::Io`: the file
/// ends before the two table entries or before the end of the sub-chunk.
/// `Error::Data`: the sub-chunk ends before it starts. The other errors are
/// those of [`spec_sub_count`] and of the decompressor.
pub open spec fn spec_read_sub_chunk(file: Seq<u8>, index: nat, sub: nat) -> Result<
    Seq<u8>,
    Error,
> {
    match spec_sub_count(file, index) {
        Err(e) => Err(e),
        Ok(count) => {
            let base: nat = spec_chunk_span(file, index)->Ok_0.0;
            let entry: nat = base + 4 * sub;
            if sub >= count {
                Err(Error::Index)
            } else if entry + 8 > file.len() {
                Err(Error::Io)
            } else {
                let from: nat = table_entry(file, base, sub);
                let to: nat = table_entry(file, base, sub + 1);
                if to < from {
                    Err(Error::Data)
                } else if to == from {
                    Ok(Seq::empty())
                } else if base + to > file.len() {
                    Err(Error::Io)
                } else {
                    spec_decompress(file.subrange((base + from) as int, (base + to) as int))
                }
            }
        },
    }
}

/// An archive whose table and chunks all lie inside the file, no chunk
/// empty.
pub open spec fn valid_archive(file: Seq<u8>) -> bool {
    &&& spec_chunk_count(file) is Ok
    &&& 4 * (spec_chunk_count(file)->Ok_0 + 1) <= file.len()
    &&& forall|i: nat|
        i < spec_chunk_count(file)->Ok_0 ==> #[trigger] table_entry(file, 0, i) < table_entry(
            file,
            0,
            i + 1,
        ) <= file.len()
}

/// Every chunk of a valid archive can be read, and is as long as its two
/// offsets are apart.
pub proof fn lemma_valid_archive_reads(file: Seq<u8>, index: nat)
    requires
        valid_archive(file),
        index < spec_chunk_count(file)->Ok_0,
    ensures
        spec_read_chunk(file, index) is Ok,
        spec_read_chunk(file, index)->Ok_0 == file.subrange(
            table_entry(file, 0, index) as int,
            table_entry(file, 0, index + 1) as int,
        ),
        spec_read_chunk(file, index)->Ok_0.len() == table_entry(file, 0, index + 1) - table_entry(
            file,
            0,
            index,
        ),
{
    assert(table_entry(file, 0, index) < table_entry(file, 0, index + 1) <= file.len());
}

/// No archive has a chunk at or beyond its chunk count.
pub proof fn lemma_index_beyond_count(file: Seq<u8>, index: nat)
    requires
        spec_chunk_count(file) is Ok,
        index >= spec_chunk_count(file)->Ok_0,
    ensures
        spec_read_chunk(file, index) == Err::<Seq<u8>, Error>(Error::Index),
        spec_read_chunk_decompressed(file, index) == Err::<Seq<u8>, Error>(Error::Index),
        spec_sub_count(file, index) == Err::<nat, Error>(Error::Index),
{
}

/// An archive held in memory.
#[derive(Debug)]
pub struct MKF {
    data: Vec<u8>,
    chunk_count: u32,
}

impl View for MKF {
    type V = Seq<u8>;

    /// The bytes of the archive file.
    closed spec fn view(&self) -> Seq<u8> {
        self.data@
    }
}

impl MKF {
    #[verifier::type_invariant]
    spec fn counted(&self) -> bool {
        spec_chunk_count(self.data@) == Ok::<nat, Error>(self.chunk_count as nat)
    }

    /// The number of chunks.
    pub fn chunk_count(&self) -> (r: u32)
        ensures
            spec_chunk_count(self@) == Ok::<nat, Error>(r as nat),
    {
        proof {
            use_type_invariant(self);
        }
        self.chunk_count
    }

    fn read_chunk_offset(&self, index: u32) -> (r: Result<(u32, u32), Error>)
        ensures
            match r {
                Ok((from, to)) => spec_chunk_span(self@, index as nat) == Ok::<(nat, nat), Error>(
                    (from as nat, to as nat),
                ),
                Err(e) => spec_chunk_span(self@, index as nat) == Err::<(nat, nat), Error>(e),
            },
    {
        proof {
            use_type_invariant(self);
        }
        if index >= self.chunk_count {
            return Err(Error::Index);
        }
        let file: &[u8] = self.data.as_slice();
        let entry: u64 = 4 * (index as u64);
        if entry + 8 > file.len() as u64 {
            return Err(Error::Io);
        }
        let offset: u32 = read_u32(file, entry as usize);
        let next_offset: u32 = read_u32(file, entry as usize + 4);
        if next_offset <= offset {
            return Err(Error::Data);
        }
        Ok((offset, next_offset))
    }

    /// Reads chunk `index` (see [`spec_read_chunk`]).
    pub fn read_chunk(&self, index: u32) -> (r: Result<Vec<u8>, Error>)
        ensures
            bytes_of(r) == spec_read_chunk(self@, index as nat),
    {
        let (offset, next_offset) = self.read_chunk_offset(index)?;
        let file: &[u8] = self.data.as_slice();
        if next_offset as u64 > file.len() as u64 {
            return Err(Error::Io);
        }
        let chunk: &[u8] = &file[offset as usize..next_offset as usize];
        Ok(vstd::slice::slice_to_vec(chunk))
    }

    /// Reads chunk `index` and decompresses it.
    pub fn read_chunk_decompressed(&self, index: u32) -> (r: Result<Vec<u8>, Error>)
        ensures
            bytes_of(r) == spec_read_chunk_decompressed(self@, index as nat),
    {
        let data: Vec<u8> = self.read_chunk(index)?;
        decompress(data)
    }

    /// The number of sub-chunks of chunk `index` (see [`spec_sub_count`]).
    pub fn read_rng_sub_count(&self, index: u32) -> (r: Result<u32, Error>)
        ensures
            match r {
                Ok(n) => spec_sub_count(self@, index as nat) == Ok::<nat, Error>(n as nat),
                Err(e) => spec_sub_count(self@, index as nat) == Err::<nat, Error>(e),
            },
    {
        let (offset, _) = self.read_chunk_offset(index)?;
        let file: &[u8] = self.data.as_slice();
        if offset as u64 + 4 > file.len() as u64 {
            return Err(Error::Io);
        }
        let t: u32 = read_u32(file, offset as usize);
        if t < 4 {
            return Err(Error::Format);
        }
        Ok((t - 4) / 4)
    }

    /// Reads sub-chunk `frame_index` of chunk `index` and decompresses it
    /// (see [`spec_read_sub_chunk`]).
    pub fn read_rng_chunk(&self, index: u32, frame_index: u32) -> (r: Result<Vec<u8>, Error>)
        ensures
            bytes_of(r) == spec_read_sub_chunk(self@, index as nat, frame_index as nat),
    {
        let count: u32 = self.read_rng_sub_count(index)?;
        if frame_index >= count {
            return Err(Error::Index);
        }
        let (offset, _) = match self.read_chunk_offset(index) {
            Ok(span) => span,
            Err(e) => {
                return Err(e);
            },
        };
        let file: &[u8] = self.data.as_slice();
        let base: u64 = offset as u64;
        let entry: u64 = base + 4 * (frame_index as u64);
        if entry + 8 > file.len() as u64 {
            return Err(Error::Io);
        }
        let sub_offset: u32 = read_u32(file, entry as usize);
        let sub_next_offset: u32 = read_u32(file, entry as usize + 4);
        if sub_next_offset < sub_offset {
            return Err(Error::Data);
        }
        if sub_next_offset == sub_offset {
            return Ok(Vec::new());
        }
        if base + sub_next_offset as u64 > file.len() as u64 {
            return Err(Error::Io);
        }
        let from: usize = (base + sub_offset as u64) as usize;
        let to: usize = (base + sub_next_offset as u64) as usize;
        let data: Vec<u8> = vstd::slice::slice_to_vec(&file[from..to]);
        decompress(data)
    }
}

/// Opens an archive from the bytes of its file. The result is `Ok` exactly
/// when the chunk count can be read (see [`spec_chunk_count`]), and then
/// holds these bytes.
pub fn open(file: Vec<u8>) -> (r: Result<MKF, Error>)
    ensures
        match r {
            Ok(mkf) => mkf@ == file@ && spec_chunk_count(file@) is Ok,
            Err(e) => spec_chunk_count(file@) == Err::<nat, Error>(e),
        },
{
    if file.len() < 4 {
        return Err(Error::Io);
    }
    let t: u32 = read_u32(file.as_slice(), 0);
    if t < 4 {
        return Err(Error::Format);
    }
    let chunk_count: u32 = (t - 4) >> 2;
    assert((t - 4) as u32 >> 2 == (t - 4) as u32 / 4) by (bit_vector);
    Ok(MKF { data: file, chunk_count })
}

} // verus!
