use pal::error::Error;
use pal::mkf::open;

fn archive() -> Vec<u8> {
    // three table entries, two chunks: 12..14 and 14..17
    let mut v = Vec::new();
    for off in [12u32, 14, 17] {
        v.extend_from_slice(&off.to_le_bytes());
    }
    v.extend_from_slice(&[0xa0, 0xa1, 0xb0, 0xb1, 0xb2]);
    v
}

#[test]
fn chunk_count_from_first_entry() {
    let mkf = open(archive()).unwrap();
    assert_eq!(mkf.chunk_count(), 2);
    let mkf = open(vec![4, 0, 0, 0]).unwrap();
    assert_eq!(mkf.chunk_count(), 0);
    let mkf = open(vec![7, 0, 0, 0]).unwrap();
    assert_eq!(mkf.chunk_count(), 0);
    let mkf = open(vec![8, 0, 0, 0]).unwrap();
    assert_eq!(mkf.chunk_count(), 1);
}

#[test]
fn open_failures() {
    assert_eq!(open(vec![]).unwrap_err(), Error::Io);
    assert_eq!(open(vec![12, 0, 0]).unwrap_err(), Error::Io);
    assert_eq!(open(vec![3, 0, 0, 0]).unwrap_err(), Error::Format);
    assert_eq!(open(vec![0, 0, 0, 0, 0, 0, 0, 0]).unwrap_err(), Error::Format);
}

#[test]
fn every_chunk_of_a_valid_archive_reads() {
    let mkf = open(archive()).unwrap();
    assert_eq!(mkf.read_chunk(0), Ok(vec![0xa0, 0xa1]));
    assert_eq!(mkf.read_chunk(1), Ok(vec![0xb0, 0xb1, 0xb2]));
    // again: nothing is consumed
    assert_eq!(mkf.read_chunk(0), Ok(vec![0xa0, 0xa1]));
}

#[test]
fn chunk_index_at_or_beyond_count_is_index_error() {
    let mkf = open(archive()).unwrap();
    assert_eq!(mkf.read_chunk(2), Err(Error::Index));
    assert_eq!(mkf.read_chunk(3), Err(Error::Index));
    assert_eq!(mkf.read_chunk(u32::MAX), Err(Error::Index));
    assert_eq!(mkf.read_chunk_decompressed(2), Err(Error::Index));
    assert_eq!(mkf.read_rng_sub_count(2), Err(Error::Index));
    assert_eq!(mkf.read_rng_chunk(2, 0), Err(Error::Index));
    let empty = open(vec![4, 0, 0, 0]).unwrap();
    assert_eq!(empty.read_chunk(0), Err(Error::Index));
}

#[test]
fn empty_or_reversed_chunk_is_data_error() {
    let mut v = Vec::new();
    for off in [16u32, 16, 14, 18] {
        v.extend_from_slice(&off.to_le_bytes());
    }
    v.extend_from_slice(&[1, 2]);
    let mkf = open(v).unwrap();
    assert_eq!(mkf.chunk_count(), 3);
    assert_eq!(mkf.read_chunk(0), Err(Error::Data));
    assert_eq!(mkf.read_chunk(1), Err(Error::Data));
    assert_eq!(mkf.read_chunk(2), Ok(vec![0, 0, 1, 2]));
}

#[test]
fn chunk_beyond_the_file_is_io_error() {
    // the table announces four chunks, the file holds two entries
    let mut v = Vec::new();
    for off in [20u32, 22] {
        v.extend_from_slice(&off.to_le_bytes());
    }
    let mkf = open(v).unwrap();
    assert_eq!(mkf.chunk_count(), 4);
    // the chunk itself lies beyond the end
    assert_eq!(mkf.read_chunk(0), Err(Error::Io));
    // the table entries lie beyond the end
    assert_eq!(mkf.read_chunk(1), Err(Error::Io));
    assert_eq!(mkf.read_chunk(3), Err(Error::Io));
}

fn stored(payload: &[u8]) -> Vec<u8> {
    let mut v = vec![0x59, 0x4a, 0x5f, 0x31];
    v.extend_from_slice(&(payload.len() as u32).to_le_bytes());
    v.extend_from_slice(&[0, 0, 0, 0, 1, 0, 0, 0]);
    v.extend_from_slice(&(payload.len() as u16).to_le_bytes());
    v.extend_from_slice(&[0, 0]);
    v.extend_from_slice(payload);
    v
}

#[test]
fn chunk_decompressed() {
    let inner = stored(&[5, 6, 7]);
    let mut v = Vec::new();
    v.extend_from_slice(&12u32.to_le_bytes());
    v.extend_from_slice(&(12 + inner.len() as u32).to_le_bytes());
    v.extend_from_slice(&(15 + inner.len() as u32).to_le_bytes());
    v.extend_from_slice(&inner);
    v.extend_from_slice(&[1, 2, 3]);
    let mkf = open(v).unwrap();
    assert_eq!(mkf.read_chunk(0), Ok(inner));
    assert_eq!(mkf.read_chunk_decompressed(0), Ok(vec![5, 6, 7]));
    // chunk 1 is no compressed buffer
    assert_eq!(mkf.read_chunk_decompressed(1), Err(Error::Format));
}

fn animation() -> Vec<u8> {
    // one chunk at 8; its own table has three entries: two sub-chunks
    let a = stored(&[1, 2]);
    let b = stored(&[3, 4, 5]);
    let mut chunk = Vec::new();
    chunk.extend_from_slice(&12u32.to_le_bytes());
    chunk.extend_from_slice(&(12 + a.len() as u32).to_le_bytes());
    chunk.extend_from_slice(&(12 + (a.len() + b.len()) as u32).to_le_bytes());
    chunk.extend_from_slice(&a);
    chunk.extend_from_slice(&b);
    let mut v = Vec::new();
    v.extend_from_slice(&8u32.to_le_bytes());
    v.extend_from_slice(&(8 + chunk.len() as u32).to_le_bytes());
    v.extend_from_slice(&chunk);
    v
}

#[test]
fn sub_chunks() {
    let mkf = open(animation()).unwrap();
    assert_eq!(mkf.chunk_count(), 1);
    assert_eq!(mkf.read_rng_sub_count(0), Ok(2));
    assert_eq!(mkf.read_rng_chunk(0, 0), Ok(vec![1, 2]));
    assert_eq!(mkf.read_rng_chunk(0, 1), Ok(vec![3, 4, 5]));
    assert_eq!(mkf.read_rng_chunk(0, 2), Err(Error::Index));
    assert_eq!(mkf.read_rng_chunk(0, u32::MAX), Err(Error::Index));
}

#[test]
fn sub_chunk_failures() {
    // empty sub-chunk: both entries equal
    let mut v = Vec::new();
    for w in [8u32, 24, 12, 12, 10, 0] {
        v.extend_from_slice(&w.to_le_bytes());
    }
    let mkf = open(v).unwrap();
    assert_eq!(mkf.read_rng_sub_count(0), Ok(2));
    assert_eq!(mkf.read_rng_chunk(0, 0), Ok(vec![]));
    // reversed sub-chunk
    assert_eq!(mkf.read_rng_chunk(0, 1), Err(Error::Data));
    // a sub-chunk table that says less than four
    let mut v = Vec::new();
    for w in [8u32, 16, 3, 0] {
        v.extend_from_slice(&w.to_le_bytes());
    }
    let mkf = open(v).unwrap();
    assert_eq!(mkf.read_rng_sub_count(0), Err(Error::Format));
    assert_eq!(mkf.read_rng_chunk(0, 0), Err(Error::Format));
    // a sub-chunk that reaches beyond the file
    let mut v = Vec::new();
    for w in [8u32, 20, 8, 100, 0] {
        v.extend_from_slice(&w.to_le_bytes());
    }
    let mkf = open(v).unwrap();
    assert_eq!(mkf.read_rng_sub_count(0), Ok(1));
    assert_eq!(mkf.read_rng_chunk(0, 0), Err(Error::Io));
    // a sub-chunk that is no compressed buffer
    let mut v = Vec::new();
    for w in [8u32, 20, 8, 12, 0] {
        v.extend_from_slice(&w.to_le_bytes());
    }
    let mkf = open(v).unwrap();
    assert_eq!(mkf.read_rng_chunk(0, 0), Err(Error::Format));
}
