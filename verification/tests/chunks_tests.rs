use std::iter::repeat_with;

use gvmkit_build::chunks::{create_descriptor_from_bytes, FileChunkDesc, DESCRIPTOR_VERSION};
use gvmkit_build::errors::ImgError;

fn pseudo_random_bytes(seed: u64, n: usize) -> Vec<u8> {
    let mut rng = fastrand::Rng::with_seed(seed);
    repeat_with(|| rng.u8(..)).take(n).collect()
}

#[test]
fn chunks_test_descriptor_creation() {
    let bytes1 = pseudo_random_bytes(1234, 10000);
    let bytes2 = pseudo_random_bytes(1234, 10001);

    let descr1 = create_descriptor_from_bytes(&bytes1, bytes1.len() as u64, 1000).unwrap();
    assert_eq!(descr1.version, DESCRIPTOR_VERSION);
    assert_eq!(descr1.size, 10000);
    assert_eq!(descr1.chunk_size, 1000);
    assert_eq!(descr1.chunks.len(), 10);
    let descr2 = create_descriptor_from_bytes(&bytes2, bytes2.len() as u64, 1000).unwrap();
    assert_eq!(descr2.size, 10001);
    assert_eq!(descr2.chunk_size, 1000);
    assert_eq!(descr2.chunks.len(), 11);
    assert_eq!(descr2.chunks[10].len, 1);
    let descr_empty = create_descriptor_from_bytes(&bytes1, 0, 1000).unwrap();
    assert_eq!(descr_empty.size, 0);
    assert_eq!(descr_empty.chunk_size, 1000);
    assert_eq!(descr_empty.chunks.len(), 0);
    let descr_single = create_descriptor_from_bytes(&bytes1, 115, 1000).unwrap();
    assert_eq!(descr_single.size, 115);
    assert_eq!(descr_single.chunk_size, 1000);
    assert_eq!(descr_single.chunks.len(), 1);

    for chunk in &descr1.chunks {
        println!(
            "Chunk: pos: {} len: {} hash: {}",
            chunk.pos,
            chunk.len,
            hex::encode(&chunk.sha256)
        );
    }
    for chunk in &descr2.chunks {
        println!(
            "Chunk: pos: {} len: {} hash: {}",
            chunk.pos,
            chunk.len,
            hex::encode(&chunk.sha256)
        );
    }

    let bytes1 = descr1.serialize_to_bytes();
    assert_eq!(bytes1.len(), 8 + 8 + 8 + 28 + 10 * 32);
    let bytes2 = descr2.serialize_to_bytes();
    assert_eq!(bytes2.len(), 8 + 8 + 8 + 28 + 11 * 32);
    let bytes_empty = descr_empty.serialize_to_bytes();
    assert_eq!(bytes_empty.len(), 8 + 8 + 8 + 28);
    let bytes_single = descr_single.serialize_to_bytes();
    assert_eq!(bytes_single.len(), 8 + 8 + 8 + 28 + 1 * 32);

    let descr_de1 = FileChunkDesc::deserialize_from_bytes(&bytes1).unwrap();
    assert_eq!(descr_de1, descr1);
    let descr_de2 = FileChunkDesc::deserialize_from_bytes(&bytes2).unwrap();
    assert_eq!(descr_de2, descr2);
    let descr_de_empty = FileChunkDesc::deserialize_from_bytes(&bytes_empty).unwrap();
    assert_eq!(descr_de_empty, descr_empty);
    let descr_de_single = FileChunkDesc::deserialize_from_bytes(&bytes_single).unwrap();
    assert_eq!(descr_de_single, descr_single);
}

#[test]
fn chunker_boundary_sizes() {
    // Exactly one chunk size: one chunk of that length.
    let data = pseudo_random_bytes(7, 1000);
    let d = create_descriptor_from_bytes(&data, 1000, 1000).unwrap();
    assert_eq!(d.chunks.len(), 1);
    assert_eq!(d.chunks[0].len, 1000);

    // One byte more: two chunks, of the chunk size and of one byte.
    let data = pseudo_random_bytes(7, 1001);
    let d = create_descriptor_from_bytes(&data, 1001, 1000).unwrap();
    assert_eq!(d.chunks.len(), 2);
    assert_eq!(d.chunks[0].len, 1000);
    assert_eq!(d.chunks[1].len, 1);
}

#[test]
fn chunker_empty_image() {
    let d = create_descriptor_from_bytes(&[], 0, 1000).unwrap();
    assert_eq!(d.chunks.len(), 0);
    // SHA3-224 of the empty input.
    assert_eq!(
        hex::encode(&d.sha3),
        "6b4e03423667dbb73b6e15454f0eb1abd4597f9a1b078e3f5b5a6bc7"
    );
}

#[test]
fn chunker_short_read() {
    let data = pseudo_random_bytes(9, 100);
    let r = create_descriptor_from_bytes(&data, 101, 1000);
    assert_eq!(r.unwrap_err(), ImgError::ShortRead);
}

#[test]
fn chunk_hashes_are_real_digests() {
    // SHA-256 of "abc"; a chunker that copied its input through would fail.
    let d = create_descriptor_from_bytes(b"abc", 3, 1000).unwrap();
    assert_eq!(
        hex::encode(&d.chunks[0].sha256),
        "ba7816bf8f01cfea414140de5dae2223b00361a396177a9cb410ff61f20015ad"
    );
    // SHA3-224 of "abc".
    assert_eq!(
        hex::encode(&d.sha3),
        "e642824c3f8cf24ad09234ee7d3c766fc9a3a5168d0c94ad73b46fdf"
    );
}

#[test]
fn descriptor_bad_version_magic() {
    let data = pseudo_random_bytes(11, 500);
    let d = create_descriptor_from_bytes(&data, 500, 100).unwrap();
    let mut bytes = d.serialize_to_bytes();
    bytes[0] ^= 1;
    let r = FileChunkDesc::deserialize_from_bytes(&bytes);
    assert_eq!(r.unwrap_err(), ImgError::DescriptorParse);
}

#[test]
fn descriptor_truncated_and_zero_chunk_size() {
    let data = pseudo_random_bytes(12, 500);
    let d = create_descriptor_from_bytes(&data, 500, 100).unwrap();
    let bytes = d.serialize_to_bytes();
    // Truncated bytes are rejected.
    let r = FileChunkDesc::deserialize_from_bytes(&bytes[..bytes.len() - 1]);
    assert_eq!(r.unwrap_err(), ImgError::DescriptorParse);
    // A zero chunk size on the wire is rejected.
    let mut zeroed = bytes.clone();
    for b in zeroed.iter_mut().take(24).skip(16) {
        *b = 0;
    }
    let r = FileChunkDesc::deserialize_from_bytes(&zeroed);
    assert_eq!(r.unwrap_err(), ImgError::DescriptorParse);
}

#[test]
fn descriptor_hash_is_deterministic() {
    let data = pseudo_random_bytes(13, 2500);
    let d1 = create_descriptor_from_bytes(&data, 2500, 1000).unwrap();
    let d2 = create_descriptor_from_bytes(&data, 2500, 1000).unwrap();
    let h1 = d1.get_descr_hash_str();
    let h2 = d2.get_descr_hash_str();
    assert_eq!(h1, h2);
    assert_eq!(h1.len(), 64);
    // A different chunk size changes the serialized bytes and the hash.
    let d3 = create_descriptor_from_bytes(&data, 2500, 500).unwrap();
    assert_ne!(h1, d3.get_descr_hash_str());
}
