//! Chunk descriptors: per-chunk SHA-256, whole-image SHA3-224, and the
//! fixed binary on-disk layout.

use vstd::arithmetic::div_mod::{
    lemma_div_is_ordered, lemma_div_pos_is_pos, lemma_fundamental_div_mod,
};
use vstd::arithmetic::mul::{
    lemma_mul_inequality, lemma_mul_is_commutative, lemma_mul_is_distributive_add_other_way,
};
use vstd::prelude::*;

use crate::encoding::{push_u64_be, read_u64_be, spec_u64_from_be_bytes, spec_u64_to_be_bytes};
use crate::encoding::lemma_u64_be_bytes_round_trip;
use crate::errors::ImgError;
use crate::hashes::{hex_encode, hex_of, sha256, sha256_of, sha3_224, sha3_224_of};

verus! {

/// Version magic carried by every descriptor.
pub const DESCRIPTOR_VERSION: u64 = 0x333333334;

/// One chunk of the packaged image.
#[derive(Debug, Clone, PartialEq, Eq)]
pub struct FileChunk {
    /// Index of the chunk, dense from zero.
    pub chunk_no: u64,
    /// Byte offset of the chunk's start in the image.
    pub pos: u64,
    /// Byte length of the chunk.
    pub len: u64,
    /// SHA-256 over exactly the chunk's bytes (32 bytes).
    pub sha256: Vec<u8>,
}

/// Mathematical model of a [`FileChunk`].
#[verifier::ext_equal]
pub struct ChunkModel {
    pub chunk_no: u64,
    pub pos: u64,
    pub len: u64,
    pub sha256: Seq<u8>,
}

impl View for FileChunk {
    type V = ChunkModel;

    open spec fn view(&self) -> ChunkModel {
        ChunkModel {
            chunk_no: self.chunk_no,
            pos: self.pos,
            len: self.len,
            sha256: self.sha256@,
        }
    }
}

/// Descriptor of a whole packaged image.
#[derive(Debug, PartialEq, Eq)]
pub struct FileChunkDesc {
    /// Version magic; always [`DESCRIPTOR_VERSION`].
    pub version: u64,
    /// Total image length in bytes.
    pub size: u64,
    /// Requested chunk size this descriptor was produced with.
    pub chunk_size: u64,
    /// SHA3-224 over the entire image (28 bytes).
    pub sha3: Vec<u8>,
    /// The chunks, ordered by `chunk_no`.
    pub chunks: Vec<FileChunk>,
}

/// Mathematical model of a [`FileChunkDesc`].
#[verifier::ext_equal]
pub struct DescModel {
    pub version: u64,
    pub size: u64,
    pub chunk_size: u64,
    pub sha3: Seq<u8>,
    pub chunks: Seq<ChunkModel>,
}

impl View for FileChunkDesc {
    type V = DescModel;

    open spec fn view(&self) -> DescModel {
        DescModel {
            version: self.version,
            size: self.size,
            chunk_size: self.chunk_size,
            sha3: self.sha3@,
            chunks: Seq::new(self.chunks@.len(), |i: int| self.chunks@[i]@),
        }
    }
}

/// The models of a sequence of chunks, in order.
pub open spec fn chunk_seq_view(cs: Seq<FileChunk>) -> Seq<ChunkModel> {
    Seq::new(cs.len(), |i: int| cs[i]@)
}

/// Number of chunks of an image of `size` bytes cut into pieces of
/// `chunk_size`: the division rounded up.
pub open spec fn chunk_count(size: int, chunk_size: int) -> int
    recommends
        chunk_size > 0,
{
    (size + chunk_size - 1) / chunk_size
}

/// Length of chunk `i`: the chunk size for all chunks but the last, which
/// takes what remains.
pub open spec fn chunk_len_at(size: int, chunk_size: int, i: int) -> int
    recommends
        chunk_size > 0,
        0 <= i < chunk_count(size, chunk_size),
{
    if size - i * chunk_size < chunk_size {
        size - i * chunk_size
    } else {
        chunk_size
    }
}

impl DescModel {
    /// Structural invariant: positive chunk size, the version magic, and a
    /// dense, position-exact chunk list covering the image.
    pub open spec fn wf(self) -> bool {
        &&& self.version == DESCRIPTOR_VERSION
        &&& self.chunk_size > 0
        &&& self.chunks.len() == chunk_count(self.size as int, self.chunk_size as int)
        &&& forall|i: int|
            0 <= i < self.chunks.len() ==> {
                &&& (#[trigger] self.chunks[i]).chunk_no == i
                &&& self.chunks[i].pos == i * self.chunk_size
                &&& self.chunks[i].len == chunk_len_at(
                    self.size as int,
                    self.chunk_size as int,
                    i,
                )
            }
    }

    /// The digests have their nominal sizes: 28 bytes of SHA3-224 and 32
    /// bytes of SHA-256 per chunk.
    pub open spec fn digests_sized(self) -> bool {
        &&& self.sha3.len() == 28
        &&& forall|i: int| 0 <= i < self.chunks.len() ==> (#[trigger] self.chunks[i]).sha256.len()
            == 32
    }
}

/// The concatenation of the chunks' SHA-256 digests, in order.
pub open spec fn chunks_digest_bytes(chunks: Seq<ChunkModel>) -> Seq<u8>
    decreases chunks.len(),
{
    if chunks.len() == 0 {
        Seq::empty()
    } else {
        chunks_digest_bytes(chunks.drop_last()) + chunks.last().sha256
    }
}

/// The descriptor's binary layout: three big-endian 64-bit integers, the
/// SHA3-224 digest, then one SHA-256 digest per chunk.
pub open spec fn spec_serialize(m: DescModel) -> Seq<u8> {
    spec_u64_to_be_bytes(m.version) + spec_u64_to_be_bytes(m.size) + spec_u64_to_be_bytes(
        m.chunk_size,
    ) + m.sha3 + chunks_digest_bytes(m.chunks)
}

proof fn lemma_chunks_digest_bytes_len(chunks: Seq<ChunkModel>)
    requires
        forall|i: int| 0 <= i < chunks.len() ==> (#[trigger] chunks[i]).sha256.len() == 32,
    ensures
        chunks_digest_bytes(chunks).len() == 32 * chunks.len(),
    decreases chunks.len(),
{
    if chunks.len() > 0 {
        lemma_chunks_digest_bytes_len(chunks.drop_last());
    }
}

proof fn lemma_chunks_digest_bytes_take(chunks: Seq<ChunkModel>, i: int)
    requires
        0 <= i < chunks.len(),
    ensures
        chunks_digest_bytes(chunks.take(i + 1)) == chunks_digest_bytes(chunks.take(i))
            + chunks[i].sha256,
{
    let t = chunks.take(i + 1);
    assert(t.drop_last() =~= chunks.take(i));
    assert(t.last() == chunks[i]);
}

/// The chunk count is the quotient, plus one when the division leaves a
/// remainder.
pub proof fn lemma_chunk_count_is_ceil(size: int, chunk_size: int)
    requires
        chunk_size > 0,
        size >= 0,
    ensures
        chunk_count(size, chunk_size) == size / chunk_size + if size % chunk_size == 0 {
            0int
        } else {
            1int
        },
{
    let cs = chunk_size;
    let q = size / cs;
    let r = size % cs;
    lemma_fundamental_div_mod(size, cs);
    if r == 0 {
        assert(size + cs - 1 == cs * q + (cs - 1));
        vstd::arithmetic::div_mod::lemma_div_multiples_vanish_fancy(q, cs - 1, cs);
    } else {
        assert(cs * (q + 1) == cs * q + cs) by {
            lemma_mul_is_distributive_add_other_way(cs, q, 1);
            lemma_mul_is_commutative(cs, q);
        }
        assert(size + cs - 1 == cs * (q + 1) + (r - 1));
        vstd::arithmetic::div_mod::lemma_div_multiples_vanish_fancy(q + 1, r - 1, cs);
    }
}

/// Every chunk before the count lies inside the image, and no chunk is
/// empty.
pub proof fn lemma_chunk_bounds(size: int, chunk_size: int, i: int)
    requires
        chunk_size > 0,
        size >= 0,
        0 <= i < chunk_count(size, chunk_size),
    ensures
        i * chunk_size < size,
        0 < chunk_len_at(size, chunk_size, i) <= chunk_size,
        i * chunk_size + chunk_len_at(size, chunk_size, i) <= size,
        i < size,
{
    let cs = chunk_size;
    let n = chunk_count(size, cs);
    lemma_fundamental_div_mod(size + cs - 1, cs);
    let r = (size + cs - 1) % cs;
    assert(cs * n == size + cs - 1 - r);
    assert(cs * (n - 1) == cs * n - cs) by {
        vstd::arithmetic::mul::lemma_mul_is_distributive_sub(cs, n, 1);
        lemma_mul_is_commutative(cs, n);
    }
    assert(cs * (n - 1) <= size - 1);
    lemma_mul_inequality(i, n - 1, cs);
    assert(i * cs <= (n - 1) * cs);
    assert((n - 1) * cs == cs * (n - 1)) by {
        lemma_mul_is_commutative(n - 1, cs);
    }
    assert(i * cs < size);
    assert(i <= i * cs) by {
        if i > 0 {
            vstd::arithmetic::mul::lemma_mul_ordering(i, cs);
        }
    }
}

/// Bounds of the chunk count itself.
pub proof fn lemma_chunk_count_bounds(size: int, chunk_size: int)
    requires
        chunk_size > 0,
        size >= 0,
    ensures
        0 <= chunk_count(size, chunk_size) <= size,
        chunk_count(size, chunk_size) * chunk_size >= size,
        size == 0 ==> chunk_count(size, chunk_size) == 0,
        size > 0 ==> chunk_count(size, chunk_size) >= 1,
    {
    let cs = chunk_size;
    let n = chunk_count(size, cs);
    lemma_div_pos_is_pos(size + cs - 1, cs);
    lemma_fundamental_div_mod(size + cs - 1, cs);
    let r = (size + cs - 1) % cs;
    assert(cs * n == size + cs - 1 - r);
    assert(cs * n >= size);
    assert(n * cs == cs * n) by {
        lemma_mul_is_commutative(n, cs);
    }
    // n <= size: compare with the exact division of size * cs + cs - 1.
    assert(size <= size * cs) by {
        if size > 0 {
            vstd::arithmetic::mul::lemma_mul_ordering(size, cs);
        }
    }
    assert(size * cs + cs - 1 == cs * size + (cs - 1)) by {
        lemma_mul_is_commutative(size, cs);
    }
    vstd::arithmetic::div_mod::lemma_div_multiples_vanish_fancy(size, cs - 1, cs);
    lemma_div_is_ordered(size + cs - 1, size * cs + cs - 1, cs);
    if size == 0 {
        assert(n == (cs - 1) / cs);
        vstd::arithmetic::div_mod::lemma_basic_div(cs - 1, cs);
    }
    if size > 0 {
        if n == 0 {
            assert(cs * 0 == 0) by {
                vstd::arithmetic::mul::lemma_mul_by_zero_is_zero(cs);
            }
        }
    }
}

/// Parses descriptor bytes. `None` on a bad version magic, a zero chunk
/// size, or any length mismatch; chunk positions and lengths are recomputed
/// from the header, never read from the input.
pub open spec fn spec_parse(bytes: Seq<u8>) -> Option<DescModel> {
    if bytes.len() < 52 {
        None
    } else {
        let version = spec_u64_from_be_bytes(bytes.subrange(0, 8));
        let size = spec_u64_from_be_bytes(bytes.subrange(8, 16));
        let chunk_size = spec_u64_from_be_bytes(bytes.subrange(16, 24));
        if version != DESCRIPTOR_VERSION || chunk_size == 0 {
            None
        } else {
            let n = chunk_count(size as int, chunk_size as int);
            if bytes.len() != 52 + 32 * n {
                None
            } else {
                Some(
                    DescModel {
                        version,
                        size,
                        chunk_size,
                        sha3: bytes.subrange(24, 52),
                        chunks: Seq::new(
                            n as nat,
                            |i: int|
                                ChunkModel {
                                    chunk_no: i as u64,
                                    pos: (i * chunk_size) as u64,
                                    len: chunk_len_at(size as int, chunk_size as int, i) as u64,
                                    sha256: bytes.subrange(52 + 32 * i, 52 + 32 * i + 32),
                                },
                        ),
                    },
                )
            }
        }
    }
}

/// Whatever parses is well formed, with digests of the nominal sizes.
pub proof fn lemma_parse_wf(bytes: Seq<u8>)
    ensures
        spec_parse(bytes) matches Some(m) ==> m.wf() && m.digests_sized(),
{
    if spec_parse(bytes) is Some {
        let m = spec_parse(bytes)->Some_0;
        let size = m.size as int;
        let cs = m.chunk_size as int;
        assert forall|i: int| 0 <= i < m.chunks.len() implies {
            &&& (#[trigger] m.chunks[i]).chunk_no == i
            &&& m.chunks[i].pos == i * m.chunk_size
            &&& m.chunks[i].len == chunk_len_at(size, cs, i)
            &&& m.chunks[i].sha256.len() == 32
        } by {
            lemma_chunk_bounds(size, cs, i);
            lemma_chunk_count_bounds(size, cs);
            assert(i * cs < size <= u64::MAX);
            assert(0 <= i * cs) by {
                vstd::arithmetic::mul::lemma_mul_nonnegative(i, cs);
            }
            assert(m.chunks[i].pos == (i * cs) as u64);
            assert(0 < chunk_len_at(size, cs, i) <= cs);
        }
    }
}

impl FileChunkDesc {
    /// Serializes the descriptor into its binary layout; the result is
    /// exactly `52 + 32 * N` bytes for `N` chunks.
    pub fn serialize_to_bytes(&self) -> (r: Vec<u8>)
        requires
            self@.wf(),
            self@.digests_sized(),
        ensures
            r@ == spec_serialize(self@),
            r@.len() == 52 + 32 * self.chunks@.len(),
    {
        let ghost header = spec_u64_to_be_bytes(self.version) + spec_u64_to_be_bytes(self.size)
            + spec_u64_to_be_bytes(self.chunk_size) + self.sha3@;
        let mut bytes: Vec<u8> = Vec::new();
        push_u64_be(&mut bytes, self.version);
        push_u64_be(&mut bytes, self.size);
        push_u64_be(&mut bytes, self.chunk_size);
        bytes.extend_from_slice(self.sha3.as_slice());
        proof {
            assert(bytes@ =~= header + chunks_digest_bytes(self@.chunks.take(0)));
        }
        let n = self.chunks.len();
        let mut i: usize = 0;
        while i < n
            invariant
                n == self.chunks@.len(),
                0 <= i <= n,
                self@.wf(),
                self@.digests_sized(),
                bytes@ == header + chunks_digest_bytes(self@.chunks.take(i as int)),
            decreases n - i,
        {
            bytes.extend_from_slice(self.chunks[i].sha256.as_slice());
            proof {
                lemma_chunks_digest_bytes_take(self@.chunks, i as int);
                assert(self@.chunks[i as int].sha256 == self.chunks@[i as int].sha256@);
                assert(bytes@ =~= header + chunks_digest_bytes(self@.chunks.take(i as int + 1)));
            }
            i += 1;
        }
        proof {
            assert(self@.chunks.take(n as int) =~= self@.chunks);
            lemma_chunks_digest_bytes_len(self@.chunks);
            assert(bytes@ =~= spec_serialize(self@));
        }
        bytes
    }

    /// Parses a descriptor from bytes, rejecting with `DescriptorParse`
    /// exactly the inputs that [`spec_parse`] rejects.
    pub fn deserialize_from_bytes(bytes: &[u8]) -> (r: Result<FileChunkDesc, ImgError>)
        ensures
            match r {
                Ok(d) => spec_parse(bytes@) == Some(d@) && d@.wf() && d@.digests_sized(),
                Err(e) => e == ImgError::DescriptorParse && spec_parse(bytes@) is None,
            },
    {
        if bytes.len() < 52 {
            return Err(ImgError::DescriptorParse);
        }
        let version = read_u64_be(bytes, 0);
        if version != DESCRIPTOR_VERSION {
            return Err(ImgError::DescriptorParse);
        }
        let size = read_u64_be(bytes, 8);
        let chunk_size = read_u64_be(bytes, 16);
        if chunk_size == 0 {
            return Err(ImgError::DescriptorParse);
        }
        proof {
            lemma_chunk_count_is_ceil(size as int, chunk_size as int);
            lemma_chunk_count_bounds(size as int, chunk_size as int);
        }
        let n: u64 = size / chunk_size + if size % chunk_size != 0 {
            1
        } else {
            0
        };
        proof {
            assert(n == chunk_count(size as int, chunk_size as int));
        }
        if n > ((usize::MAX - 52) / 32) as u64 {
            // The expected length would overflow the address space, so no
            // real buffer can match it.
            return Err(ImgError::DescriptorParse);
        }
        let n_us = n as usize;
        let expected: usize = 52 + 32 * n_us;
        if bytes.len() != expected {
            return Err(ImgError::DescriptorParse);
        }
        let sha3 = vstd::slice::slice_to_vec(vstd::slice::slice_subrange(bytes, 24, 52));
        let ghost m = spec_parse(bytes@)->Some_0;
        proof {
            lemma_parse_wf(bytes@);
        }
        let mut chunks: Vec<FileChunk> = Vec::new();
        let mut pos: u64 = 0;
        let mut i: usize = 0;
        while i < n_us
            invariant
                n_us == chunk_count(size as int, chunk_size as int),
                0 <= i <= n_us,
                chunk_size > 0,
                n_us * 32 + 52 <= usize::MAX,
                bytes@.len() == 52 + 32 * n_us,
                m == spec_parse(bytes@)->Some_0,
                spec_parse(bytes@) is Some,
                m.size == size,
                m.chunk_size == chunk_size,
                m.wf(),
                pos == if i < n_us {
                    i as int * chunk_size as int
                } else {
                    size as int
                },
                chunks@.len() == i,
                forall|j: int| 0 <= j < i ==> (#[trigger] chunks@[j])@ == m.chunks[j],
            decreases n_us - i,
        {
            proof {
                lemma_chunk_bounds(size as int, chunk_size as int, i as int);
            }
            let len = if chunk_size <= size - pos {
                chunk_size
            } else {
                size - pos
            };
            let sha = vstd::slice::slice_to_vec(
                vstd::slice::slice_subrange(bytes, 52 + 32 * i, 52 + 32 * i + 32),
            );
            chunks.push(FileChunk { chunk_no: i as u64, pos, len, sha256: sha });
            proof {
                assert(chunks@.last()@ =~= m.chunks[i as int]);
            }
            if i + 1 < n_us {
                proof {
                    lemma_chunk_bounds(size as int, chunk_size as int, i as int + 1);
                    assert((i as int + 1) * chunk_size as int == i as int * chunk_size as int
                        + chunk_size as int) by {
                        lemma_mul_is_distributive_add_other_way(
                            chunk_size as int,
                            i as int,
                            1,
                        );
                        lemma_mul_is_commutative(chunk_size as int, i as int + 1);
                        lemma_mul_is_commutative(chunk_size as int, i as int);
                    }
                }
                pos = pos + chunk_size;
            } else {
                proof {
                    assert(i as int * chunk_size as int + chunk_len_at(
                        size as int,
                        chunk_size as int,
                        i as int,
                    ) == size as int || i as int + 1 < n_us) by {
                        if i as int + 1 == n_us {
                            lemma_chunk_count_bounds(size as int, chunk_size as int);
                            assert(n_us * chunk_size as int >= size as int);
                            assert((i as int + 1) * chunk_size as int == i as int
                                * chunk_size as int + chunk_size as int) by {
                                lemma_mul_is_distributive_add_other_way(
                                    chunk_size as int,
                                    i as int,
                                    1,
                                );
                                lemma_mul_is_commutative(chunk_size as int, i as int + 1);
                                lemma_mul_is_commutative(chunk_size as int, i as int);
                            }
                        }
                    }
                }
                pos = size;
            }
            i += 1;
        }
        let d = FileChunkDesc { version, size, chunk_size, sha3, chunks };
        proof {
            assert(d@.chunks =~= m.chunks);
            assert(d@ =~= m);
        }
        Ok(d)
    }

    /// The registry key of the image: lowercase hex of the SHA-256 of the
    /// serialized descriptor.
    pub fn get_descr_hash_str(&self) -> (r: String)
        requires
            self@.wf(),
            self@.digests_sized(),
        ensures
            r@ == hex_of(sha256_of(spec_serialize(self@))),
    {
        let bytes = self.serialize_to_bytes();
        let digest = sha256(bytes.as_slice());
        hex_encode(digest.as_slice())
    }
}

/// The descriptor an image of these bytes chunks into: one SHA-256 per
/// `chunk_size`-sized piece and a SHA3-224 over the whole.
pub open spec fn spec_chunk_desc(data: Seq<u8>, chunk_size: u64) -> DescModel
    recommends
        chunk_size > 0,
        data.len() <= u64::MAX,
{
    DescModel {
        version: DESCRIPTOR_VERSION,
        size: data.len() as u64,
        chunk_size,
        sha3: sha3_224_of(data),
        chunks: Seq::new(
            chunk_count(data.len() as int, chunk_size as int) as nat,
            |i: int|
                ChunkModel {
                    chunk_no: i as u64,
                    pos: (i * chunk_size) as u64,
                    len: chunk_len_at(data.len() as int, chunk_size as int, i) as u64,
                    sha256: sha256_of(
                        data.subrange(
                            i * chunk_size,
                            i * chunk_size + chunk_len_at(
                                data.len() as int,
                                chunk_size as int,
                                i,
                            ),
                        ),
                    ),
                },
        ),
    }
}

/// Cuts `size` bytes of `data` into chunks and hashes them; fails with
/// `ShortRead` exactly when `data` holds fewer than `size` bytes.
pub fn create_descriptor_from_bytes(data: &[u8], size: u64, chunk_size: u64) -> (r: Result<
    FileChunkDesc,
    ImgError,
>)
    requires
        chunk_size > 0,
    ensures
        match r {
            Ok(d) => {
                &&& size <= data@.len()
                &&& d@ == spec_chunk_desc(data@.take(size as int), chunk_size)
                &&& d@.wf()
                &&& d@.digests_sized()
            },
            Err(e) => e == ImgError::ShortRead && size > data@.len(),
        },
{
    if (data.len() as u64) < size {
        return Err(ImgError::ShortRead);
    }
    let ghost image = data@.take(size as int);
    let ghost m = spec_chunk_desc(image, chunk_size);
    proof {
        lemma_chunk_count_bounds(size as int, chunk_size as int);
    }
    let sha3 = sha3_224(vstd::slice::slice_subrange(data, 0, size as usize));
    proof {
        assert(data@.subrange(0, size as int) =~= image);
    }
    let mut chunks: Vec<FileChunk> = Vec::new();
    let mut pos: u64 = 0;
    let mut chunk_no: u64 = 0;
    let data_len = data.len();
    while pos < size
        invariant
            chunk_size > 0,
            size <= data@.len(),
            data@.len() == data_len,
            image == data@.take(size as int),
            m == spec_chunk_desc(image, chunk_size),
            0 <= chunk_no <= chunk_count(size as int, chunk_size as int),
            pos == if chunk_no < chunk_count(size as int, chunk_size as int) {
                chunk_no as int * chunk_size as int
            } else {
                size as int
            },
            pos <= size,
            chunks@.len() == chunk_no,
            forall|j: int| 0 <= j < chunk_no ==> (#[trigger] chunks@[j])@ == m.chunks[j],
            forall|j: int|
                0 <= j < chunk_no ==> (#[trigger] m.chunks[j]).sha256.len() == 32,
        decreases size - pos,
    {
        proof {
            lemma_chunk_count_bounds(size as int, chunk_size as int);
            if chunk_no >= chunk_count(size as int, chunk_size as int) {
                assert(pos == size as int);
            }
            lemma_chunk_bounds(size as int, chunk_size as int, chunk_no as int);
        }
        let len = if chunk_size <= size - pos {
            chunk_size
        } else {
            size - pos
        };
        proof {
            assert(len == chunk_len_at(size as int, chunk_size as int, chunk_no as int));
            assert(pos + len <= size);
            assert(data@.len() <= usize::MAX);
        }
        let sha = sha256(
            vstd::slice::slice_subrange(data, pos as usize, (pos + len) as usize),
        );
        proof {
            assert(data@.subrange(pos as int, pos as int + len as int) =~= image.subrange(
                pos as int,
                pos as int + len as int,
            ));
        }
        chunks.push(FileChunk { chunk_no, pos, len, sha256: sha });
        proof {
            assert(chunks@.last()@ =~= m.chunks[chunk_no as int]);
        }
        let next_no = chunk_no + 1;
        proof {
            let csi = chunk_size as int;
            let n = chunk_count(size as int, csi);
            assert(next_no as int * csi == chunk_no as int * csi + csi) by {
                lemma_mul_is_distributive_add_other_way(csi, chunk_no as int, 1);
                lemma_mul_is_commutative(csi, next_no as int);
                lemma_mul_is_commutative(csi, chunk_no as int);
            }
            if next_no < n {
                lemma_chunk_bounds(size as int, csi, next_no as int);
                assert(chunk_len_at(size as int, csi, chunk_no as int) == csi);
            } else {
                // The last chunk ends exactly at the image's end.
                lemma_chunk_count_bounds(size as int, csi);
                lemma_mul_inequality(n, next_no as int, csi);
                lemma_mul_is_commutative(n, csi);
                lemma_mul_is_commutative(next_no as int, csi);
                assert(next_no as int * csi >= size as int);
            }
        }
        pos = pos + len;
        chunk_no = next_no;
    }
    proof {
        // The loop ended at the image's end, so every chunk was produced.
        lemma_chunk_count_bounds(size as int, chunk_size as int);
        if (chunk_no as int) < chunk_count(size as int, chunk_size as int) {
            lemma_chunk_bounds(size as int, chunk_size as int, chunk_no as int);
        }
    }
    let d = FileChunkDesc { version: DESCRIPTOR_VERSION, size, chunk_size, sha3, chunks };
    proof {
        assert(image.len() == size as int);
        assert(d@.chunks =~= m.chunks);
        assert(d@ =~= m);
        lemma_spec_chunk_desc_wf(image, chunk_size);
        assert(m.sha3.len() == 28);
        assert(d@.digests_sized());
    }
    Ok(d)
}

/// The descriptor the chunker yields is well formed, with the chunk count
/// and the chunk lengths the chunking rule demands.
pub proof fn lemma_spec_chunk_desc_wf(data: Seq<u8>, chunk_size: u64)
    requires
        chunk_size > 0,
        data.len() <= u64::MAX,
    ensures
        spec_chunk_desc(data, chunk_size).wf(),
{
    let m = spec_chunk_desc(data, chunk_size);
    let size = data.len() as int;
    let cs = chunk_size as int;
    lemma_chunk_count_bounds(size, cs);
    assert forall|i: int| 0 <= i < m.chunks.len() implies {
        &&& (#[trigger] m.chunks[i]).chunk_no == i
        &&& m.chunks[i].pos == i * m.chunk_size
        &&& m.chunks[i].len == chunk_len_at(size, cs, i)
    } by {
        lemma_chunk_bounds(size, cs, i);
        assert(0 <= i * cs) by {
            vstd::arithmetic::mul::lemma_mul_nonnegative(i, cs);
        }
    }
}

proof fn lemma_chunks_digest_bytes_index(chunks: Seq<ChunkModel>, i: int)
    requires
        forall|j: int| 0 <= j < chunks.len() ==> (#[trigger] chunks[j]).sha256.len() == 32,
        0 <= i < chunks.len(),
    ensures
        chunks_digest_bytes(chunks).subrange(32 * i, 32 * i + 32) == chunks[i].sha256,
    decreases chunks.len(),
{
    lemma_chunks_digest_bytes_len(chunks);
    lemma_chunks_digest_bytes_len(chunks.drop_last());
    if i == chunks.len() - 1 {
        assert(chunks_digest_bytes(chunks).subrange(32 * i, 32 * i + 32) =~= chunks.last().sha256);
    } else {
        lemma_chunks_digest_bytes_index(chunks.drop_last(), i);
        assert(chunks_digest_bytes(chunks).subrange(32 * i, 32 * i + 32) =~= chunks_digest_bytes(
            chunks.drop_last(),
        ).subrange(32 * i, 32 * i + 32));
    }
}

/// Parsing undoes serialization: every well-formed descriptor comes back
/// unchanged from its own bytes.
pub proof fn lemma_descriptor_round_trip(m: DescModel)
    requires
        m.wf(),
        m.digests_sized(),
    ensures
        spec_parse(spec_serialize(m)) == Some(m),
{
    let b = spec_serialize(m);
    let n = m.chunks.len() as int;
    lemma_chunks_digest_bytes_len(m.chunks);
    lemma_u64_be_bytes_round_trip(m.version);
    lemma_u64_be_bytes_round_trip(m.size);
    lemma_u64_be_bytes_round_trip(m.chunk_size);
    assert(b.len() == 52 + 32 * n);
    assert(b.subrange(0, 8) =~= spec_u64_to_be_bytes(m.version));
    assert(b.subrange(8, 16) =~= spec_u64_to_be_bytes(m.size));
    assert(b.subrange(16, 24) =~= spec_u64_to_be_bytes(m.chunk_size));
    assert(b.subrange(24, 52) =~= m.sha3);
    let p = spec_parse(b)->Some_0;
    assert(p.version == m.version && p.size == m.size && p.chunk_size == m.chunk_size);
    assert forall|i: int| 0 <= i < n implies p.chunks[i] =~= m.chunks[i] by {
        lemma_chunk_bounds(m.size as int, m.chunk_size as int, i);
        assert(0 <= i * m.chunk_size as int) by {
            vstd::arithmetic::mul::lemma_mul_nonnegative(i, m.chunk_size as int);
        }
        lemma_chunks_digest_bytes_index(m.chunks, i);
        assert(b.subrange(52 + 32 * i, 52 + 32 * i + 32) =~= chunks_digest_bytes(
            m.chunks,
        ).subrange(32 * i, 32 * i + 32));
    }
    assert(p.chunks =~= m.chunks);
    assert(p =~= m);
}

/// A serialized descriptor is exactly `52 + 32 * N` bytes for `N` chunks.
pub proof fn lemma_serialized_length(m: DescModel)
    requires
        m.digests_sized(),
    ensures
        spec_serialize(m).len() == 52 + 32 * m.chunks.len(),
{
    lemma_chunks_digest_bytes_len(m.chunks);
}

/// Descriptors produced from the same bytes with the same chunk size have
/// the same registry hash.
pub proof fn lemma_descr_hash_deterministic(
    d1: DescModel,
    d2: DescModel,
    data: Seq<u8>,
    chunk_size: u64,
)
    requires
        chunk_size > 0,
        d1 == spec_chunk_desc(data, chunk_size),
        d2 == spec_chunk_desc(data, chunk_size),
    ensures
        hex_of(sha256_of(spec_serialize(d1))) == hex_of(sha256_of(spec_serialize(d2))),
{
}

/// The chunking rule: `ceil(size / chunk_size)` chunks, all of the chunk
/// size but the last, which takes what remains.
pub proof fn lemma_chunker_layout(data: Seq<u8>, chunk_size: u64)
    requires
        chunk_size > 0,
        data.len() <= u64::MAX,
    ensures
        ({
            let m = spec_chunk_desc(data, chunk_size);
            let n = chunk_count(data.len() as int, chunk_size as int);
            &&& m.chunks.len() == n
            &&& forall|i: int|
                0 <= i < n - 1 ==> (#[trigger] m.chunks[i]).len == chunk_size
            &&& data.len() > 0 ==> m.chunks.last().len == data.len() - (n - 1)
                * chunk_size as int
        }),
{
    let m = spec_chunk_desc(data, chunk_size);
    let size = data.len() as int;
    let cs = chunk_size as int;
    let n = chunk_count(size, cs);
    lemma_chunk_count_bounds(size, cs);
    lemma_spec_chunk_desc_wf(data, chunk_size);
    assert forall|i: int| 0 <= i < n - 1 implies (#[trigger] m.chunks[i]).len == chunk_size by {
        lemma_chunk_bounds(size, cs, i);
        lemma_chunk_bounds(size, cs, i + 1);
        assert((i + 1) * cs == i * cs + cs) by {
            lemma_mul_is_distributive_add_other_way(cs, i, 1);
            lemma_mul_is_commutative(cs, i + 1);
            lemma_mul_is_commutative(cs, i);
        }
    }
    if data.len() > 0 {
        lemma_chunk_bounds(size, cs, n - 1);
        assert(n * cs == (n - 1) * cs + cs) by {
            lemma_mul_is_distributive_add_other_way(cs, n - 1, 1);
            lemma_mul_is_commutative(cs, n);
            lemma_mul_is_commutative(cs, n - 1);
        }
        assert(size - (n - 1) * cs <= cs);
    }
}

} // verus!
