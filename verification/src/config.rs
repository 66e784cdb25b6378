//! Configuration decisions: registry URL normalization, flag checks, the
//! automatic chunk size, stored credentials, and descriptor cache validity.

use vstd::prelude::*;
use vstd::string::*;

use crate::chunks::FileChunkDesc;
use crate::errors::ImgError;
use crate::name::{find_char, lemma_find_char_unique};

verus! {

/// Chunk size for images up to 200 MiB.
pub const CHUNK_SIZE_SMALL: u64 = 2 * 1024 * 1024;

/// Chunk size for images up to 500 MiB.
pub const CHUNK_SIZE_MEDIUM: u64 = 5 * 1024 * 1024;

/// Chunk size for larger images.
pub const CHUNK_SIZE_LARGE: u64 = 10 * 1024 * 1024;

/// The automatically selected chunk size: 2 MiB up to 200 MiB, 5 MiB up to
/// 500 MiB, 10 MiB above.
pub fn auto_chunk_size(image_file_size: u64) -> (r: u64)
    ensures
        image_file_size > 500 * 1024 * 1024 ==> r == CHUNK_SIZE_LARGE,
        200 * 1024 * 1024 < image_file_size <= 500 * 1024 * 1024 ==> r == CHUNK_SIZE_MEDIUM,
        image_file_size <= 200 * 1024 * 1024 ==> r == CHUNK_SIZE_SMALL,
        r > 0,
{
    if image_file_size > 500 * 1024 * 1024 {
        CHUNK_SIZE_LARGE
    } else if image_file_size > 200 * 1024 * 1024 {
        CHUNK_SIZE_MEDIUM
    } else {
        CHUNK_SIZE_SMALL
    }
}

/// Length of `s` once trailing slashes are dropped.
pub open spec fn trimmed_url_len(s: Seq<char>) -> int
    decreases s.len(),
{
    if s.len() > 0 && s.last() == '/' {
        trimmed_url_len(s.drop_last())
    } else {
        s.len() as int
    }
}

proof fn lemma_trimmed_len_at(s: Seq<char>, k: int)
    requires
        0 <= k <= s.len(),
        forall|p: int| k <= p < s.len() ==> s[p] == '/',
        k > 0 ==> s[k - 1] != '/',
    ensures
        trimmed_url_len(s) == k,
    decreases s.len(),
{
    if s.len() > k {
        assert(s.drop_last() =~= s.take(s.len() - 1));
        lemma_trimmed_len_at(s.drop_last(), k);
    }
}

/// Drops every trailing slash from a registry base URL.
pub fn normalize_registry_url(url: &str) -> (r: String)
    ensures
        r@ == url@.take(trimmed_url_len(url@)),
{
    let ghost s = url@;
    let len = url.unicode_len();
    let mut k: usize = 0;
    let mut i: usize = 0;
    while i < len
        invariant
            len == s.len(),
            s == url@,
            0 <= k <= i <= len,
            forall|p: int| k <= p < i ==> s[p] == '/',
            k > 0 ==> s[k as int - 1] != '/',
        decreases len - i,
    {
        let c = url.get_char(i);
        if c != '/' {
            k = i + 1;
        }
        i += 1;
    }
    proof {
        lemma_trimmed_len_at(s, k as int);
    }
    url.substring_char(0, k).to_owned()
}

/// `--nologin` forbids a push to a named repository.
pub fn check_push_config(nologin: bool, has_push_to: bool) -> (r: Result<(), ImgError>)
    ensures
        nologin && has_push_to ==> r == Err::<(), ImgError>(ImgError::Config),
        !(nologin && has_push_to) ==> r == Ok::<(), ImgError>(()),
{
    if nologin && has_push_to {
        Err(ImgError::Config)
    } else {
        Ok(())
    }
}

/// Whether `m` names a supported compression method.
pub fn validate_compression_method(m: &str) -> (r: bool)
    ensures
        r == (m@ == "lzo"@ || m@ == "gzip"@ || m@ == "lz4"@ || m@ == "zstd"@ || m@ == "xz"@),
{
    let s = m.to_owned();
    let lzo: String = "lzo".to_owned();
    let gzip: String = "gzip".to_owned();
    let lz4: String = "lz4".to_owned();
    let zstd: String = "zstd".to_owned();
    let xz: String = "xz".to_owned();
    s == lzo || s == gzip || s == lz4 || s == zstd || s == xz
}

/// A cached descriptor serves iff its sidecar is at least as new as the
/// image and it was produced with the requested chunk size.
pub fn cached_descriptor_usable(
    descr: &FileChunkDesc,
    requested_chunk_size: u64,
    sidecar_is_newer: bool,
) -> (r: bool)
    ensures
        r == (sidecar_is_newer && descr.chunk_size == requested_chunk_size),
{
    sidecar_is_newer && descr.chunk_size == requested_chunk_size
}

/// The credential store holds `user:token`; everything after a second
/// colon is dropped. `None` without a colon.
pub open spec fn spec_split_credentials(s: Seq<char>) -> Option<(Seq<char>, Seq<char>)> {
    let j = find_char(s, ':');
    if j == s.len() {
        None
    } else {
        let rest = s.skip(j + 1);
        let k = find_char(rest, ':');
        Some((s.take(j), rest.take(k)))
    }
}

/// Splits a stored credential into user and token.
pub fn split_credentials(stored: &str) -> (r: Option<(String, String)>)
    ensures
        match r {
            Some(p) => spec_split_credentials(stored@) == Some((p.0@, p.1@)),
            None => spec_split_credentials(stored@) is None,
        },
{
    let ghost s = stored@;
    let len = stored.unicode_len();
    let mut first: usize = len;
    let mut second: usize = len;
    let mut i: usize = 0;
    while i < len
        invariant
            len == s.len(),
            s == stored@,
            0 <= i <= len,
            first == len || (first < i && s[first as int] == ':'),
            forall|p: int| 0 <= p < i && p < first ==> s[p] != ':',
            first == len ==> forall|p: int| 0 <= p < i ==> s[p] != ':',
            second == len || (first < second < i && s[second as int] == ':'),
            forall|p: int| first < p < i && p < second ==> s[p] != ':',
            second == len ==> forall|p: int| first < p < i ==> s[p] != ':',
            first <= second,
        decreases len - i,
    {
        let c = stored.get_char(i);
        if c == ':' {
            if first == len {
                first = i;
            } else if second == len {
                second = i;
            }
        }
        i += 1;
    }
    proof {
        lemma_find_char_unique(s, ':', first as int);
    }
    if first == len {
        return None;
    }
    let ghost rest = s.skip(first as int + 1);
    proof {
        if second < len {
            lemma_find_char_unique(rest, ':', second as int - first as int - 1);
        } else {
            lemma_find_char_unique(rest, ':', rest.len() as int);
        }
    }
    let user = stored.substring_char(0, first).to_owned();
    let token = stored.substring_char(first + 1, second).to_owned();
    proof {
        let k = find_char(rest, ':');
        assert(token@ =~= rest.take(k));
        assert(user@ =~= s.take(first as int));
    }
    Some((user, token))
}

} // verus!
