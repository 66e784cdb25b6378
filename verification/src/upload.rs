//! Decisions of the resumable upload protocol: what the server state means,
//! which chunks are still missing, the form fields of each request, and the
//! validation poll.

use vstd::prelude::*;
use vstd::string::*;

use crate::chunks::{chunk_seq_view, ChunkModel, FileChunk, FileChunkDesc};
use crate::errors::ImgError;
use crate::hashes::{hex_encode, hex_of};
use crate::text::{dec_str, u64_to_dec_string};

verus! {

/// How often the validation poll asks before giving up.
pub const MAX_VALIDATION_TRIES: u64 = 6;

/// Seconds between two validation polls.
pub const VALIDATION_POLL_SECS: u64 = 5;

/// The server's view of an upload, as the descriptor query returns it.
#[derive(Debug, Clone, PartialEq, Eq)]
pub struct ValidateUploadResponse {
    /// `"ok"` when the descriptor is registered.
    pub descriptor: String,
    /// Version echoed by the server, when any.
    pub version: Option<u64>,
    /// `"partial"` or `"full"`; absent while the descriptor is unknown.
    pub status: Option<String>,
    /// One flag per chunk, 1 when the server already holds it.
    pub chunks: Option<Vec<u64>>,
}

/// Where an image was attached.
#[derive(Debug, Clone, PartialEq, Eq)]
pub struct AttachInfo {
    pub url: String,
    pub user: String,
    pub repo: String,
    pub tag: String,
}

/// The server has registered the descriptor.
pub open spec fn descriptor_registered(vu: ValidateUploadResponse) -> bool {
    vu.descriptor@ == "ok"@
}

/// The server reports the upload as complete.
pub open spec fn status_is_full(vu: ValidateUploadResponse) -> bool {
    vu.status matches Some(s) && s@ == "full"@
}

/// Whether the response says the descriptor is registered.
pub fn descriptor_is_registered(vu: &ValidateUploadResponse) -> (r: bool)
    ensures
        r == descriptor_registered(*vu),
{
    let ok: String = "ok".to_owned();
    vu.descriptor == ok
}

/// Whether the response reports the upload as complete.
pub fn status_full(vu: &ValidateUploadResponse) -> (r: bool)
    ensures
        r == status_is_full(*vu),
{
    match &vu.status {
        Some(s) => {
            let full: String = "full".to_owned();
            *s == full
        },
        None => false,
    }
}

/// After the first query: push the descriptor when the server does not
/// know it, and skip the chunk uploads when the server already holds the
/// whole image.
pub fn upload_descriptor_decision(vu: &ValidateUploadResponse) -> (r: (bool, bool))
    ensures
        r.0 == !descriptor_registered(*vu),
        r.1 == !status_is_full(*vu),
{
    let push_needed = !descriptor_is_registered(vu);
    let full_upload_needed = !status_full(vu);
    (push_needed, full_upload_needed)
}

/// After the descriptor push: the descriptor must be registered and a
/// status reported; chunks are uploaded unless the status is already full.
pub fn full_upload_decision(vu: &ValidateUploadResponse) -> (r: Result<bool, ImgError>)
    ensures
        !descriptor_registered(*vu) ==> r == Err::<bool, ImgError>(ImgError::ProtocolMismatch),
        descriptor_registered(*vu) && vu.status is None ==> r == Err::<bool, ImgError>(
            ImgError::ProtocolMismatch,
        ),
        descriptor_registered(*vu) && vu.status is Some ==> r == Ok::<bool, ImgError>(
            !status_is_full(*vu),
        ),
{
    if !descriptor_is_registered(vu) {
        return Err(ImgError::ProtocolMismatch);
    }
    match &vu.status {
        None => Err(ImgError::ProtocolMismatch),
        Some(_) => Ok(!status_full(vu)),
    }
}

/// Outcome of one validation poll.
#[derive(Debug, Clone, Copy, PartialEq, Eq, Structural)]
pub enum PollStep {
    /// The server reports the upload as full.
    Validated,
    /// Not full yet; sleep and query again.
    Retry,
}

/// Decides a validation poll: done when full, retry while tries remain,
/// and `ValidationTimeout` once the last try was spent.
pub fn poll_validation_decision(full: bool, tries: u64) -> (r: Result<PollStep, ImgError>)
    ensures
        full ==> r == Ok::<PollStep, ImgError>(PollStep::Validated),
        !full && tries < MAX_VALIDATION_TRIES ==> r == Ok::<PollStep, ImgError>(PollStep::Retry),
        !full && tries >= MAX_VALIDATION_TRIES ==> r == Err::<PollStep, ImgError>(
            ImgError::ValidationTimeout,
        ),
{
    if full {
        Ok(PollStep::Validated)
    } else if tries < MAX_VALIDATION_TRIES {
        Ok(PollStep::Retry)
    } else {
        Err(ImgError::ValidationTimeout)
    }
}

/// Turns a checked login into an outcome: invalid credentials are an
/// authentication error.
pub fn login_decision(valid: bool) -> (r: Result<(), ImgError>)
    ensures
        valid ==> r == Ok::<(), ImgError>(()),
        !valid ==> r == Err::<(), ImgError>(ImgError::Auth),
{
    if valid {
        Ok(())
    } else {
        Err(ImgError::Auth)
    }
}

/// The chunks still to upload: those whose flag is not 1, in order. The
/// flags sequence is indexed by chunk number.
pub open spec fn spec_chunks_to_upload(chunks: Seq<ChunkModel>, flags: Seq<u64>) -> Seq<ChunkModel>
    decreases chunks.len(),
{
    if chunks.len() == 0 {
        Seq::empty()
    } else {
        let rest = spec_chunks_to_upload(chunks.drop_last(), flags);
        if flags[chunks.last().chunk_no as int] == 1 {
            rest
        } else {
            rest.push(chunks.last())
        }
    }
}

proof fn lemma_chunks_to_upload_take_step(chunks: Seq<ChunkModel>, flags: Seq<u64>, i: int)
    requires
        0 <= i < chunks.len(),
    ensures
        spec_chunks_to_upload(chunks.take(i + 1), flags) == if flags[chunks[i].chunk_no as int]
            == 1 {
            spec_chunks_to_upload(chunks.take(i), flags)
        } else {
            spec_chunks_to_upload(chunks.take(i), flags).push(chunks[i])
        },
{
    assert(chunks.take(i + 1).drop_last() =~= chunks.take(i));
    assert(chunks.take(i + 1).last() == chunks[i]);
}

/// When the server already holds every chunk, nothing is left to upload:
/// a rerun of a completed upload performs zero chunk uploads.
pub proof fn lemma_resume_uploads_nothing(chunks: Seq<ChunkModel>, flags: Seq<u64>)
    requires
        forall|i: int|
            0 <= i < chunks.len() ==> 0 <= (#[trigger] chunks[i]).chunk_no < flags.len()
                && flags[chunks[i].chunk_no as int] == 1,
    ensures
        spec_chunks_to_upload(chunks, flags) == Seq::<ChunkModel>::empty(),
    decreases chunks.len(),
{
    if chunks.len() > 0 {
        lemma_resume_uploads_nothing(chunks.drop_last(), flags);
    }
}

/// Computes the working set of a resumable upload: every chunk when the
/// server returned no flags, the unflagged ones otherwise. Fails with
/// `ProtocolMismatch` when the flags disagree with the chunk count.
pub fn chunks_to_upload(descr: &FileChunkDesc, uploaded: &Option<Vec<u64>>) -> (r: Result<
    Vec<FileChunk>,
    ImgError,
>)
    requires
        descr@.wf(),
    ensures
        match r {
            Ok(v) => match uploaded {
                Some(flags) => flags@.len() == descr.chunks@.len() && chunk_seq_view(v@)
                    == spec_chunks_to_upload(descr@.chunks, flags@),
                None => chunk_seq_view(v@) == descr@.chunks,
            },
            Err(e) => e == ImgError::ProtocolMismatch && (uploaded matches Some(flags)
                && flags@.len() != descr.chunks@.len()),
        },
{
    let n = descr.chunks.len();
    match uploaded {
        Some(flags) => {
            if flags.len() != n {
                return Err(ImgError::ProtocolMismatch);
            }
            let mut out: Vec<FileChunk> = Vec::new();
            let mut i: usize = 0;
            while i < n
                invariant
                    descr@.wf(),
                    n == descr.chunks@.len(),
                    flags@.len() == n,
                    0 <= i <= n,
                    chunk_seq_view(out@) == spec_chunks_to_upload(
                        descr@.chunks.take(i as int),
                        flags@,
                    ),
                decreases n - i,
            {
                let c = &descr.chunks[i];
                proof {
                    assert(descr@.chunks[i as int] == descr.chunks@[i as int]@);
                    assert(descr@.chunks[i as int].chunk_no == i);
                }
                let flag = flags[c.chunk_no as usize];
                proof {
                    lemma_chunks_to_upload_take_step(descr@.chunks, flags@, i as int);
                }
                if flag != 1 {
                    let copied = FileChunk {
                        chunk_no: c.chunk_no,
                        pos: c.pos,
                        len: c.len,
                        sha256: c.sha256.clone(),
                    };
                    proof {
                        assert(copied.sha256@ =~= c.sha256@);
                        assert(copied@ =~= descr@.chunks[i as int]);
                    }
                    out.push(copied);
                    proof {
                        assert(chunk_seq_view(out@) =~= spec_chunks_to_upload(
                            descr@.chunks.take(i as int + 1),
                            flags@,
                        ));
                    }
                } else {
                    proof {
                        assert(chunk_seq_view(out@) =~= spec_chunks_to_upload(
                            descr@.chunks.take(i as int + 1),
                            flags@,
                        ));
                    }
                }
                i += 1;
            }
            proof {
                assert(descr@.chunks.take(n as int) =~= descr@.chunks);
            }
            Ok(out)
        },
        None => {
            let mut out: Vec<FileChunk> = Vec::new();
            let mut i: usize = 0;
            while i < n
                invariant
                    n == descr.chunks@.len(),
                    0 <= i <= n,
                    chunk_seq_view(out@) == descr@.chunks.take(i as int),
                decreases n - i,
            {
                let c = &descr.chunks[i];
                let copied = FileChunk {
                    chunk_no: c.chunk_no,
                    pos: c.pos,
                    len: c.len,
                    sha256: c.sha256.clone(),
                };
                proof {
                    assert(copied.sha256@ =~= c.sha256@);
                    assert(copied@ =~= descr@.chunks[i as int]);
                }
                let ghost old_out = out@;
                proof {
                    assert(chunk_seq_view(old_out).len() == old_out.len());
                    assert(chunk_seq_view(old_out).len() == descr@.chunks.take(i as int).len());
                    assert(old_out.len() == i as int);
                }
                out.push(copied);
                proof {
                    assert(out@.len() == i as int + 1);
                    assert forall|j: int| 0 <= j < i as int + 1 implies chunk_seq_view(out@)[j]
                        == descr@.chunks.take(i as int + 1)[j] by {
                        assert(chunk_seq_view(out@)[j] == out@[j]@);
                        if j < i as int {
                            assert(out@[j] == old_out[j]);
                            assert(chunk_seq_view(old_out)[j] == old_out[j]@);
                            assert(chunk_seq_view(old_out)[j] == descr@.chunks.take(i as int)[j]);
                        } else {
                            assert(out@[j] == copied);
                        }
                    }
                    assert(chunk_seq_view(out@) =~= descr@.chunks.take(i as int + 1));
                }
                i += 1;
            }
            proof {
                assert(descr@.chunks.take(n as int) =~= descr@.chunks);
            }
            Ok(out)
        },
    }
}

/// The five text fields of a chunk upload request, in order:
/// `descr-sha256`, `chunk-no`, `chunk-sha256` (hex), `chunk-pos`,
/// `chunk-len`.
pub fn chunk_upload_fields(descr_sha256: &str, chunk: &FileChunk) -> (r: Vec<(String, String)>)
    ensures
        r@.len() == 5,
        r@[0].0@ == "descr-sha256"@ && r@[0].1@ == descr_sha256@,
        r@[1].0@ == "chunk-no"@ && r@[1].1@ == dec_str(chunk.chunk_no as int),
        r@[2].0@ == "chunk-sha256"@ && r@[2].1@ == hex_of(chunk.sha256@),
        r@[3].0@ == "chunk-pos"@ && r@[3].1@ == dec_str(chunk.pos as int),
        r@[4].0@ == "chunk-len"@ && r@[4].1@ == dec_str(chunk.len as int),
{
    let mut r: Vec<(String, String)> = Vec::new();
    r.push(("descr-sha256".to_owned(), descr_sha256.to_owned()));
    r.push(("chunk-no".to_owned(), u64_to_dec_string(chunk.chunk_no)));
    r.push(("chunk-sha256".to_owned(), hex_encode(chunk.sha256.as_slice())));
    r.push(("chunk-pos".to_owned(), u64_to_dec_string(chunk.pos)));
    r.push(("chunk-len".to_owned(), u64_to_dec_string(chunk.len)));
    r
}

/// The text fields of an attach request: `tag`, `username`, `repository`,
/// `login`, `token`, and `check=true` for a dry run. Fails with `Config`
/// when the image name has no user part.
pub fn attach_fields(
    image_name: &crate::name::ImageName,
    login_user: &str,
    token: &str,
    check: bool,
) -> (r: Result<Vec<(String, String)>, ImgError>)
    ensures
        match r {
            Ok(v) => {
                &&& image_name.user matches Some(u)
                &&& v@.len() == if check {
                    6int
                } else {
                    5int
                }
                &&& v@[0].0@ == "tag"@ && v@[0].1@ == image_name.tag@
                &&& v@[1].0@ == "username"@ && (image_name.user matches Some(u) && v@[1].1@ == u@)
                &&& v@[2].0@ == "repository"@ && v@[2].1@ == image_name.repository@
                &&& v@[3].0@ == "login"@ && v@[3].1@ == login_user@
                &&& v@[4].0@ == "token"@ && v@[4].1@ == token@
                &&& check ==> v@[5].0@ == "check"@ && v@[5].1@ == "true"@
            },
            Err(e) => e == ImgError::Config && image_name.user is None,
        },
{
    let user = match &image_name.user {
        Some(u) => u.clone(),
        None => {
            return Err(ImgError::Config);
        },
    };
    let mut r: Vec<(String, String)> = Vec::new();
    r.push(("tag".to_owned(), image_name.tag.clone()));
    r.push(("username".to_owned(), user));
    r.push(("repository".to_owned(), image_name.repository.clone()));
    r.push(("login".to_owned(), login_user.to_owned()));
    r.push(("token".to_owned(), token.to_owned()));
    if check {
        r.push(("check".to_owned(), "true".to_owned()));
    }
    Ok(r)
}

/// What was attached where; fails with `Config` when the image name has no
/// user part.
pub fn attach_info(image_name: &crate::name::ImageName, repo_url: &str) -> (r: Result<
    AttachInfo,
    ImgError,
>)
    ensures
        match r {
            Ok(a) => {
                &&& image_name.user matches Some(u) && a.user@ == u@
                &&& a.url@ == repo_url@
                &&& a.repo@ == image_name.repository@
                &&& a.tag@ == image_name.tag@
            },
            Err(e) => e == ImgError::Config && image_name.user is None,
        },
{
    match &image_name.user {
        Some(u) => Ok(
            AttachInfo {
                url: repo_url.to_owned(),
                user: u.clone(),
                repo: image_name.repository.clone(),
                tag: image_name.tag.clone(),
            },
        ),
        None => Err(ImgError::Config),
    }
}

/// Decides a login response: 200 is a valid login, 401 an invalid one,
/// anything else a network failure carrying the code.
pub fn login_response_decision(status: u16) -> (r: Result<bool, ImgError>)
    ensures
        status == 200 ==> r == Ok::<bool, ImgError>(true),
        status == 401 ==> r == Ok::<bool, ImgError>(false),
        status != 200 && status != 401 ==> r == Err::<bool, ImgError>(ImgError::Network(status)),
{
    if status == 200 {
        Ok(true)
    } else if status == 401 {
        Ok(false)
    } else {
        Err(ImgError::Network(status))
    }
}

/// Decides a descriptor or chunk push response: any 2xx code succeeds.
pub fn push_response_decision(status: u16) -> (r: Result<(), ImgError>)
    ensures
        200 <= status < 300 ==> r == Ok::<(), ImgError>(()),
        !(200 <= status < 300) ==> r == Err::<(), ImgError>(ImgError::Network(status)),
{
    if 200 <= status && status < 300 {
        Ok(())
    } else {
        Err(ImgError::Network(status))
    }
}

/// Decides an attach response: only 200 succeeds.
pub fn attach_response_decision(status: u16) -> (r: Result<(), ImgError>)
    ensures
        status == 200 ==> r == Ok::<(), ImgError>(()),
        status != 200 ==> r == Err::<(), ImgError>(ImgError::Network(status)),
{
    if status == 200 {
        Ok(())
    } else {
        Err(ImgError::Network(status))
    }
}

/// The login endpoint under a registry base URL.
pub fn login_endpoint(repo_url: &str) -> (r: String)
    ensures
        r@ == repo_url@ + "/auth/pat/login"@,
{
    let mut r = repo_url.to_owned();
    r.append("/auth/pat/login");
    r
}

/// The descriptor query endpoint for a registry hash.
pub fn descr_query_endpoint(repo_url: &str, descr_sha256: &str) -> (r: String)
    ensures
        r@ == repo_url@ + "/v1/image/descr/"@ + descr_sha256@,
{
    let mut r = repo_url.to_owned();
    r.append("/v1/image/descr/");
    r.append(descr_sha256);
    r
}

/// The descriptor push endpoint.
pub fn push_descr_endpoint(repo_url: &str) -> (r: String)
    ensures
        r@ == repo_url@ + "/v1/image/push/descr"@,
{
    let mut r = repo_url.to_owned();
    r.append("/v1/image/push/descr");
    r
}

/// The chunk push endpoint.
pub fn push_chunk_endpoint(repo_url: &str) -> (r: String)
    ensures
        r@ == repo_url@ + "/v1/image/push/chunk"@,
{
    let mut r = repo_url.to_owned();
    r.append("/v1/image/push/chunk");
    r
}

/// The attach endpoint for a registry hash.
pub fn attach_endpoint(repo_url: &str, descr_sha256: &str) -> (r: String)
    ensures
        r@ == repo_url@ + "/v1/image/descr/attach/"@ + descr_sha256@,
{
    let mut r = repo_url.to_owned();
    r.append("/v1/image/descr/attach/");
    r.append(descr_sha256);
    r
}

} // verus!
