use std::iter::repeat_with;

use gvmkit_build::chunks::{create_descriptor_from_bytes, FileChunk, FileChunkDesc};
use gvmkit_build::config::auto_chunk_size;
use gvmkit_build::errors::ImgError;
use gvmkit_build::upload::{
    attach_fields, attach_response_decision, chunk_upload_fields, chunks_to_upload,
    descriptor_is_registered, full_upload_decision, login_decision, login_response_decision,
    poll_validation_decision, push_response_decision, status_full, upload_descriptor_decision,
    PollStep, ValidateUploadResponse, MAX_VALIDATION_TRIES,
};

fn pseudo_random_bytes(seed: u64, n: usize) -> Vec<u8> {
    let mut rng = fastrand::Rng::with_seed(seed);
    repeat_with(|| rng.u8(..)).take(n).collect()
}

/// A registry stand-in: it tracks the descriptor and per-chunk presence the
/// way the protocol describes them, and counts the requests made.
struct FakeRegistry {
    descriptor_known: bool,
    chunk_present: Vec<bool>,
    descriptor_pushes: usize,
    chunk_pushes: usize,
    fail_chunk: Option<u64>,
}

impl FakeRegistry {
    fn new(n_chunks: usize) -> Self {
        FakeRegistry {
            descriptor_known: false,
            chunk_present: vec![false; n_chunks],
            descriptor_pushes: 0,
            chunk_pushes: 0,
            fail_chunk: None,
        }
    }

    fn query(&self) -> ValidateUploadResponse {
        if !self.descriptor_known {
            return ValidateUploadResponse {
                descriptor: "missing".to_string(),
                version: None,
                status: None,
                chunks: None,
            };
        }
        let full = self.chunk_present.iter().all(|p| *p);
        ValidateUploadResponse {
            descriptor: "ok".to_string(),
            version: Some(1),
            status: Some(if full { "full" } else { "partial" }.to_string()),
            chunks: Some(
                self.chunk_present
                    .iter()
                    .map(|p| if *p { 1 } else { 0 })
                    .collect(),
            ),
        }
    }

    fn push_descriptor(&mut self) -> u16 {
        self.descriptor_pushes += 1;
        self.descriptor_known = true;
        200
    }

    fn push_chunk(&mut self, chunk_no: u64) -> u16 {
        self.chunk_pushes += 1;
        if self.fail_chunk == Some(chunk_no) {
            return 500;
        }
        self.chunk_present[chunk_no as usize] = true;
        200
    }
}

/// Drives one full upload against the fake registry with the library's
/// decision functions, the way the client runs them.
fn run_full_upload(registry: &mut FakeRegistry, descr: &FileChunkDesc) -> Result<(), ImgError> {
    // Query, push the descriptor if unknown, and stop early when full.
    let vu = registry.query();
    let (push_needed, full_needed) = upload_descriptor_decision(&vu);
    if push_needed {
        push_response_decision(registry.push_descriptor())?;
    }
    if !full_needed {
        return Ok(());
    }
    let vu = registry.query();
    let chunks_needed = full_upload_decision(&vu)?;
    if chunks_needed {
        let missing = chunks_to_upload(descr, &vu.chunks)?;
        // Workers run in parallel: a failing chunk does not stop the ones
        // already in flight, but fails the whole operation afterwards.
        let mut first_err: Option<ImgError> = None;
        for chunk in &missing {
            if let Err(e) = push_response_decision(registry.push_chunk(chunk.chunk_no)) {
                if first_err.is_none() {
                    first_err = Some(e);
                }
            }
        }
        if let Some(e) = first_err {
            return Err(e);
        }
        let mut tries: u64 = 1;
        loop {
            let vu = registry.query();
            match poll_validation_decision(status_full(&vu), tries)? {
                PollStep::Validated => break,
                PollStep::Retry => tries += 1,
            }
        }
    }
    Ok(())
}

#[test]
fn full_upload_six_mib_image() {
    // A 6 MiB image gets the 2 MiB automatic chunk size and three chunks;
    // one descriptor push and three chunk pushes bring the server to full.
    let size: usize = 6 * 1024 * 1024;
    let data = pseudo_random_bytes(42, size);
    let chunk_size = auto_chunk_size(size as u64);
    assert_eq!(chunk_size, 2 * 1024 * 1024);
    let descr = create_descriptor_from_bytes(&data, size as u64, chunk_size).unwrap();
    assert_eq!(descr.chunks.len(), 3);

    let mut registry = FakeRegistry::new(3);
    run_full_upload(&mut registry, &descr).unwrap();
    assert_eq!(registry.descriptor_pushes, 1);
    assert_eq!(registry.chunk_pushes, 3);
    assert!(status_full(&registry.query()));
}

#[test]
fn upload_is_idempotent() {
    // Running the upload twice ends in full both times; the second run
    // performs zero chunk uploads.
    let data = pseudo_random_bytes(43, 5000);
    let descr = create_descriptor_from_bytes(&data, 5000, 1000).unwrap();
    let h1 = descr.get_descr_hash_str();

    let mut registry = FakeRegistry::new(5);
    run_full_upload(&mut registry, &descr).unwrap();
    assert!(status_full(&registry.query()));
    assert_eq!(registry.chunk_pushes, 5);

    let descr_again = create_descriptor_from_bytes(&data, 5000, 1000).unwrap();
    assert_eq!(descr_again.get_descr_hash_str(), h1);
    run_full_upload(&mut registry, &descr_again).unwrap();
    assert!(status_full(&registry.query()));
    assert_eq!(registry.chunk_pushes, 5);
    assert_eq!(registry.descriptor_pushes, 1);
}

#[test]
fn resume_after_failed_chunk() {
    // The first run fails on chunk 1 of 3 and leaves the server partial
    // with chunks 0 and 2 present; the second run pushes exactly one chunk
    // and reaches full.
    let data = pseudo_random_bytes(44, 3000);
    let descr = create_descriptor_from_bytes(&data, 3000, 1000).unwrap();

    let mut registry = FakeRegistry::new(3);
    registry.fail_chunk = Some(1);
    let err = run_full_upload(&mut registry, &descr).unwrap_err();
    assert_eq!(err, ImgError::Network(500));
    let vu = registry.query();
    assert_eq!(vu.status.as_deref(), Some("partial"));
    assert_eq!(vu.chunks, Some(vec![1, 0, 1]));

    registry.fail_chunk = None;
    let pushes_before = registry.chunk_pushes;
    run_full_upload(&mut registry, &descr).unwrap();
    assert_eq!(registry.chunk_pushes, pushes_before + 1);
    assert!(status_full(&registry.query()));
}

#[test]
fn empty_image_uploads_without_chunks() {
    let descr = create_descriptor_from_bytes(&[], 0, 1000).unwrap();
    let mut registry = FakeRegistry::new(0);
    run_full_upload(&mut registry, &descr).unwrap();
    assert_eq!(registry.descriptor_pushes, 1);
    assert_eq!(registry.chunk_pushes, 0);
}

#[test]
fn short_chunk_list_is_protocol_mismatch() {
    let data = pseudo_random_bytes(45, 3000);
    let descr = create_descriptor_from_bytes(&data, 3000, 1000).unwrap();
    let flags = Some(vec![1u64, 0]);
    let err = chunks_to_upload(&descr, &flags).unwrap_err();
    assert_eq!(err, ImgError::ProtocolMismatch);
}

#[test]
fn missing_chunk_list_means_all_chunks() {
    let data = pseudo_random_bytes(46, 3000);
    let descr = create_descriptor_from_bytes(&data, 3000, 1000).unwrap();
    let all = chunks_to_upload(&descr, &None).unwrap();
    assert_eq!(all.len(), 3);
    let chunk_nos: Vec<u64> = all.iter().map(|c| c.chunk_no).collect();
    assert_eq!(chunk_nos, vec![0, 1, 2]);
}

#[test]
fn chunk_upload_fields_are_exact() {
    let chunk = FileChunk {
        chunk_no: 7,
        pos: 7000,
        len: 912,
        sha256: (0u8..32).collect(),
    };
    let fields = chunk_upload_fields("deadbeef", &chunk);
    assert_eq!(fields.len(), 5);
    assert_eq!(fields[0].0, "descr-sha256");
    assert_eq!(fields[0].1, "deadbeef");
    assert_eq!(fields[1].0, "chunk-no");
    assert_eq!(fields[1].1, "7");
    assert_eq!(fields[2].0, "chunk-sha256");
    assert_eq!(
        fields[2].1,
        "000102030405060708090a0b0c0d0e0f101112131415161718191a1b1c1d1e1f"
    );
    assert_eq!(fields[3].0, "chunk-pos");
    assert_eq!(fields[3].1, "7000");
    assert_eq!(fields[4].0, "chunk-len");
    assert_eq!(fields[4].1, "912");
}

#[test]
fn attach_fields_require_a_user() {
    let named = gvmkit_build::name::ImageName::from_str_name("user/repo:tag").unwrap();
    let fields = attach_fields(&named, "login-user", "secret", true).unwrap();
    assert_eq!(fields.len(), 6);
    assert_eq!(fields[0], ("tag".to_string(), "tag".to_string()));
    assert_eq!(fields[1], ("username".to_string(), "user".to_string()));
    assert_eq!(fields[2], ("repository".to_string(), "repo".to_string()));
    assert_eq!(fields[3], ("login".to_string(), "login-user".to_string()));
    assert_eq!(fields[4], ("token".to_string(), "secret".to_string()));
    assert_eq!(fields[5], ("check".to_string(), "true".to_string()));
    let fields = attach_fields(&named, "login-user", "secret", false).unwrap();
    assert_eq!(fields.len(), 5);

    let unnamed = gvmkit_build::name::ImageName::from_str_name("repo:tag").unwrap();
    let err = attach_fields(&unnamed, "login-user", "secret", false).unwrap_err();
    assert_eq!(err, ImgError::Config);
}

#[test]
fn response_decisions() {
    assert_eq!(login_response_decision(200), Ok(true));
    assert_eq!(login_response_decision(401), Ok(false));
    assert_eq!(login_response_decision(503), Err(ImgError::Network(503)));
    assert_eq!(push_response_decision(204), Ok(()));
    assert_eq!(push_response_decision(404), Err(ImgError::Network(404)));
    assert_eq!(attach_response_decision(200), Ok(()));
    assert_eq!(attach_response_decision(201), Err(ImgError::Network(201)));
    assert_eq!(login_decision(true), Ok(()));
    assert_eq!(login_decision(false), Err(ImgError::Auth));
}

#[test]
fn validation_poll_times_out() {
    assert_eq!(poll_validation_decision(true, 1), Ok(PollStep::Validated));
    assert_eq!(poll_validation_decision(false, 1), Ok(PollStep::Retry));
    assert_eq!(
        poll_validation_decision(false, MAX_VALIDATION_TRIES),
        Err(ImgError::ValidationTimeout)
    );
}

#[test]
fn descriptor_states_are_read_exactly() {
    let vu = ValidateUploadResponse {
        descriptor: "missing".to_string(),
        version: None,
        status: None,
        chunks: None,
    };
    assert!(!descriptor_is_registered(&vu));
    assert_eq!(upload_descriptor_decision(&vu), (true, true));
    assert_eq!(full_upload_decision(&vu), Err(ImgError::ProtocolMismatch));

    let vu = ValidateUploadResponse {
        descriptor: "ok".to_string(),
        version: Some(1),
        status: None,
        chunks: None,
    };
    assert!(descriptor_is_registered(&vu));
    assert_eq!(full_upload_decision(&vu), Err(ImgError::ProtocolMismatch));

    let vu = ValidateUploadResponse {
        descriptor: "ok".to_string(),
        version: Some(1),
        status: Some("full".to_string()),
        chunks: None,
    };
    assert!(status_full(&vu));
    assert_eq!(upload_descriptor_decision(&vu), (false, false));
    assert_eq!(full_upload_decision(&vu), Ok(false));
}
