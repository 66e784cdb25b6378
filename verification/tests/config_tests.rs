use gvmkit_build::config::{
    auto_chunk_size, cached_descriptor_usable, check_push_config, normalize_registry_url,
    split_credentials, validate_compression_method, CHUNK_SIZE_LARGE, CHUNK_SIZE_MEDIUM,
    CHUNK_SIZE_SMALL,
};
use gvmkit_build::chunks::create_descriptor_from_bytes;
use gvmkit_build::errors::ImgError;

#[test]
fn auto_chunk_size_tiers() {
    assert_eq!(auto_chunk_size(0), CHUNK_SIZE_SMALL);
    assert_eq!(auto_chunk_size(200 * 1024 * 1024), CHUNK_SIZE_SMALL);
    assert_eq!(auto_chunk_size(200 * 1024 * 1024 + 1), CHUNK_SIZE_MEDIUM);
    assert_eq!(auto_chunk_size(500 * 1024 * 1024), CHUNK_SIZE_MEDIUM);
    assert_eq!(auto_chunk_size(500 * 1024 * 1024 + 1), CHUNK_SIZE_LARGE);
    assert_eq!(auto_chunk_size(6 * 1024 * 1024), 2 * 1024 * 1024);
}

#[test]
fn registry_url_is_trimmed() {
    assert_eq!(
        normalize_registry_url("https://registry.golem.network/"),
        "https://registry.golem.network"
    );
    assert_eq!(
        normalize_registry_url("https://registry.golem.network///"),
        "https://registry.golem.network"
    );
    assert_eq!(
        normalize_registry_url("https://registry.golem.network"),
        "https://registry.golem.network"
    );
    assert_eq!(normalize_registry_url("///"), "");
}

#[test]
fn push_config_check() {
    assert_eq!(check_push_config(true, true), Err(ImgError::Config));
    assert_eq!(check_push_config(true, false), Ok(()));
    assert_eq!(check_push_config(false, true), Ok(()));
}

#[test]
fn compression_methods() {
    assert!(validate_compression_method("lzo"));
    assert!(validate_compression_method("gzip"));
    assert!(validate_compression_method("lz4"));
    assert!(validate_compression_method("zstd"));
    assert!(validate_compression_method("xz"));
    assert!(!validate_compression_method("brotli"));
    assert!(!validate_compression_method(""));
}

#[test]
fn descriptor_cache_rules() {
    let data = vec![0u8; 100];
    let descr = create_descriptor_from_bytes(&data, 100, 50).unwrap();
    assert!(cached_descriptor_usable(&descr, 50, true));
    assert!(!cached_descriptor_usable(&descr, 50, false));
    assert!(!cached_descriptor_usable(&descr, 64, true));
}

#[test]
fn stored_credentials_split() {
    let r = split_credentials("alice:tok3n").unwrap();
    assert_eq!(r.0, "alice");
    assert_eq!(r.1, "tok3n");
    // Everything after a second colon is dropped.
    let r = split_credentials("alice:tok:extra").unwrap();
    assert_eq!(r.0, "alice");
    assert_eq!(r.1, "tok");
    // No colon: no credentials.
    assert!(split_credentials("alice").is_none());
    // Empty parts still split.
    let r = split_credentials(":").unwrap();
    assert_eq!(r.0, "");
    assert_eq!(r.1, "");
}
