use rv::storage::{
    blob_from_stored, metadata_for, validate_key, Blob, FilesystemStorage, StorageError,
};

#[test]
fn test_filesystem_storage_rejects_unsafe_keys() {
    let storage = FilesystemStorage::new("/tmp/compact-index-cache".to_string());
    for key in ["info/../../owned", "/owned", r"info\..\owned", "C:/owned"] {
        let result = storage.resolve_path(key);
        assert!(
            matches!(result, Err(StorageError::InvalidKey)),
            "{key} should be rejected"
        );
        assert!(matches!(storage.metadata_path(key), Err(StorageError::InvalidKey)));
    }
}

#[test]
fn safe_keys_resolve_below_the_root() {
    let storage = FilesystemStorage::new("/tmp/cache".to_string());
    assert_eq!(storage.resolve_path("info/demo").unwrap(), "/tmp/cache/info/demo");
    assert_eq!(
        storage.metadata_path("info/demo").unwrap(),
        "/tmp/cache/metadata/info/demo.json"
    );
    assert_eq!(storage.base_path(), "/tmp/cache");
    let storage = FilesystemStorage::new("/tmp/cache/".to_string());
    assert_eq!(storage.resolve_path("versions").unwrap(), "/tmp/cache/versions");
}

#[test]
fn key_rules() {
    for key in ["versions", "info/rack", "info/rack-1.0_x"] {
        assert!(validate_key(key).is_ok(), "{key} should be accepted");
    }
    for key in ["", "info//rack", "info/./rack", "info/", "./info", "a:b", "info\\rack"] {
        assert!(matches!(validate_key(key), Err(StorageError::InvalidKey)), "{key} should be rejected");
    }
}

#[test]
fn blob_builders_and_getters() {
    let blob = Blob::new(b"Hello, World!".to_vec());
    assert_eq!(blob.etag, None);
    let blob = Blob::new(b"content".to_vec()).with_etag("W/\"abc123\"".to_string());
    assert_eq!(blob.etag, Some("W/\"abc123\"".to_string()));
    assert_eq!(blob.etag(), Some("W/\"abc123\""));
    assert_eq!(blob.sha256(), None);
    assert_eq!(blob.size(), 7);
    let blob = blob.with_sha256("digest".to_string());
    assert_eq!(blob.sha256(), Some("digest"));
    let blob = Blob::with_metadata(vec![1, 2], None, Some("d".to_string()));
    assert_eq!(blob.content, vec![1, 2]);
    assert_eq!(blob.sha256.as_deref(), Some("d"));
}

#[test]
fn append_joins_content_and_replaces_metadata() {
    let original = Blob::new(b"Hello, ".to_vec()).with_etag("old".to_string());
    let updated = original.append(b"World!", Some("new-etag".to_string()), None);
    assert_eq!(updated.content, b"Hello, World!");
    assert_eq!(updated.etag, Some("new-etag".to_string()));
    assert_eq!(updated.sha256, None);
}

#[test]
fn verify_checks_the_sha256_digest() {
    // SHA-256 of "hello", in standard base64.
    let digest = "LPJNul+wow4m6DsqxbninhsWHlwfp0JecwQzYpOLmCQ=";
    assert!(Blob::new(b"hello".to_vec()).verify().is_ok());
    assert!(Blob::new(b"hello".to_vec()).with_sha256(digest.to_string()).verify().is_ok());
    assert!(matches!(
        Blob::new(vec![]).with_sha256(digest.to_string()).verify(),
        Err(StorageError::EmptyContent)
    ));
    match Blob::new(b"hellO".to_vec()).with_sha256(digest.to_string()).verify() {
        Err(StorageError::MismatchedChecksum { path, message }) => {
            assert_eq!(path, "blob");
            assert!(message.starts_with(&format!("Expected digest {digest}, got ")));
            assert!(!message.ends_with(digest));
        }
        other => panic!("unexpected result {other:?}"),
    }
}

#[test]
fn reading_back_gives_what_was_written() {
    let blob = Blob::new(b"test content".to_vec())
        .with_etag("test-etag".to_string())
        .with_sha256("x".to_string());
    let metadata = metadata_for(&blob);
    assert_eq!(metadata.bytesize, 12);
    let read = blob_from_stored(blob.content.clone(), Some(metadata));
    assert_eq!(read.content, blob.content);
    assert_eq!(read.etag(), Some("test-etag"));
    assert_eq!(read.sha256(), Some("x"));
    let read = blob_from_stored(b"content".to_vec(), None);
    assert_eq!(read.etag, None);
    assert_eq!(read.sha256, None);
}
