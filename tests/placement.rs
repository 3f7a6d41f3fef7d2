use tokio::io::AsyncWriteExt;

use storage_plus::ids::new_object_key;
use storage_plus::placement::join_path;
use storage_plus::{SegmentError, SegmentRole, StorageError, StorageImpl};

fn invalid(role: SegmentRole, reason: SegmentError) -> StorageError {
    StorageError::InvalidSegment { role, reason }
}

#[test]
fn resolve_builds_root_shard_object() {
    let s = StorageImpl::new("/mnt/pool".to_string());
    assert_eq!(s.resolve_path("U1", "obj").unwrap(), "/mnt/pool/U1/obj");
    let s = StorageImpl::new("/mnt/pool/".to_string());
    assert_eq!(s.resolve_path("U1", "obj").unwrap(), "/mnt/pool/U1/obj");
    assert_eq!(s.root(), "/mnt/pool/");
}

#[test]
fn resolve_rejects_traversal_in_either_key() {
    let s = StorageImpl::new("/mnt/pool".to_string());
    assert_eq!(s.resolve_path("..", "obj"), Err(invalid(SegmentRole::Shard, SegmentError::DotName)));
    assert_eq!(s.resolve_path(".", "obj"), Err(invalid(SegmentRole::Shard, SegmentError::DotName)));
    assert_eq!(s.resolve_path("", "obj"), Err(invalid(SegmentRole::Shard, SegmentError::Empty)));
    assert_eq!(s.resolve_path("a/b", "obj"), Err(invalid(SegmentRole::Shard, SegmentError::HasSeparator)));
    assert_eq!(s.resolve_path("a\\b", "obj"), Err(invalid(SegmentRole::Shard, SegmentError::HasSeparator)));
    assert_eq!(s.resolve_path("U1", ".."), Err(invalid(SegmentRole::Object, SegmentError::DotName)));
    assert_eq!(s.resolve_path("U1", ""), Err(invalid(SegmentRole::Object, SegmentError::Empty)));
    assert_eq!(s.resolve_path("U1", "../etc"), Err(invalid(SegmentRole::Object, SegmentError::HasSeparator)));
    assert_eq!(s.resolve_path("..", ""), Err(invalid(SegmentRole::Shard, SegmentError::DotName)));
    assert!(s.resolve_path("U1", "...").is_ok());
    assert!(s.resolve_path("U1", ".hidden").is_ok());
}

#[test]
fn ensure_segment_cases() {
    assert_eq!(StorageImpl::ensure_segment("dev-123", SegmentRole::Shard), Ok(()));
    assert_eq!(
        StorageImpl::ensure_segment("", SegmentRole::Object),
        Err(invalid(SegmentRole::Object, SegmentError::Empty))
    );
}

#[test]
fn join_path_cases() {
    assert_eq!(join_path("", "a"), "a");
    assert_eq!(join_path("/", "a"), "/a");
    assert_eq!(join_path("/x", "a"), "/x/a");
}

#[test]
fn object_keys_are_hyphenated_uuids() {
    let a = new_object_key();
    let b = new_object_key();
    assert_eq!(a.len(), 36);
    assert_ne!(a, b);
    for (i, c) in a.chars().enumerate() {
        if i == 8 || i == 13 || i == 18 || i == 23 {
            assert_eq!(c, '-');
        } else {
            assert!(c.is_ascii_hexdigit() && !c.is_ascii_uppercase());
        }
    }
}

#[test]
fn write_session_counts_bytes_and_stays_in_one_directory() {
    let s = StorageImpl::new("/mnt/pool".to_string());
    let w = s.begin_write("U1", "obj", "tag").unwrap();
    assert_eq!(w.dir(), "/mnt/pool/U1");
    assert_eq!(w.final_path(), "/mnt/pool/U1/obj");
    assert_eq!(w.temp_path(), "/mnt/pool/U1/obj.tag.part");
    assert_eq!(w.total(), 0);
    assert!(s.begin_write("U1", "a/b", "tag").is_err());
}

#[test]
fn upload_of_ten_megabytes_lands_under_the_device() {
    let s = StorageImpl::new("/mnt/pool".to_string());
    let (key, mut w) = s.begin_upload("U1").unwrap();
    assert_eq!(key.len(), 36);
    assert!(w.temp_path().starts_with("/mnt/pool/U1/"));
    assert_ne!(w.temp_path(), w.final_path());
    let mut left: usize = 10 * 1024 * 1024;
    while left > 0 {
        let n = if left > 64 * 1024 { 64 * 1024 } else { left };
        w.record_chunk(n).unwrap();
        left -= n;
    }
    let (path, size) = w.finish();
    assert_eq!(size, 10485760);
    assert_eq!(path, format!("/mnt/pool/U1/{}", key));
}

#[test]
fn upload_to_invalid_shard_is_refused() {
    let s = StorageImpl::new("/mnt/pool".to_string());
    assert_eq!(
        s.begin_upload("..").err(),
        Some(invalid(SegmentRole::Shard, SegmentError::DotName))
    );
}

#[test]
fn byte_count_overflow_is_an_error() {
    let s = StorageImpl::new("/r".to_string());
    let mut w = s.begin_write("d", "o", "t").unwrap();
    w.record_chunk(5).unwrap();
    assert_eq!(w.record_chunk(usize::MAX), Err(StorageError::SizeOverflow));
    assert_eq!(w.total(), 5);
    w.record_chunk((i64::MAX - 5) as usize).unwrap();
    assert_eq!(w.total(), i64::MAX);
    assert_eq!(w.record_chunk(1), Err(StorageError::SizeOverflow));
}

#[test]
fn write_and_delete_roundtrip() {
    let rt = tokio::runtime::Builder::new_current_thread().enable_all().build().unwrap();
    rt.block_on(async {
        let tmp_dir = format!("/tmp/storage-plus-test-{}", new_object_key());
        tokio::fs::create_dir_all(&tmp_dir).await.unwrap();
        let storage = StorageImpl::new(tmp_dir.clone());
        let device_uuid = "dev-123";
        let object_key = "obj-456";
        let data = b"hello world".to_vec();

        let mut w = storage.begin_write_fresh(device_uuid, object_key).unwrap();
        tokio::fs::create_dir_all(w.dir()).await.unwrap();
        for chunk in data.chunks(1024) {
            let mut f = tokio::fs::OpenOptions::new()
                .create(true)
                .append(true)
                .open(w.temp_path())
                .await
                .unwrap();
            f.write_all(chunk).await.unwrap();
            w.record_chunk(chunk.len()).unwrap();
        }
        tokio::fs::rename(w.temp_path(), w.final_path()).await.unwrap();
        let (path, sz) = w.finish();
        assert_eq!(sz, data.len() as i64);
        assert!(tokio::fs::metadata(&path).await.is_ok());
        assert!(std::path::Path::new(&path).starts_with(std::path::Path::new(&tmp_dir).join(device_uuid)));

        let read_path = storage.resolve_path(device_uuid, object_key).unwrap();
        let bytes = tokio::fs::read(&read_path).await.unwrap();
        assert_eq!(bytes, data);

        tokio::fs::remove_file(&read_path).await.unwrap();
        assert!(tokio::fs::metadata(&path).await.is_err());
        tokio::fs::remove_dir_all(&tmp_dir).await.unwrap();
    });
}
