use booru_dl::hash::{hash_bytes, FileHasher};

const CONTENT: &[u8] = b"The quick brown fox jumps over the lazy dog";

#[test]
fn test_md5_hash_file() {
    let hash = hash_bytes(b"");
    assert_eq!(hash, "d41d8cd98f00b204e9800998ecf8427e");

    let hash = hash_bytes(CONTENT);
    assert_eq!(hash, "9e107d9d372bb6826bd81d3542a419d6");
}

#[test]
fn incremental_hash_equals_whole() {
    let mut h = FileHasher::new();
    h.feed(b"The quick brown fox ");
    h.feed(b"jumps over the lazy dog");
    assert_eq!(h.finish(), "9e107d9d372bb6826bd81d3542a419d6");

    let h = FileHasher::new();
    assert_eq!(h.finish(), "d41d8cd98f00b204e9800998ecf8427e");
}
