use m3u8_dl::cache::{cache_dir_for, fnv1a_hash, is_cache_hit, segment_cache_path, u64_decimal};

#[test]
fn hash_matches_fnv1a_of_the_bytes() {
    // Fold the reference FNV-1a computation by hand and compare.
    let data = b"https://h.example/live/index.m3u8";
    let mut h: u64 = 0xcbf29ce484222325;
    for &b in data.iter() {
        h ^= b as u64;
        h = h.wrapping_mul(0x100000001b3);
    }
    assert_eq!(fnv1a_hash(data), h);
}

#[test]
fn hash_of_empty_is_offset_basis() {
    assert_eq!(fnv1a_hash(b""), 0xcbf29ce484222325);
}

#[test]
fn decimal_rendering_is_exact() {
    assert_eq!(u64_decimal(0), b"0".to_vec());
    assert_eq!(u64_decimal(10), b"10".to_vec());
    assert_eq!(u64_decimal(1234567890123), b"1234567890123".to_vec());
    assert_eq!(u64_decimal(u64::MAX), b"18446744073709551615".to_vec());
}

#[test]
fn cache_dir_is_deterministic_per_url() {
    let root = b"/tmp/cache".to_vec();
    let url = b"https://h.example/live/index.m3u8".to_vec();
    let a = cache_dir_for(&root, &url);
    let b = cache_dir_for(&root, &url);
    assert_eq!(a, b);
    let expected_prefix = b"/tmp/cache/m3u8-dl/".to_vec();
    assert_eq!(&a[..expected_prefix.len()], &expected_prefix[..]);
    let other = cache_dir_for(&root, &b"https://h.example/other.m3u8".to_vec());
    assert_ne!(a, other);
}

#[test]
fn segment_path_uses_basename() {
    let dir = b"/tmp/cache/m3u8-dl/42".to_vec();
    let p = segment_cache_path(&dir, &b"media/seg001.ts".to_vec());
    assert_eq!(p, b"/tmp/cache/m3u8-dl/42/seg001.ts".to_vec());
    let q = segment_cache_path(&dir, &b"seg002.ts".to_vec());
    assert_eq!(q, b"/tmp/cache/m3u8-dl/42/seg002.ts".to_vec());
}

#[test]
fn zero_length_file_is_not_a_hit() {
    assert!(!is_cache_hit(false, true, 0));
    assert!(is_cache_hit(false, true, 188));
    assert!(!is_cache_hit(false, false, 0));
    // Force-reload bypasses the cache whatever the file looks like.
    assert!(!is_cache_hit(true, true, 188));
}
