use m3u8_dl::urls::parse_url;

fn resolve(base: &str, uri: &str) -> String {
    let r = parse_url(&base.as_bytes().to_vec(), &uri.as_bytes().to_vec());
    String::from_utf8(r).unwrap()
}

#[test]
fn relative_uri_joins_playlist_directory() {
    assert_eq!(
        resolve("https://h.example/live/index.m3u8", "seg001.ts"),
        "https://h.example/live/seg001.ts"
    );
}

#[test]
fn rooted_uri_replaces_path_component() {
    assert_eq!(
        resolve("https://h.example/live/index.m3u8", "/abs/seg.ts"),
        "https://h.example/abs/seg.ts"
    );
}

#[test]
fn absolute_uri_passes_through() {
    assert_eq!(
        resolve("https://h.example/live/index.m3u8", "https://other.example/x.ts"),
        "https://other.example/x.ts"
    );
}

#[test]
fn http_base_and_nested_directories() {
    assert_eq!(
        resolve("http://h.example/a/b/c/list.m3u8", "part.ts"),
        "http://h.example/a/b/c/part.ts"
    );
}

#[test]
fn rooted_uri_on_root_path() {
    assert_eq!(resolve("https://h.example/index.m3u8", "/x/y.ts"), "https://h.example/x/y.ts");
}

#[test]
fn query_text_does_not_shift_the_directory() {
    // Slashes inside the query are not path directories.
    assert_eq!(
        resolve("https://h.example/live/index.m3u8?p=/a/b/", "seg.ts"),
        "https://h.example/live/seg.ts"
    );
    assert_eq!(
        resolve("https://h.example/live/index.m3u8#frag/x", "seg.ts"),
        "https://h.example/live/seg.ts"
    );
    assert_eq!(
        resolve("https://h.example/live/index.m3u8?p=/a/", "/abs.ts"),
        "https://h.example/abs.ts"
    );
}
