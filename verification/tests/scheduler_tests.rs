use m3u8_dl::errors::DlError;
use m3u8_dl::key::KeyType;
use m3u8_dl::scheduler::{key_fetch_plan, plan_segments, CacheProbe, SegmentTask};
use m3u8_dl::segment::{KeyRef, SegmentInfo};

fn seg(uri: &str) -> SegmentInfo {
    SegmentInfo { uri: uri.as_bytes().to_vec(), key: None }
}

fn seg_with_key(uri: &str, method: &str, key_uri: Option<&str>) -> SegmentInfo {
    SegmentInfo {
        uri: uri.as_bytes().to_vec(),
        key: Some(KeyRef {
            method: method.as_bytes().to_vec(),
            iv: None,
            uri: key_uri.map(|u| u.as_bytes().to_vec()),
        }),
    }
}

fn miss() -> CacheProbe {
    CacheProbe { exists: false, size: 0 }
}

fn hit() -> CacheProbe {
    CacheProbe { exists: true, size: 188 }
}

const BASE: &str = "https://h.example/live/index.m3u8";

fn base() -> Vec<u8> {
    BASE.as_bytes().to_vec()
}

fn dir() -> Vec<u8> {
    b"/tmp/cache/m3u8-dl/1".to_vec()
}

#[test]
fn fragment_limit_takes_exactly_the_prefix() {
    // Five segments, a cap of two: exactly segments 0 and 1 are planned.
    let segs: Vec<SegmentInfo> =
        vec![seg("s0.ts"), seg("s1.ts"), seg("s2.ts"), seg("s3.ts"), seg("s4.ts")];
    let probes = vec![miss(), miss()];
    let plan = plan_segments(&segs, Some(2), &Vec::new(), &probes, false, &base(), &dir());
    assert_eq!(plan.len(), 2);
    for (i, task) in plan.iter().enumerate() {
        match task {
            SegmentTask::Fetch { index, url, .. } => {
                assert_eq!(*index, i);
                assert_eq!(
                    String::from_utf8(url.clone()).unwrap(),
                    format!("https://h.example/live/s{}.ts", i)
                );
            },
            SegmentTask::Cached { .. } => panic!("nothing is cached here"),
        }
    }
}

#[test]
fn keys_are_inherited_sequentially() {
    // [s0: K1, s1: no key, s2: K2, s3: no key]:
    // s1 decodes with K1 and s3 decodes with K2.
    let segs = vec![
        seg_with_key("s0.ts", "AES-128", Some("https://h.example/k1")),
        seg("s1.ts"),
        seg_with_key("s2.ts", "AES-128", Some("https://h.example/k2")),
        seg("s3.ts"),
    ];
    let uris = key_fetch_plan(&segs, None).unwrap();
    assert_eq!(uris, vec![b"https://h.example/k1".to_vec(), b"https://h.example/k2".to_vec()]);

    let k1 = vec![1u8; 16];
    let k2 = vec![2u8; 16];
    let fetched = vec![k1.clone(), k2.clone()];
    let probes = vec![miss(), miss(), miss(), miss()];
    let plan = plan_segments(&segs, None, &fetched, &probes, false, &base(), &dir());
    let keys: Vec<&m3u8_dl::key::Key> = plan
        .iter()
        .map(|t| match t {
            SegmentTask::Fetch { key, .. } => key,
            SegmentTask::Cached { .. } => panic!("nothing is cached here"),
        })
        .collect();
    assert_eq!(keys[0].content, k1);
    assert_eq!(keys[1].content, k1);
    assert_eq!(keys[2].content, k2);
    assert_eq!(keys[3].content, k2);
    for k in keys {
        assert_eq!(k.ty, KeyType::Aes128);
    }
}

#[test]
fn none_reference_turns_decryption_off() {
    let segs = vec![
        seg_with_key("s0.ts", "AES-128", Some("https://h.example/k1")),
        seg_with_key("s1.ts", "NONE", None),
        seg("s2.ts"),
    ];
    let fetched = vec![vec![9u8; 16]];
    let probes = vec![miss(), miss(), miss()];
    let plan = plan_segments(&segs, None, &fetched, &probes, false, &base(), &dir());
    match (&plan[1], &plan[2]) {
        (
            SegmentTask::Fetch { key: k1, .. },
            SegmentTask::Fetch { key: k2, .. },
        ) => {
            assert_eq!(k1.ty, KeyType::Plain);
            assert_eq!(k2.ty, KeyType::Plain);
            assert!(k1.content.is_empty());
        },
        _ => panic!("nothing is cached here"),
    }
}

#[test]
fn unsupported_method_fails_the_fetch_plan() {
    let segs = vec![seg_with_key("s0.ts", "SAMPLE-AES", None)];
    assert_eq!(key_fetch_plan(&segs, None).unwrap_err(), DlError::UnsupportedKeyMethod);
    // A cap in front of the bad reference keeps the plan valid.
    let segs2 = vec![seg("ok.ts"), seg_with_key("s1.ts", "SAMPLE-AES", None)];
    assert!(key_fetch_plan(&segs2, Some(1)).is_ok());
}

#[test]
fn cached_segments_are_reused_and_zero_length_files_are_not() {
    let segs = vec![seg("s0.ts"), seg("s1.ts"), seg("s2.ts")];
    // s0 has real bytes on disk, s1 a zero-length leftover, s2 nothing.
    let probes = vec![hit(), CacheProbe { exists: true, size: 0 }, miss()];
    let plan = plan_segments(&segs, None, &Vec::new(), &probes, false, &base(), &dir());
    assert!(matches!(plan[0], SegmentTask::Cached { index: 0, .. }));
    assert!(matches!(plan[1], SegmentTask::Fetch { index: 1, .. }));
    assert!(matches!(plan[2], SegmentTask::Fetch { index: 2, .. }));
    match &plan[0] {
        SegmentTask::Cached { path, .. } => {
            assert_eq!(path, &b"/tmp/cache/m3u8-dl/1/s0.ts".to_vec());
        },
        _ => unreachable!(),
    }
}

#[test]
fn second_run_over_a_full_cache_fetches_nothing() {
    // Everything on disk from the first run: the resumed run plans no fetch.
    let segs = vec![seg("s0.ts"), seg("s1.ts"), seg("s2.ts")];
    let probes = vec![hit(), hit(), hit()];
    let plan = plan_segments(&segs, None, &Vec::new(), &probes, false, &base(), &dir());
    assert_eq!(plan.len(), 3);
    for t in &plan {
        assert!(matches!(t, SegmentTask::Cached { .. }));
    }
}

#[test]
fn force_reload_refetches_even_cached_segments() {
    let segs = vec![seg("s0.ts")];
    let probes = vec![hit()];
    let plan = plan_segments(&segs, None, &Vec::new(), &probes, true, &base(), &dir());
    assert!(matches!(plan[0], SegmentTask::Fetch { .. }));
}

#[test]
fn fetch_outcome_classifies_statuses() {
    assert_eq!(m3u8_dl::errors::fetch_outcome(200, b"ok".to_vec()).unwrap(), b"ok".to_vec());
    // Any success status hands the body through, not just 200.
    assert_eq!(m3u8_dl::errors::fetch_outcome(204, Vec::new()).unwrap(), Vec::<u8>::new());
    assert_eq!(m3u8_dl::errors::fetch_outcome(206, b"part".to_vec()).unwrap(), b"part".to_vec());
    assert_eq!(
        m3u8_dl::errors::fetch_outcome(302, Vec::new()).unwrap_err(),
        DlError::Remote { status: 302 }
    );
    assert_eq!(
        m3u8_dl::errors::fetch_outcome(404, Vec::new()).unwrap_err(),
        DlError::Remote { status: 404 }
    );
    assert_eq!(
        m3u8_dl::errors::fetch_outcome(500, Vec::new()).unwrap_err(),
        DlError::Remote { status: 500 }
    );
}

#[test]
fn output_names_follow_the_configuration() {
    assert_eq!(
        m3u8_dl::output::output_file_name(&Some(b"test1".to_vec())),
        b"test1.ts".to_vec()
    );
    assert_eq!(m3u8_dl::output::output_file_name(&None), b"output.ts".to_vec());
    assert_eq!(
        m3u8_dl::output::transcode_target(&b"test1.ts".to_vec()),
        b"test1.ts.mp4".to_vec()
    );
}
