use m3u8_dl::merge::{concat_segments, CompletionMap};

#[test]
fn merge_order_ignores_completion_order() {
    // Tasks finish 2, 0, 1; the merger still reads 0, 1, 2.
    let mut m = CompletionMap::new(3);
    m.record(2, b"/c/2".to_vec());
    m.record(0, b"/c/0".to_vec());
    m.record(1, b"/c/1".to_vec());
    assert!(m.is_complete());
    let order = m.merge_order();
    assert_eq!(order, vec![b"/c/0".to_vec(), b"/c/1".to_vec(), b"/c/2".to_vec()]);

    // The same entries in another order give the same record.
    let mut m2 = CompletionMap::new(3);
    m2.record(0, b"/c/0".to_vec());
    m2.record(1, b"/c/1".to_vec());
    m2.record(2, b"/c/2".to_vec());
    assert_eq!(m2.merge_order(), order);
}

#[test]
fn concat_keeps_ascending_index_order() {
    let parts = vec![b"A".to_vec(), b"B".to_vec(), b"C".to_vec()];
    assert_eq!(concat_segments(&parts), b"ABC".to_vec());
}

#[test]
fn concat_of_nothing_is_empty() {
    let parts: Vec<Vec<u8>> = Vec::new();
    assert_eq!(concat_segments(&parts), Vec::<u8>::new());
}

#[test]
fn incomplete_record_reports_itself() {
    let mut m = CompletionMap::new(2);
    assert!(!m.is_complete());
    m.record(1, b"/c/1".to_vec());
    assert!(!m.is_complete());
    m.record(0, b"/c/0".to_vec());
    assert!(m.is_complete());
    assert_eq!(m.len(), 2);
}
