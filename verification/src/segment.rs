use vstd::prelude::*;

verus! {

/// A key tag as it appears in the playlist: the method string, an optional
/// initialization-vector string, and an optional URI the key bytes are
/// fetched from.
pub struct KeyRef {
    pub method: Vec<u8>,
    pub iv: Option<Vec<u8>>,
    pub uri: Option<Vec<u8>>,
}

/// One entry of the ordered segment list: the URI the segment is fetched
/// from (absolute or relative to the playlist URL) and the key reference
/// attached to it, if any. A segment without its own reference inherits the
/// key of the nearest earlier one.
pub struct SegmentInfo {
    pub uri: Vec<u8>,
    pub key: Option<KeyRef>,
}

} // verus!
