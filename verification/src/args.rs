use vstd::prelude::*;

verus! {

/// The concurrency limit used when none is configured.
pub const DEFAULT_LIMIT: usize = 10;

/// The configuration surface of a run: the playlist URL, an optional cap on
/// how many segments are taken, the concurrency limit, whether to bypass the
/// cache, whether to transcode afterwards, the output base name, and the
/// cache root directory. Strings are carried as their bytes.
pub struct Args {
    pub url: Vec<u8>,
    pub num: Option<usize>,
    pub limit: usize,
    pub reload: bool,
    pub transcode: bool,
    pub output: Option<Vec<u8>>,
    pub cache_dir: Vec<u8>,
}

} // verus!
