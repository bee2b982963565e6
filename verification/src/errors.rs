use vstd::prelude::*;

verus! {

/// The failure taxonomy of the download pipeline.
///
/// `Transport` is a network-level failure, `Remote` a non-success response
/// status, `UnsupportedKeyMethod` an encryption method the pipeline cannot
/// handle (fatal for the whole run), `FileIo` a local read or write failure,
/// `InvalidPlaylist` a manifest that could not be understood, and `Transcode`
/// a failure of the external transcoder, isolated to that final step.
#[derive(Clone, Copy, Debug, PartialEq, Eq, Structural)]
pub enum DlError {
    Transport,
    Remote { status: u16 },
    UnsupportedKeyMethod,
    FileIo,
    InvalidPlaylist,
    Transcode,
}

/// Classifies a fetch response: a success status (any 2xx) hands the body
/// through untouched, any other status is a remote failure that keeps the
/// status code.
pub fn fetch_outcome(status: u16, body: Vec<u8>) -> (r: Result<Vec<u8>, DlError>)
    ensures
        r is Ok <==> 200 <= status < 300,
        r is Ok ==> r->Ok_0@ == body@,
        r is Err ==> r->Err_0 == (DlError::Remote { status }),
{
    if 200 <= status && status < 300 {
        Ok(body)
    } else {
        Err(DlError::Remote { status })
    }
}

} // verus!
