use vstd::prelude::*;

use crate::key::opt_bytes_view;

verus! {

/// The base name used when none is configured: `output`.
pub open spec fn default_output_base() -> Seq<u8> {
    seq![111u8, 117u8, 116u8, 112u8, 117u8, 116u8]  // "output"
}

/// The merged file's name: the configured base name, or the default, with
/// the `.ts` extension appended.
pub open spec fn output_name_spec(base: Option<Seq<u8>>) -> Seq<u8> {
    (match base {
        Some(b) => b,
        None => default_output_base(),
    }) + seq![46u8, 116u8, 115u8]  // ".ts"
}

/// Builds the merged file's name from the configured base name.
pub fn output_file_name(base: &Option<Vec<u8>>) -> (r: Vec<u8>)
    ensures
        r@ == output_name_spec(opt_bytes_view(*base)),
{
    let mut out: Vec<u8> = match base {
        Some(b) => vstd::slice::slice_to_vec(b.as_slice()),
        None => {
            let mut v: Vec<u8> = Vec::new();
            v.push(111);
            v.push(117);
            v.push(116);
            v.push(112);
            v.push(117);
            v.push(116);
            proof {
                assert(v@ =~= default_output_base());
            }
            v
        },
    };
    out.push(46);
    out.push(116);
    out.push(115);
    proof {
        assert(out@ =~= output_name_spec(opt_bytes_view(*base)));
    }
    out
}

/// The transcoder's target: the merged file's name with `.mp4` appended.
pub open spec fn transcode_name_spec(merged: Seq<u8>) -> Seq<u8> {
    merged + seq![46u8, 109u8, 112u8, 52u8]  // ".mp4"
}

/// Builds the transcoder's target name from the merged file's name.
pub fn transcode_target(merged: &Vec<u8>) -> (r: Vec<u8>)
    ensures
        r@ == transcode_name_spec(merged@),
{
    let mut out = vstd::slice::slice_to_vec(merged.as_slice());
    out.push(46);
    out.push(109);
    out.push(112);
    out.push(52);
    proof {
        assert(out@ =~= transcode_name_spec(merged@));
    }
    out
}

} // verus!
