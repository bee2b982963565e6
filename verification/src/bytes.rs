use vstd::prelude::*;

verus! {

/// Index of the last `/` in `s`, or `-1` when `s` holds none.
pub open spec fn last_slash(s: Seq<u8>) -> int
    decreases s.len(),
{
    if s.len() == 0 {
        -1
    } else if s[s.len() - 1] == 47u8 {
        s.len() - 1
    } else {
        last_slash(s.drop_last())
    }
}

pub proof fn lemma_last_slash_bounds(s: Seq<u8>)
    ensures
        -1 <= last_slash(s) < s.len(),
        last_slash(s) >= 0 ==> s[last_slash(s)] == 47u8,
        forall|k: int| last_slash(s) < k < s.len() ==> s[k] != 47u8,
    decreases s.len(),
{
    if s.len() == 0 {
    } else if s[s.len() - 1] == 47u8 {
    } else {
        lemma_last_slash_bounds(s.drop_last());
        assert(forall|k: int|
            last_slash(s) < k < s.len() - 1 ==> s[k] == s.drop_last()[k] && s[k] != 47u8);
    }
}

pub proof fn lemma_last_slash_at_least(s: Seq<u8>, j: int)
    requires
        0 <= j < s.len(),
        s[j] == 47u8,
    ensures
        last_slash(s) >= j,
    decreases s.len(),
{
    if s[s.len() - 1] == 47u8 {
    } else {
        lemma_last_slash_at_least(s.drop_last(), j);
    }
}

/// Finds the last `/` in `s`, scanning from the end.
pub fn last_slash_index(s: &[u8]) -> (r: Option<usize>)
    ensures
        match r {
            Some(i) => i == last_slash(s@),
            None => last_slash(s@) == -1,
        },
{
    let mut i: usize = s.len();
    proof {
        assert(s@.subrange(0, s@.len() as int) =~= s@);
    }
    while i > 0
        invariant
            i <= s@.len(),
            last_slash(s@) == last_slash(s@.subrange(0, i as int)),
        decreases i,
    {
        if s[i - 1] == 47u8 {
            proof {
                assert(s@.subrange(0, i as int)[i - 1] == 47u8);
            }
            return Some(i - 1);
        }
        proof {
            assert(s@.subrange(0, i as int).drop_last() =~= s@.subrange(0, i as int - 1));
        }
        i = i - 1;
    }
    proof {
        assert(s@.subrange(0, 0) =~= Seq::<u8>::empty());
    }
    None
}

/// The suffix of `uri` after its last `/`; the whole of `uri` when it has none.
pub open spec fn basename(uri: Seq<u8>) -> Seq<u8> {
    uri.subrange(last_slash(uri) + 1, uri.len() as int)
}

/// A segment URI from which a file name can be taken: its basename is not empty.
pub open spec fn has_basename(uri: Seq<u8>) -> bool {
    last_slash(uri) + 1 < uri.len()
}

/// Copies the basename of `uri` out as its own vector.
pub fn basename_of(uri: &[u8]) -> (r: Vec<u8>)
    requires
        has_basename(uri@),
    ensures
        r@ == basename(uri@),
{
    proof {
        lemma_last_slash_bounds(uri@);
    }
    let n = uri.len();
    let start: usize = match last_slash_index(uri) {
        Some(i) => {
            assert(i < n);
            i + 1
        },
        None => 0,
    };
    let tail = vstd::slice::slice_subrange(uri, start, n);
    vstd::slice::slice_to_vec(tail)
}

} // verus!
