use vstd::prelude::*;

use crate::bytes::{basename, has_basename};

verus! {

/// Offset basis of the 64-bit FNV-1a hash.
pub const FNV_OFFSET: u64 = 0xcbf29ce484222325;

/// Prime of the 64-bit FNV-1a hash.
pub const FNV_PRIME: u64 = 0x100000001b3;

/// One FNV-1a round: fold the next byte in, then multiply modulo 2^64.
pub open spec fn fnv_step(h: u64, b: u8) -> u64 {
    (((h ^ (b as u64)) * FNV_PRIME) % 0x10000000000000000) as u64
}

/// The 64-bit FNV-1a hash of `s`. A pure function of the bytes, so the same
/// playlist URL always lands in the same cache directory.
pub open spec fn fnv1a(s: Seq<u8>) -> u64
    decreases s.len(),
{
    if s.len() == 0 {
        FNV_OFFSET
    } else {
        fnv_step(fnv1a(s.drop_last()), s.last())
    }
}

/// Computes the FNV-1a hash of `s`.
pub fn fnv1a_hash(s: &[u8]) -> (h: u64)
    ensures
        h == fnv1a(s@),
{
    let mut h: u64 = FNV_OFFSET;
    let mut i: usize = 0;
    proof {
        assert(s@.subrange(0, 0) =~= Seq::<u8>::empty());
    }
    while i < s.len()
        invariant
            i <= s@.len(),
            h == fnv1a(s@.subrange(0, i as int)),
        decreases s@.len() - i,
    {
        let x: u64 = h ^ (s[i] as u64);
        let wide: u128 = (x as u128) * (FNV_PRIME as u128);
        let m: u64 = (wide % 0x10000000000000000u128) as u64;
        proof {
            assert(s@.subrange(0, i + 1).drop_last() =~= s@.subrange(0, i as int));
            assert(s@.subrange(0, i + 1).last() == s@[i as int]);
            assert(m == fnv_step(h, s@[i as int]));
        }
        h = m;
        i = i + 1;
    }
    proof {
        assert(s@.subrange(0, s@.len() as int) =~= s@);
    }
    h
}

/// The decimal digits of `n`, most significant first.
pub open spec fn dec_digits(n: nat) -> Seq<u8>
    decreases n,
{
    if n < 10 {
        seq![(48 + n) as u8]
    } else {
        dec_digits(n / 10).push((48 + n % 10) as u8)
    }
}

/// Appends the decimal rendering of `n` to `out`.
pub fn push_decimal(n: u64, out: &mut Vec<u8>)
    ensures
        final(out)@ == old(out)@ + dec_digits(n as nat),
    decreases n,
{
    if n < 10 {
        out.push(48 + n as u8);
        proof {
            assert(out@ =~= old(out)@ + dec_digits(n as nat));
        }
    } else {
        push_decimal(n / 10, out);
        let d: u8 = (n % 10) as u8 + 48;
        out.push(d);
        proof {
            assert(d == (48 + (n as nat) % 10) as u8);
            assert(out@ =~= old(out)@ + dec_digits(n as nat));
        }
    }
}

/// The decimal rendering of `n` as its own vector.
pub fn u64_decimal(n: u64) -> (r: Vec<u8>)
    ensures
        r@ == dec_digits(n as nat),
{
    let mut out: Vec<u8> = Vec::new();
    push_decimal(n, &mut out);
    proof {
        assert(out@ =~= dec_digits(n as nat));
    }
    out
}

/// The tool's own directory name under the cache root.
pub open spec fn namespace_dir() -> Seq<u8> {
    seq![109u8, 51u8, 117u8, 56u8, 45u8, 100u8, 108u8]  // "m3u8-dl"
}

/// Where segments of the playlist at `url` are cached:
/// `<cache root>/m3u8-dl/<decimal hash of the URL>`. The same URL and cache
/// root always give the same directory, which is what makes runs resumable.
pub open spec fn cache_dir_spec(cache_root: Seq<u8>, url: Seq<u8>) -> Seq<u8> {
    cache_root + seq![47u8] + namespace_dir() + seq![47u8] + dec_digits(fnv1a(url) as nat)
}

/// Computes the cache directory for the playlist at `url`.
pub fn cache_dir_for(cache_root: &Vec<u8>, url: &Vec<u8>) -> (r: Vec<u8>)
    ensures
        r@ == cache_dir_spec(cache_root@, url@),
{
    let mut out = vstd::slice::slice_to_vec(cache_root.as_slice());
    out.push(47);
    out.push(109);
    out.push(51);
    out.push(117);
    out.push(56);
    out.push(45);
    out.push(100);
    out.push(108);
    out.push(47);
    let h = fnv1a_hash(url.as_slice());
    push_decimal(h, &mut out);
    proof {
        assert(out@ =~= cache_dir_spec(cache_root@, url@));
    }
    out
}

/// The cache file of one segment: `<dir>/<basename of the segment URI>`.
pub open spec fn segment_path_spec(dir: Seq<u8>, uri: Seq<u8>) -> Seq<u8> {
    dir + seq![47u8] + basename(uri)
}

/// Computes the cache file path of the segment at `uri`.
pub fn segment_cache_path(dir: &Vec<u8>, uri: &Vec<u8>) -> (r: Vec<u8>)
    requires
        has_basename(uri@),
    ensures
        r@ == segment_path_spec(dir@, uri@),
{
    let mut out = vstd::slice::slice_to_vec(dir.as_slice());
    out.push(47);
    let name = crate::bytes::basename_of(uri.as_slice());
    out.extend_from_slice(name.as_slice());
    proof {
        assert(out@ =~= segment_path_spec(dir@, uri@));
    }
    out
}

/// A segment may be taken from the cache only when the cache is not being
/// bypassed and its file exists with some content: a zero-length file, as a
/// crashed earlier run may leave behind, does not count as cached.
pub open spec fn cache_hit(reload: bool, exists: bool, size: u64) -> bool {
    !reload && exists && size != 0
}

/// Decides whether a segment's cache file can be reused.
pub fn is_cache_hit(reload: bool, exists: bool, size: u64) -> (r: bool)
    ensures
        r == cache_hit(reload, exists, size),
{
    !reload && exists && size != 0
}

} // verus!
