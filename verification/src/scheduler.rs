use vstd::prelude::*;

use crate::bytes::has_basename;
use crate::cache::{cache_hit, is_cache_hit, segment_cache_path, segment_path_spec};
use crate::errors::DlError;
use crate::key::{
    default_key_model, is_method_aes, is_method_none, method_aes_bytes, method_none_bytes,
    opt_bytes_view, Key, KeyModel, KeyType,
};
use crate::segment::{KeyRef, SegmentInfo};
use crate::urls::{parse_url, resolve_uri, wf_base};

verus! {

/// How many segments the walk covers: the whole list, or the configured cap
/// when it is smaller. Segments past the cap are simply never dispatched.
pub open spec fn effective_count(total: int, num: Option<usize>) -> int {
    match num {
        Some(m) => if m < total {
            m as int
        } else {
            total
        },
        None => total,
    }
}

/// Computes how many segments the walk covers.
pub fn effective(total: usize, num: Option<usize>) -> (n: usize)
    ensures
        n as int == effective_count(total as int, num),
        n <= total,
{
    match num {
        Some(m) => if m < total {
            m
        } else {
            total
        },
        None => total,
    }
}

/// A key reference whose key bytes must be fetched before the walk can go on.
pub open spec fn is_aes_ref(r: KeyRef) -> bool {
    r.method@ == method_aes_bytes()
}

/// A method string this pipeline understands.
pub open spec fn supported_method(m: Seq<u8>) -> bool {
    m == method_none_bytes() || m == method_aes_bytes()
}

/// The segment's key reference, if it has one, names a supported method.
pub open spec fn seg_key_supported(s: SegmentInfo) -> bool {
    match s.key {
        Some(r) => supported_method(r.method@),
        None => true,
    }
}

/// Every key reference among the first `n` segments names a supported method.
pub open spec fn all_supported(segs: Seq<SegmentInfo>, n: int) -> bool {
    forall|j: int| 0 <= j < n ==> seg_key_supported(#[trigger] segs[j])
}

/// The segment's key reference, if it fetches a key, carries the URI to fetch it from.
pub open spec fn seg_aes_has_uri(s: SegmentInfo) -> bool {
    match s.key {
        Some(r) => is_aes_ref(r) ==> r.uri is Some,
        None => true,
    }
}

/// Every key-fetching reference among the first `n` segments has a URI.
pub open spec fn aes_uris_present(segs: Seq<SegmentInfo>, n: int) -> bool {
    forall|j: int| 0 <= j < n ==> seg_aes_has_uri(#[trigger] segs[j])
}

/// Every segment among the first `n` has a file name to cache under.
pub open spec fn uris_named(segs: Seq<SegmentInfo>, n: int) -> bool {
    forall|j: int| 0 <= j < n ==> has_basename((#[trigger] segs[j]).uri@)
}

/// How many key-fetching references stand among the first `i` segments.
pub open spec fn aes_refs_before(segs: Seq<SegmentInfo>, i: int) -> int
    decreases i,
{
    if i <= 0 {
        0
    } else {
        aes_refs_before(segs, i - 1) + (match segs[i - 1].key {
            Some(r) => if is_aes_ref(r) {
                1int
            } else {
                0int
            },
            None => 0int,
        })
    }
}

pub proof fn lemma_aes_refs_mono(segs: Seq<SegmentInfo>, i: int, j: int)
    requires
        0 <= i <= j,
    ensures
        aes_refs_before(segs, i) <= aes_refs_before(segs, j),
    decreases j - i,
{
    if i < j {
        lemma_aes_refs_mono(segs, i, j - 1);
    }
}

/// The key URIs the walk must fetch among the first `n` segments, in walk order.
pub open spec fn key_uri_plan(segs: Seq<SegmentInfo>, n: int) -> Seq<Seq<u8>>
    decreases n,
{
    if n <= 0 {
        Seq::empty()
    } else {
        key_uri_plan(segs, n - 1) + (match segs[n - 1].key {
            Some(r) => if is_aes_ref(r) {
                seq![r.uri->0@]
            } else {
                Seq::empty()
            },
            None => Seq::<Seq<u8>>::empty(),
        })
    }
}

pub proof fn lemma_key_uri_plan_len(segs: Seq<SegmentInfo>, n: int)
    ensures
        key_uri_plan(segs, n).len() == aes_refs_before(segs, n),
    decreases n,
{
    if n > 0 {
        lemma_key_uri_plan_len(segs, n - 1);
    }
}

/// The key in effect for segment `i`, as the ordered walk resolves it:
/// the most recent key reference decides, a `NONE` reference turns
/// decryption off, a key-fetching reference takes the next entry of
/// `fetched` (the key bytes, in the order `key_uri_plan` lists their URIs),
/// and a segment without its own reference inherits the key of the nearest
/// earlier one. Before any reference, no decryption is in effect.
pub open spec fn key_at(segs: Seq<SegmentInfo>, fetched: Seq<Seq<u8>>, i: int) -> KeyModel
    decreases i + 1,
{
    if i < 0 {
        default_key_model()
    } else {
        match segs[i].key {
            Some(r) => if r.method@ == method_none_bytes() {
                KeyModel { ty: KeyType::Plain, iv: opt_bytes_view(r.iv), content: Seq::empty() }
            } else {
                KeyModel {
                    ty: KeyType::Aes128,
                    iv: opt_bytes_view(r.iv),
                    content: fetched[aes_refs_before(segs, i)],
                }
            },
            None => key_at(segs, fetched, i - 1),
        }
    }
}

/// Key inheritance: a segment without its own key reference is decrypted
/// with exactly the key in effect for the segment before it.
pub proof fn lemma_key_inheritance(segs: Seq<SegmentInfo>, fetched: Seq<Seq<u8>>, i: int)
    requires
        0 <= i < segs.len(),
        segs[i].key is None,
    ensures
        key_at(segs, fetched, i) == key_at(segs, fetched, i - 1),
{
}

/// Walks the first `n` segments and collects the key URIs that must be
/// fetched, in order, before any segment is dispatched. An unsupported key
/// method is a fatal configuration error, reported without dispatching
/// anything.
pub fn key_fetch_plan(segs: &Vec<SegmentInfo>, num: Option<usize>) -> (r: Result<
    Vec<Vec<u8>>,
    DlError,
>)
    requires
        aes_uris_present(segs@, effective_count(segs@.len() as int, num)),
    ensures
        r is Ok <==> all_supported(segs@, effective_count(segs@.len() as int, num)),
        r is Err ==> r->Err_0 == DlError::UnsupportedKeyMethod,
        r is Ok ==> r->Ok_0.deep_view() == key_uri_plan(
            segs@,
            effective_count(segs@.len() as int, num),
        ),
        r is Ok ==> r->Ok_0.deep_view().len() == aes_refs_before(
            segs@,
            effective_count(segs@.len() as int, num),
        ),
{
    proof {
        lemma_key_uri_plan_len(segs@, effective_count(segs@.len() as int, num));
    }
    let n = effective(segs.len(), num);
    let mut out: Vec<Vec<u8>> = Vec::new();
    let mut i: usize = 0;
    while i < n
        invariant
            i <= n,
            n as int == effective_count(segs@.len() as int, num),
            n <= segs@.len(),
            aes_uris_present(segs@, n as int),
            all_supported(segs@, i as int),
            out.deep_view() == key_uri_plan(segs@, i as int),
        decreases n - i,
    {
        match &segs[i].key {
            Some(r) => {
                if is_method_aes(r.method.as_slice()) {
                    proof {
                        assert(seg_aes_has_uri(segs@[i as int]));
                    }
                    let u: Vec<u8> = match &r.uri {
                        Some(u) => vstd::slice::slice_to_vec(u.as_slice()),
                        None => {
                            proof {
                                assert(false);
                            }
                            Vec::new()
                        },
                    };
                    out.push(u);
                } else if !is_method_none(r.method.as_slice()) {
                    proof {
                        assert(!seg_key_supported(segs@[i as int]));
                    }
                    return Err(DlError::UnsupportedKeyMethod);
                }
            },
            None => {},
        }
        proof {
            assert(out.deep_view() =~~= key_uri_plan(segs@, i + 1));
        }
        i = i + 1;
    }
    Ok(out)
}

/// What the walk found out about a segment's cache file before planning:
/// whether it exists, and how large it is.
pub struct CacheProbe {
    pub exists: bool,
    pub size: u64,
}

/// One decided segment: taken from the cache as it stands, or dispatched as
/// a fetch task with the resolved URL, the target path, and a snapshot of
/// the key in effect at dispatch time.
pub enum SegmentTask {
    Cached { index: usize, path: Vec<u8> },
    Fetch { index: usize, url: Vec<u8>, path: Vec<u8>, key: Key },
}

/// What the plan owes segment `i`: a cache hit is recorded as it stands, and
/// anything else becomes a fetch task with the URI resolved against the
/// playlist URL, the deterministic cache path, and the key the ordered walk
/// put in effect for exactly this segment.
pub open spec fn task_ok(
    t: SegmentTask,
    i: int,
    segs: Seq<SegmentInfo>,
    fetched: Seq<Seq<u8>>,
    probes: Seq<CacheProbe>,
    reload: bool,
    base: Seq<u8>,
    dir: Seq<u8>,
) -> bool {
    if cache_hit(reload, probes[i].exists, probes[i].size) {
        &&& t matches SegmentTask::Cached { index, path }
        &&& index == i
        &&& path@ == segment_path_spec(dir, segs[i].uri@)
    } else {
        &&& t matches SegmentTask::Fetch { index, url, path, key }
        &&& index == i
        &&& url@ == resolve_uri(base, segs[i].uri@)
        &&& path@ == segment_path_spec(dir, segs[i].uri@)
        &&& key@ == key_at(segs, fetched, i)
    }
}

/// Turns the ordered segment list into the run's task list. The walk covers
/// the first `effective_count` segments only; every key reference on the way
/// is observed, in order, even for segments the cache already holds, so that
/// later segments inherit the right key; cached segments are recorded, all
/// others become fetch tasks carrying a snapshot of the key in effect.
pub fn plan_segments(
    segs: &Vec<SegmentInfo>,
    num: Option<usize>,
    fetched: &Vec<Vec<u8>>,
    probes: &Vec<CacheProbe>,
    reload: bool,
    base: &Vec<u8>,
    dir: &Vec<u8>,
) -> (r: Vec<SegmentTask>)
    requires
        all_supported(segs@, effective_count(segs@.len() as int, num)),
        aes_uris_present(segs@, effective_count(segs@.len() as int, num)),
        uris_named(segs@, effective_count(segs@.len() as int, num)),
        wf_base(base@),
        fetched.deep_view().len() == aes_refs_before(segs@, effective_count(segs@.len() as int, num)),
        probes@.len() == effective_count(segs@.len() as int, num),
    ensures
        r@.len() == effective_count(segs@.len() as int, num),
        forall|i: int|
            0 <= i < r@.len() ==> task_ok(
                #[trigger] r@[i],
                i,
                segs@,
                fetched.deep_view(),
                probes@,
                reload,
                base@,
                dir@,
            ),
        (forall|i: int| 0 <= i < probes@.len() ==> cache_hit(reload, (#[trigger] probes@[i]).exists, probes@[i].size))
            ==> (forall|i: int| 0 <= i < r@.len() ==> #[trigger] r@[i] is Cached),
{
    let ghost fetchedv = fetched.deep_view();
    let flen = fetched.len();
    let n = effective(segs.len(), num);
    let mut out: Vec<SegmentTask> = Vec::new();
    let mut cur_key = Key::default();
    let mut aes_seen: usize = 0;
    let mut i: usize = 0;
    while i < n
        invariant
            i <= n,
            n as int == effective_count(segs@.len() as int, num),
            n <= segs@.len(),
            all_supported(segs@, n as int),
            aes_uris_present(segs@, n as int),
            uris_named(segs@, n as int),
            wf_base(base@),
            fetchedv == fetched.deep_view(),
            flen == fetched@.len(),
            fetchedv.len() == aes_refs_before(segs@, n as int),
            probes@.len() == n,
            aes_seen as int == aes_refs_before(segs@, i as int),
            cur_key@ == key_at(segs@, fetchedv, i as int - 1),
            out@.len() == i,
            forall|j: int|
                0 <= j < i ==> task_ok(
                    #[trigger] out@[j],
                    j,
                    segs@,
                    fetchedv,
                    probes@,
                    reload,
                    base@,
                    dir@,
                ),
        decreases n - i,
    {
        let seg = &segs[i];
        match &seg.key {
            Some(r) => {
                proof {
                    assert(seg_key_supported(segs@[i as int]));
                    lemma_aes_refs_mono(segs@, i + 1, n as int);
                }
                let aes = is_method_aes(r.method.as_slice());
                let kb: Option<Vec<u8>> = if aes {
                    proof {
                        assert(aes_refs_before(segs@, i + 1) == aes_refs_before(segs@, i as int)
                            + 1);
                        assert(aes_seen < fetched@.len());
                        assert(fetchedv[aes_seen as int] =~= fetched@[aes_seen as int]@);
                    }
                    Some(vstd::slice::slice_to_vec(fetched[aes_seen].as_slice()))
                } else {
                    None
                };
                let newk = match Key::from_key(&r.method, &r.iv, kb) {
                    Ok(k) => k,
                    Err(_) => {
                        proof {
                            assert(false);
                        }
                        Key::default()
                    },
                };
                cur_key = newk;
                if aes {
                    proof {
                        assert(aes_seen < flen);
                    }
                    aes_seen = aes_seen + 1;
                }
                proof {
                    assert(cur_key@ == key_at(segs@, fetchedv, i as int));
                }
            },
            None => {
                proof {
                    assert(key_at(segs@, fetchedv, i as int) == key_at(
                        segs@,
                        fetchedv,
                        i as int - 1,
                    ));
                }
            },
        }
        proof {
            assert(has_basename(segs@[i as int].uri@));
        }
        let path = segment_cache_path(dir, &seg.uri);
        let hit = is_cache_hit(reload, probes[i].exists, probes[i].size);
        if hit {
            out.push(SegmentTask::Cached { index: i, path });
        } else {
            let url = parse_url(base, &seg.uri);
            out.push(SegmentTask::Fetch { index: i, url, path, key: cur_key.snapshot() });
        }
        i = i + 1;
    }
    out
}

} // verus!
