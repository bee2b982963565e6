use vstd::prelude::*;

use crate::bytes::{last_slash, last_slash_index, lemma_last_slash_at_least, lemma_last_slash_bounds};

verus! {

/// `s` begins with `http://`.
pub open spec fn has_scheme_http(s: Seq<u8>) -> bool {
    s.len() >= 7 && s[0] == 104u8 && s[1] == 116u8 && s[2] == 116u8 && s[3] == 112u8 && s[4]
        == 58u8 && s[5] == 47u8 && s[6] == 47u8
}

/// `s` begins with `https://`.
pub open spec fn has_scheme_https(s: Seq<u8>) -> bool {
    s.len() >= 8 && s[0] == 104u8 && s[1] == 116u8 && s[2] == 116u8 && s[3] == 112u8 && s[4]
        == 115u8 && s[5] == 58u8 && s[6] == 47u8 && s[7] == 47u8
}

/// `s` is a full URL of its own: it carries an `http://` or `https://` scheme.
pub open spec fn is_absolute_url(s: Seq<u8>) -> bool {
    has_scheme_http(s) || has_scheme_https(s)
}

/// Length of the scheme prefix, `http://` or `https://`.
pub open spec fn scheme_end(s: Seq<u8>) -> int {
    if has_scheme_https(s) {
        8
    } else {
        7
    }
}

/// Index of the first `/` at or after position `i`, or `s.len()` when there is none.
pub open spec fn first_slash_from(s: Seq<u8>, i: int) -> int
    decreases s.len() - i,
{
    if i < 0 || i >= s.len() {
        s.len() as int
    } else if s[i] == 47u8 {
        i
    } else {
        first_slash_from(s, i + 1)
    }
}

pub proof fn lemma_first_slash_from(s: Seq<u8>, i: int)
    requires
        0 <= i <= s.len(),
    ensures
        i <= first_slash_from(s, i) <= s.len(),
        first_slash_from(s, i) < s.len() ==> s[first_slash_from(s, i)] == 47u8,
        forall|k: int| i <= k < first_slash_from(s, i) ==> s[k] != 47u8,
    decreases s.len() - i,
{
    if i < s.len() && s[i] != 47u8 {
        lemma_first_slash_from(s, i + 1);
    }
}

/// Index of the first `?` or `#` at or after position `i`, or `s.len()` when
/// there is none: past it the URL holds query or fragment text, not path.
pub open spec fn first_break_from(s: Seq<u8>, i: int) -> int
    decreases s.len() - i,
{
    if i < 0 || i >= s.len() {
        s.len() as int
    } else if s[i] == 63u8 || s[i] == 35u8 {
        i
    } else {
        first_break_from(s, i + 1)
    }
}

pub proof fn lemma_first_break_from(s: Seq<u8>, i: int)
    requires
        0 <= i <= s.len(),
    ensures
        i <= first_break_from(s, i) <= s.len(),
        forall|k: int| i <= k < first_break_from(s, i) ==> s[k] != 63u8 && s[k] != 35u8,
    decreases s.len() - i,
{
    if i < s.len() && s[i] != 63u8 && s[i] != 35u8 {
        lemma_first_break_from(s, i + 1);
    }
}

/// Where the path component ends: at the URL's query or fragment, or at its end.
pub open spec fn path_end(s: Seq<u8>) -> int {
    first_break_from(s, scheme_end(s))
}

/// The URL up to its query or fragment: scheme, authority and path, the part
/// relative URIs are resolved inside.
pub open spec fn url_head(s: Seq<u8>) -> Seq<u8> {
    s.subrange(0, path_end(s))
}

/// Cutting a URL at its query or fragment leaves its scheme as it was.
pub proof fn lemma_head_scheme(s: Seq<u8>)
    requires
        is_absolute_url(s),
    ensures
        scheme_end(s) <= path_end(s) <= s.len(),
        url_head(s).len() == path_end(s),
        has_scheme_http(url_head(s)) == has_scheme_http(s),
        has_scheme_https(url_head(s)) == has_scheme_https(s),
        scheme_end(url_head(s)) == scheme_end(s),
{
    lemma_first_break_from(s, scheme_end(s));
}

/// Start of the path component: the first `/` after the scheme prefix.
pub open spec fn path_start(s: Seq<u8>) -> int {
    first_slash_from(s, scheme_end(s))
}

/// A well-formed playlist URL: an `http(s)://` scheme followed by a `/` that
/// begins the path component, before any query or fragment.
pub open spec fn wf_base(s: Seq<u8>) -> bool {
    is_absolute_url(s) && path_start(url_head(s)) < url_head(s).len()
}

/// Scheme and authority of `s`: everything before the path component.
pub open spec fn origin(s: Seq<u8>) -> Seq<u8> {
    url_head(s).subrange(0, path_start(url_head(s)))
}

/// `s` up to and including the last `/` of its path component: the directory
/// a relative URI is resolved against. Slashes inside a query or fragment do
/// not count.
pub open spec fn base_dir(s: Seq<u8>) -> Seq<u8> {
    url_head(s).subrange(0, last_slash(url_head(s)) + 1)
}

/// The address a segment URI names, relative to the playlist URL `base`:
/// an absolute `http(s)://` URI passes through unchanged, a URI beginning
/// with `/` replaces the whole path component of `base`, and any other URI
/// is appended to the directory of `base`'s path.
pub open spec fn resolve_uri(base: Seq<u8>, uri: Seq<u8>) -> Seq<u8> {
    if is_absolute_url(uri) {
        uri
    } else if uri.len() > 0 && uri[0] == 47u8 {
        origin(base) + uri
    } else {
        base_dir(base) + uri
    }
}

/// Does `s` carry its own `http(s)://` scheme?
pub fn is_absolute(s: &[u8]) -> (r: bool)
    ensures
        r == is_absolute_url(s@),
{
    let n = s.len();
    let http = n >= 7 && s[0] == 104 && s[1] == 116 && s[2] == 116 && s[3] == 112 && s[4] == 58
        && s[5] == 47 && s[6] == 47;
    let https = n >= 8 && s[0] == 104 && s[1] == 116 && s[2] == 116 && s[3] == 112 && s[4] == 115
        && s[5] == 58 && s[6] == 47 && s[7] == 47;
    http || https
}

/// Finds where the path component of an absolute URL ends: at its first `?`
/// or `#` after the scheme, or at the end of the URL.
pub fn find_path_end(s: &[u8]) -> (r: usize)
    requires
        is_absolute_url(s@),
    ensures
        r == path_end(s@),
{
    let n = s.len();
    let https = n >= 8 && s[0] == 104 && s[1] == 116 && s[2] == 116 && s[3] == 112 && s[4] == 115
        && s[5] == 58 && s[6] == 47 && s[7] == 47;
    let mut i: usize = if https {
        8
    } else {
        7
    };
    while i < n
        invariant
            scheme_end(s@) <= i <= n,
            n == s@.len(),
            is_absolute_url(s@),
            first_break_from(s@, i as int) == path_end(s@),
        decreases n - i,
    {
        if s[i] == 63 || s[i] == 35 {
            return i;
        }
        i = i + 1;
    }
    n
}

/// Finds where the path component begins, in a URL known to have one.
pub fn find_path_start(base: &[u8]) -> (r: usize)
    requires
        is_absolute_url(base@),
        path_start(base@) < base@.len(),
    ensures
        r == path_start(base@),
{
    let n = base.len();
    let https = n >= 8 && base[0] == 104 && base[1] == 116 && base[2] == 116 && base[3] == 112
        && base[4] == 115 && base[5] == 58 && base[6] == 47 && base[7] == 47;
    let mut i: usize = if https {
        8
    } else {
        7
    };
    proof {
        lemma_first_slash_from(base@, scheme_end(base@));
    }
    while i < n
        invariant
            scheme_end(base@) <= i <= n,
            n == base@.len(),
            is_absolute_url(base@),
            path_start(base@) < base@.len(),
            first_slash_from(base@, i as int) == path_start(base@),
        decreases n - i,
    {
        if base[i] == 47 {
            return i;
        }
        i = i + 1;
    }
    proof {
        assert(false);
    }
    0
}

/// Resolves a segment URI against the playlist's base URL.
pub fn parse_url(base: &Vec<u8>, uri: &Vec<u8>) -> (r: Vec<u8>)
    requires
        wf_base(base@),
    ensures
        r@ == resolve_uri(base@, uri@),
{
    if is_absolute(uri.as_slice()) {
        return vstd::slice::slice_to_vec(uri.as_slice());
    }
    proof {
        lemma_head_scheme(base@);
    }
    let pe = find_path_end(base.as_slice());
    let head = vstd::slice::slice_subrange(base.as_slice(), 0, pe);
    proof {
        assert(head@ =~= url_head(base@));
    }
    if uri.len() > 0 && uri[0] == 47 {
        let ps = find_path_start(head);
        let mut out = vstd::slice::slice_to_vec(vstd::slice::slice_subrange(head, 0, ps));
        out.extend_from_slice(uri.as_slice());
        proof {
            assert(out@ =~= origin(base@) + uri@);
        }
        out
    } else {
        proof {
            lemma_first_slash_from(head@, scheme_end(head@));
            lemma_last_slash_at_least(head@, path_start(head@));
            lemma_last_slash_bounds(head@);
        }
        let hn = head.len();
        let ls = match last_slash_index(head) {
            Some(i) => {
                assert(i < hn);
                i
            },
            None => {
                proof {
                    assert(false);
                }
                0
            },
        };
        let mut out = vstd::slice::slice_to_vec(vstd::slice::slice_subrange(head, 0, ls + 1));
        out.extend_from_slice(uri.as_slice());
        proof {
            assert(out@ =~= base_dir(base@) + uri@);
        }
        out
    }
}

} // verus!
