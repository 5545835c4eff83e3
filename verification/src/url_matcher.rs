//! Gofile URL detection and parsing.
//!
//! Gofile exposes one user-facing shape, `https://gofile.io/d/<folder>`,
//! where `<folder>` is a content id of six or more ASCII letters and digits.
//! The plugin also produces a per-file shape,
//! `https://gofile.io/d/<folder>/<file>`, where `<file>` is six or more ASCII
//! letters, digits, `_` or `-`, so that "one URL in, one CDN URL out" can
//! tell the files of a folder apart.
//!
//! Accepted hosts are `gofile.io` and `www.gofile.io` (any ASCII case), over
//! `http` or `https`. User info, a port, a query, a fragment and trailing
//! slashes are ignored.

use vstd::prelude::*;

use crate::text::{
    before_first, chars_of, eq_ignore_ascii_case, find_first_char, find_last_char, first_char,
    last_char, push_char, range_eq_ignore_ascii_case, string_of_range, trim_end, trim_end_index,
};

verus! {

/// What a URL points at.
#[derive(Debug, Clone, Copy, PartialEq, Eq, Structural)]
pub enum UrlKind {
    /// Folder share page: `gofile.io/d/<folder>`, which may hold many files.
    Folder,
    /// Per-file shape: `gofile.io/d/<folder>/<file>`.
    File,
    /// Anything else.
    Unknown,
}

// ── Model ────────────────────────────────────────────────────────────────────

pub open spec fn is_ascii_alnum(c: char) -> bool {
    ('a' <= c && c <= 'z') || ('A' <= c && c <= 'Z') || ('0' <= c && c <= '9')
}

pub open spec fn is_file_id_char(c: char) -> bool {
    is_ascii_alnum(c) || c == '_' || c == '-'
}

/// A folder content id: `[A-Za-z0-9]{6,}`.
pub open spec fn valid_folder_id(s: Seq<char>) -> bool {
    s.len() >= 6 && forall|i: int| 0 <= i < s.len() ==> is_ascii_alnum(#[trigger] s[i])
}

/// A file content id: `[A-Za-z0-9_-]{6,}`.
pub open spec fn valid_file_id(s: Seq<char>) -> bool {
    s.len() >= 6 && forall|i: int| 0 <= i < s.len() ==> is_file_id_char(#[trigger] s[i])
}

/// `/d/`
pub open spec fn share_path_prefix() -> Seq<char> {
    seq!['/', 'd', '/']
}

/// `https://gofile.io/d/`
pub open spec fn share_url_prefix() -> Seq<char> {
    seq![
        'h', 't', 't', 'p', 's', ':', '/', '/', 'g', 'o', 'f', 'i', 'l', 'e', '.', 'i', 'o', '/',
        'd', '/',
    ]
}

pub open spec fn http_word() -> Seq<char> {
    seq!['h', 't', 't', 'p']
}

pub open spec fn https_word() -> Seq<char> {
    seq!['h', 't', 't', 'p', 's']
}

pub open spec fn gofile_host_name() -> Seq<char> {
    seq!['g', 'o', 'f', 'i', 'l', 'e', '.', 'i', 'o']
}

pub open spec fn www_gofile_host_name() -> Seq<char> {
    seq!['w', 'w', 'w', '.', 'g', 'o', 'f', 'i', 'l', 'e', '.', 'i', 'o']
}

/// `://` starts at `i` in `s`.
pub open spec fn scheme_sep_at(s: Seq<char>, i: int) -> bool {
    0 <= i && i + 3 <= s.len() && s[i] == ':' && s[i + 1] == '/' && s[i + 2] == '/'
}

pub open spec fn is_first_scheme_sep(s: Seq<char>, i: int) -> bool {
    scheme_sep_at(s, i) && forall|j: int| 0 <= j < i ==> !scheme_sep_at(s, j)
}

/// Start of the first `://` in `s`, if any.
pub open spec fn first_scheme_sep(s: Seq<char>) -> Option<int> {
    if exists|i: int| is_first_scheme_sep(s, i) {
        Some(choose|i: int| is_first_scheme_sep(s, i))
    } else {
        None
    }
}

/// The host part of an authority without user info: a bracketed literal up
/// to the first `]`, or else everything before the first `:` (the port).
pub open spec fn host_of(a: Seq<char>) -> Option<Seq<char>> {
    if a.len() == 0 {
        None
    } else if a[0] == '[' {
        match first_char(a.skip(1), ']') {
            Some(j) => Some(a.take(j + 2)),
            None => None,
        }
    } else {
        let h = before_first(a, ':');
        if h.len() == 0 {
            None
        } else {
            Some(h)
        }
    }
}

/// The authority part of what follows `://`: up to the first `/`.
pub open spec fn authority_part(rest: Seq<char>) -> Seq<char> {
    match first_char(rest, '/') {
        Some(k) => rest.take(k),
        None => rest,
    }
}

/// The path-with-query part of what follows `://`: from the first `/` on.
pub open spec fn path_part(rest: Seq<char>) -> Seq<char> {
    match first_char(rest, '/') {
        Some(k) => rest.skip(k),
        None => Seq::<char>::empty(),
    }
}

/// An authority without its user info: what follows the last `@`.
pub open spec fn without_userinfo(a: Seq<char>) -> Seq<char> {
    match last_char(a, '@') {
        Some(k) => a.skip(k + 1),
        None => a,
    }
}

pub open spec fn is_web_scheme(s: Seq<char>) -> bool {
    eq_ignore_ascii_case(s, http_word()) || eq_ignore_ascii_case(s, https_word())
}

/// Host and path-with-query of an `http`/`https` URL.
pub open spec fn split_url(u: Seq<char>) -> Option<(Seq<char>, Seq<char>)> {
    match first_scheme_sep(u) {
        None => None,
        Some(i) => if !is_web_scheme(u.take(i)) {
            None
        } else {
            let rest = u.skip(i + 3);
            match host_of(without_userinfo(authority_part(rest))) {
                Some(h) => Some((h, path_part(rest))),
                None => None,
            }
        },
    }
}

pub open spec fn is_gofile_host(h: Seq<char>) -> bool {
    eq_ignore_ascii_case(h, gofile_host_name()) || eq_ignore_ascii_case(h, www_gofile_host_name())
}

/// The path without fragment, query and trailing slashes.
pub open spec fn normalized_path(p: Seq<char>) -> Seq<char> {
    trim_end(before_first(before_first(p, '#'), '?'), '/')
}

/// The normalized path of a URL on a Gofile host.
pub open spec fn gofile_path(u: Seq<char>) -> Option<Seq<char>> {
    match split_url(u) {
        Some((h, p)) => if is_gofile_host(h) {
            Some(normalized_path(p))
        } else {
            None
        },
        None => None,
    }
}

/// The ids named by a normalized path: `/d/<folder>` or `/d/<folder>/<file>`.
pub open spec fn path_ids(p: Seq<char>) -> Option<(Seq<char>, Option<Seq<char>>)> {
    if p.len() >= 3 && p.take(3) == share_path_prefix() {
        let rest = p.skip(3);
        match first_char(rest, '/') {
            Some(k) => {
                let f = rest.take(k);
                let g = rest.skip(k + 1);
                if valid_folder_id(f) && valid_file_id(g) {
                    Some((f, Some(g)))
                } else {
                    None
                }
            },
            None => if valid_folder_id(rest) {
                Some((rest, None))
            } else {
                None
            },
        }
    } else {
        None
    }
}

/// The ids named by a URL.
pub open spec fn url_ids(u: Seq<char>) -> Option<(Seq<char>, Option<Seq<char>>)> {
    match gofile_path(u) {
        Some(p) => path_ids(p),
        None => None,
    }
}

/// The kind of a URL.
pub open spec fn url_kind(u: Seq<char>) -> UrlKind {
    match url_ids(u) {
        Some((_, Some(_))) => UrlKind::File,
        Some((_, None)) => UrlKind::Folder,
        None => UrlKind::Unknown,
    }
}

// ── Executable matcher ───────────────────────────────────────────────────────

fn find_scheme_sep(v: &Vec<char>) -> (r: Option<usize>)
    ensures
        match r {
            Some(i) => i + 3 <= v.len() && first_scheme_sep(v@) == Some(i as int),
            None => first_scheme_sep(v@) == None::<int>,
        },
{
    let n = v.len();
    if n < 3 {
        return None;
    }
    let mut i: usize = 0;
    while i <= n - 3
        invariant
            n == v.len(),
            n >= 3,
            forall|j: int| 0 <= j < i ==> !scheme_sep_at(v@, j),
        decreases n - i,
    {
        if v[i] == ':' && v[i + 1] == '/' && v[i + 2] == '/' {
            proof {
                assert(is_first_scheme_sep(v@, i as int));
                let k = choose|k: int| is_first_scheme_sep(v@, k);
                assert(is_first_scheme_sep(v@, k));
                if k < i {
                    assert(!scheme_sep_at(v@, k));
                }
                if i < k {
                    assert(!scheme_sep_at(v@, i as int));
                }
            }
            return Some(i);
        }
        i = i + 1;
    }
    proof {
        assert forall|j: int| !is_first_scheme_sep(v@, j) by {
            if 0 <= j && j + 3 <= v@.len() {
                assert(j < i);
            }
        }
    }
    None
}

fn all_alnum(v: &Vec<char>, lo: usize, hi: usize) -> (r: bool)
    requires
        lo <= hi <= v.len(),
    ensures
        r == forall|i: int| 0 <= i < hi - lo ==> is_ascii_alnum(#[trigger] v@.subrange(lo as int, hi as int)[i]),
{
    let mut k = lo;
    while k < hi
        invariant
            lo <= k <= hi <= v.len(),
            forall|i: int| 0 <= i < k - lo ==> is_ascii_alnum(#[trigger] v@.subrange(lo as int, hi as int)[i]),
        decreases hi - k,
    {
        let c = v[k];
        if !(('a' <= c && c <= 'z') || ('A' <= c && c <= 'Z') || ('0' <= c && c <= '9')) {
            assert(!is_ascii_alnum(v@.subrange(lo as int, hi as int)[k - lo]));
            return false;
        }
        k = k + 1;
    }
    true
}

fn all_file_id_chars(v: &Vec<char>, lo: usize, hi: usize) -> (r: bool)
    requires
        lo <= hi <= v.len(),
    ensures
        r == forall|i: int| 0 <= i < hi - lo ==> is_file_id_char(#[trigger] v@.subrange(lo as int, hi as int)[i]),
{
    let mut k = lo;
    while k < hi
        invariant
            lo <= k <= hi <= v.len(),
            forall|i: int| 0 <= i < k - lo ==> is_file_id_char(#[trigger] v@.subrange(lo as int, hi as int)[i]),
        decreases hi - k,
    {
        let c = v[k];
        if !(('a' <= c && c <= 'z') || ('A' <= c && c <= 'Z') || ('0' <= c && c <= '9') || c
            == '_' || c == '-') {
            assert(!is_file_id_char(v@.subrange(lo as int, hi as int)[k - lo]));
            return false;
        }
        k = k + 1;
    }
    true
}

/// Bounds of the authority and of the path in `v[r0..n]`.
fn rest_ranges(v: &Vec<char>, r0: usize) -> (r: (usize, usize))
    requires
        r0 <= v.len(),
    ensures
        r0 <= r.0 <= r.1 <= v.len(),
        v@.subrange(r0 as int, r.0 as int) == authority_part(v@.subrange(r0 as int, v.len() as int)),
        v@.subrange(r.1 as int, v.len() as int) == path_part(v@.subrange(r0 as int, v.len() as int)),
{
    let n = v.len();
    let ghost rest = v@.subrange(r0 as int, n as int);
    match find_first_char(v, r0, n, '/') {
        Some(k) => {
            assert(rest.take(k - r0) =~= v@.subrange(r0 as int, k as int));
            assert(rest.skip(k - r0) =~= v@.subrange(k as int, n as int));
            (k, k)
        },
        None => {
            assert(v@.subrange(n as int, n as int) =~= Seq::<char>::empty());
            (n, n)
        },
    }
}

/// Start of the authority `v[r0..a1]` once its user info is dropped.
fn userinfo_end(v: &Vec<char>, r0: usize, a1: usize) -> (a0: usize)
    requires
        r0 <= a1 <= v.len(),
    ensures
        r0 <= a0 <= a1,
        v@.subrange(a0 as int, a1 as int) == without_userinfo(v@.subrange(r0 as int, a1 as int)),
{
    let ghost authority = v@.subrange(r0 as int, a1 as int);
    match find_last_char(v, r0, a1, '@') {
        Some(k) => {
            assert(authority.skip(k - r0 + 1) =~= v@.subrange(k + 1, a1 as int));
            k + 1
        },
        None => r0,
    }
}

/// Bounds of the host of the authority `v[a0..a1]`.
fn host_range(v: &Vec<char>, a0: usize, a1: usize) -> (r: Option<(usize, usize)>)
    requires
        a0 <= a1 <= v.len(),
    ensures
        match r {
            Some((h0, h1)) => h0 <= h1 <= v.len() && host_of(v@.subrange(a0 as int, a1 as int))
                == Some(v@.subrange(h0 as int, h1 as int)),
            None => host_of(v@.subrange(a0 as int, a1 as int)) is None,
        },
{
    let ghost a = v@.subrange(a0 as int, a1 as int);
    if a0 == a1 {
        return None;
    }
    if v[a0] == '[' {
        assert(a[0] == '[');
        assert(a.skip(1) =~= v@.subrange(a0 + 1, a1 as int));
        match find_first_char(v, a0 + 1, a1, ']') {
            Some(k) => {
                assert(a.take(k - a0 + 1) =~= v@.subrange(a0 as int, k + 1));
                Some((a0, k + 1))
            },
            None => None,
        }
    } else {
        let h1 = match find_first_char(v, a0, a1, ':') {
            Some(k) => {
                assert(a.take(k - a0) =~= v@.subrange(a0 as int, k as int));
                k
            },
            None => a1,
        };
        if h1 == a0 {
            return None;
        }
        Some((a0, h1))
    }
}

/// Bounds of the host and of the path-with-query in `v`.
fn split_url_ranges(v: &Vec<char>) -> (r: Option<(usize, usize, usize, usize)>)
    ensures
        match r {
            Some((h0, h1, p0, p1)) => h0 <= h1 <= v.len() && p0 <= p1 <= v.len() && split_url(v@)
                == Some((v@.subrange(h0 as int, h1 as int), v@.subrange(p0 as int, p1 as int))),
            None => split_url(v@) is None,
        },
{
    let n = v.len();
    let i = match find_scheme_sep(v) {
        Some(i) => i,
        None => return None,
    };
    assert(v@.take(i as int) =~= v@.subrange(0, i as int));
    assert(v@.skip(i + 3) =~= v@.subrange(i + 3, n as int));
    let http: Vec<char> = vec!['h', 't', 't', 'p'];
    let https: Vec<char> = vec!['h', 't', 't', 'p', 's'];
    if !range_eq_ignore_ascii_case(v, 0, i, &http) && !range_eq_ignore_ascii_case(v, 0, i, &https) {
        return None;
    }
    let (a1, p0) = rest_ranges(v, i + 3);
    let a0 = userinfo_end(v, i + 3, a1);
    match host_range(v, a0, a1) {
        Some((h0, h1)) => Some((h0, h1, p0, n)),
        None => None,
    }
}

/// Bounds of the normalized Gofile path in `v`.
fn gofile_path_range(v: &Vec<char>) -> (r: Option<(usize, usize)>)
    ensures
        match r {
            Some((lo, hi)) => lo <= hi <= v.len() && gofile_path(v@) == Some(
                v@.subrange(lo as int, hi as int),
            ),
            None => gofile_path(v@) is None,
        },
{
    let (h0, h1, p0, p1) = match split_url_ranges(v) {
        Some(r) => r,
        None => return None,
    };
    let host: Vec<char> = vec!['g', 'o', 'f', 'i', 'l', 'e', '.', 'i', 'o'];
    let www_host: Vec<char> = vec!['w', 'w', 'w', '.', 'g', 'o', 'f', 'i', 'l', 'e', '.', 'i', 'o'];
    if !range_eq_ignore_ascii_case(v, h0, h1, &host) && !range_eq_ignore_ascii_case(
        v,
        h0,
        h1,
        &www_host,
    ) {
        return None;
    }
    let ghost p = v@.subrange(p0 as int, p1 as int);
    let e1 = match find_first_char(v, p0, p1, '#') {
        Some(k) => {
            assert(p.take(k - p0) =~= v@.subrange(p0 as int, k as int));
            k
        },
        None => p1,
    };
    let ghost p_no_frag = v@.subrange(p0 as int, e1 as int);
    assert(before_first(p, '#') == p_no_frag);
    let e2 = match find_first_char(v, p0, e1, '?') {
        Some(k) => {
            assert(p_no_frag.take(k - p0) =~= v@.subrange(p0 as int, k as int));
            k
        },
        None => e1,
    };
    assert(before_first(p_no_frag, '?') == v@.subrange(p0 as int, e2 as int));
    let e3 = trim_end_index(v, p0, e2, '/');
    Some((p0, e3))
}

/// Bounds of the ids named by the path `v[lo..hi]`.
fn path_id_ranges(v: &Vec<char>, lo: usize, hi: usize) -> (r: Option<
    (usize, usize, Option<(usize, usize)>),
>)
    requires
        lo <= hi <= v.len(),
    ensures
        match r {
            Some((f0, f1, None)) => f0 <= f1 <= v.len() && path_ids(
                v@.subrange(lo as int, hi as int),
            ) == Some((v@.subrange(f0 as int, f1 as int), None::<Seq<char>>)),
            Some((f0, f1, Some((g0, g1)))) => f0 <= f1 <= v.len() && g0 <= g1 <= v.len()
                && path_ids(v@.subrange(lo as int, hi as int)) == Some(
                (v@.subrange(f0 as int, f1 as int), Some(v@.subrange(g0 as int, g1 as int))),
            ),
            None => path_ids(v@.subrange(lo as int, hi as int)) is None,
        },
{
    let ghost p = v@.subrange(lo as int, hi as int);
    if hi - lo < 3 || v[lo] != '/' || v[lo + 1] != 'd' || v[lo + 2] != '/' {
        proof {
            if p.len() >= 3 {
                assert(p.take(3)[0] == p[0]);
                assert(p.take(3)[1] == p[1]);
                assert(p.take(3)[2] == p[2]);
            }
        }
        return None;
    }
    assert(p.take(3) =~= share_path_prefix());
    let r0 = lo + 3;
    let ghost rest = p.skip(3);
    assert(rest =~= v@.subrange(r0 as int, hi as int));
    match find_first_char(v, r0, hi, '/') {
        Some(k) => {
            assert(rest.take(k - r0) =~= v@.subrange(r0 as int, k as int));
            assert(rest.skip(k - r0 + 1) =~= v@.subrange(k + 1, hi as int));
            if k - r0 >= 6 && hi - (k + 1) >= 6 && all_alnum(v, r0, k) && all_file_id_chars(
                v,
                k + 1,
                hi,
            ) {
                Some((r0, k, Some((k + 1, hi))))
            } else {
                None
            }
        },
        None => {
            if hi - r0 >= 6 && all_alnum(v, r0, hi) {
                Some((r0, hi, None))
            } else {
                None
            }
        },
    }
}

// ── Public API ───────────────────────────────────────────────────────────────

/// Classifies `url` as a folder share page, a per-file URL or neither.
pub fn classify_url(url: &str) -> (k: UrlKind)
    ensures
        k == url_kind(url@),
{
    let v = chars_of(url);
    match gofile_path_range(&v) {
        None => UrlKind::Unknown,
        Some((lo, hi)) => match path_id_ranges(&v, lo, hi) {
            Some((_, _, Some(_))) => UrlKind::File,
            Some((_, _, None)) => UrlKind::Folder,
            None => UrlKind::Unknown,
        },
    }
}

/// Extracts `(folder_id, file_id?)` from a recognised Gofile URL.
///
/// `file_id` is `Some` only for the per-file shape; the bare folder share
/// URL gives `None`.
pub fn extract_ids(url: &str) -> (r: Option<(String, Option<String>)>)
    ensures
        match r {
            Some((f, Some(g))) => url_ids(url@) == Some((f@, Some(g@))),
            Some((f, None)) => url_ids(url@) == Some((f@, None::<Seq<char>>)),
            None => url_ids(url@) is None,
        },
{
    let v = chars_of(url);
    match gofile_path_range(&v) {
        None => None,
        Some((lo, hi)) => match path_id_ranges(&v, lo, hi) {
            Some((f0, f1, Some((g0, g1)))) => Some(
                (string_of_range(&v, f0, f1), Some(string_of_range(&v, g0, g1))),
            ),
            Some((f0, f1, None)) => Some((string_of_range(&v, f0, f1), None)),
            None => None,
        },
    }
}

/// Builds the per-file URL exposed in `extract_links` results:
/// `https://gofile.io/d/<folder_id>/<file_id>`.
pub fn synthesise_file_url(folder_id: &str, file_id: &str) -> (s: String)
    ensures
        s@ == share_url_prefix() + folder_id@ + seq!['/'] + file_id@,
{
    let mut s = "https://gofile.io/d/".to_owned();
    proof {
        reveal_strlit("https://gofile.io/d/");
        assert(s@ =~= share_url_prefix());
    }
    s.append(folder_id);
    push_char(&mut s, '/');
    s.append(file_id);
    s
}

} // verus!
