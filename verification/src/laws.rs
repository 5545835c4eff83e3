//! Properties that relate the library's functions to one another and to the
//! URL shapes it promises to recognise.

use vstd::prelude::*;

use crate::text::{
    before_first, first_char, is_first_char, last_char, lemma_first_char_is, lemma_first_char_some,
    trim_end,
};
use vstd::utf8::{encode_utf8, is_ascii_chars, is_ascii_chars_encode_utf8};

use crate::api_client::{
    encoded_byte, is_unreserved_byte, opt_view, percent_encoded, GofileFile, GofileFolder,
};
use crate::api_client::{
    child_file, child_files, is_folder_read, ContentChild, ContentRoot, StatusEnvelope,
};
use crate::error::ErrorModel;
use crate::api_client::{account_token, content_url, create_account_url, is_get_request};
use crate::{
    is_fetch_start, is_fetch_step, reply_fits, FetchAction, FetchReply, FetchStage, FolderFetch,
    bool_text, files_with_id, is_extract_links_result, is_first_with_id, picked_direct_url, resolved_url,
    ExtractLinksResponse, LookupPlan,
};
use crate::url_matcher::{
    authority_part, first_scheme_sep, gofile_host_name, gofile_path, host_of, https_word,
    is_first_scheme_sep, normalized_path, path_ids, path_part, scheme_sep_at, share_path_prefix,
    share_url_prefix, url_ids, url_kind, valid_file_id, valid_folder_id, without_userinfo,
    UrlKind,
};

verus! {

pub(crate) proof fn lemma_no_char(s: Seq<char>, c: char)
    requires
        forall|i: int| 0 <= i < s.len() ==> s[i] != c,
    ensures
        first_char(s, c) == None::<int>,
        last_char(s, c) == None::<int>,
        before_first(s, c) == s,
{
}

pub(crate) proof fn lemma_first_scheme_sep_is(s: Seq<char>, i: int)
    requires
        is_first_scheme_sep(s, i),
    ensures
        first_scheme_sep(s) == Some(i),
{
    let k = choose|k: int| is_first_scheme_sep(s, k);
    assert(is_first_scheme_sep(s, k));
}

/// A path of the shape `/d/<folder>/<file>` names that folder and file.
pub proof fn lemma_file_path_shape(f: Seq<char>, g: Seq<char>)
    requires
        valid_folder_id(f),
        valid_file_id(g),
    ensures
        path_ids(share_path_prefix() + f + seq!['/'] + g) == Some((f, Some(g))),
{
    let p = share_path_prefix() + f + seq!['/'] + g;
    assert(p.take(3) =~= share_path_prefix());
    let rest = p.skip(3);
    assert(rest =~= f + seq!['/'] + g);
    assert(rest[f.len() as int] == '/');
    assert forall|j: int| 0 <= j < f.len() implies rest[j] != '/' by {
        assert(rest[j] == f[j]);
    }
    assert(is_first_char(rest, '/', f.len() as int));
    lemma_first_char_is(rest, '/', f.len() as int);
    assert(rest.take(f.len() as int) =~= f);
    assert(rest.skip(f.len() as int + 1) =~= g);
}

/// A path of the shape `/d/<folder>` names that folder.
pub proof fn lemma_folder_path_shape(f: Seq<char>)
    requires
        valid_folder_id(f),
    ensures
        path_ids(share_path_prefix() + f) == Some((f, None::<Seq<char>>)),
{
    let p = share_path_prefix() + f;
    assert(p.take(3) =~= share_path_prefix());
    let rest = p.skip(3);
    assert(rest =~= f);
    assert forall|j: int| 0 <= j < rest.len() implies rest[j] != '/' by {
        assert(rest[j] == f[j]);
    }
    lemma_no_char(rest, '/');
}

/// A path names ids only in the two shapes `/d/<folder>` and
/// `/d/<folder>/<file>` (the patterns `^/d/([A-Za-z0-9]{6,})$` and
/// `^/d/([A-Za-z0-9]{6,})/([A-Za-z0-9_-]{6,})$`).
pub proof fn lemma_path_ids_shapes(p: Seq<char>)
    ensures
        match path_ids(p) {
            Some((f, Some(g))) => valid_folder_id(f) && valid_file_id(g) && p == share_path_prefix()
                + f + seq!['/'] + g,
            Some((f, None)) => valid_folder_id(f) && p == share_path_prefix() + f,
            None => true,
        },
{
    if p.len() >= 3 && p.take(3) == share_path_prefix() {
        let rest = p.skip(3);
        match first_char(rest, '/') {
            Some(k) => {
                let k2 = choose|i: int| is_first_char(rest, '/', i);
                assert(is_first_char(rest, '/', k2));
                if path_ids(p) is Some {
                    assert(p =~= share_path_prefix() + rest.take(k) + seq!['/'] + rest.skip(k + 1));
                }
            },
            None => {
                assert(p =~= share_path_prefix() + rest);
            },
        }
    }
}

/// Every URL that starts with `https://gofile.io/d/` is read with the path
/// `/d/` followed by the rest of the URL.
pub proof fn lemma_share_url_path(t: Seq<char>)
    ensures
        gofile_path(share_url_prefix() + t) == Some(normalized_path(share_path_prefix() + t)),
{
    let u = share_url_prefix() + t;
    assert forall|j: int| 0 <= j < 20 implies u[j] == share_url_prefix()[j] by {}
    assert(scheme_sep_at(u, 5));
    assert forall|j: int| 0 <= j < 5 implies !scheme_sep_at(u, j) by {
        assert(u[j] != ':');
    }
    assert(is_first_scheme_sep(u, 5));
    lemma_first_scheme_sep_is(u, 5);
    assert(u.take(5) =~= https_word());
    let rest = u.skip(8);
    let host = gofile_host_name();
    assert(rest =~= host + share_path_prefix() + t);
    assert forall|j: int| 0 <= j < 9 implies rest[j] != '/' by {
        assert(rest[j] == host[j]);
    }
    assert(is_first_char(rest, '/', 9));
    lemma_first_char_is(rest, '/', 9);
    assert(authority_part(rest) =~= host);
    assert(path_part(rest) =~= share_path_prefix() + t);
    lemma_no_char(host, '@');
    assert(without_userinfo(host) == host);
    lemma_no_char(host, ':');
    assert(host_of(host) == Some(host));
}

proof fn lemma_before_first_after(x: Seq<char>, y: Seq<char>, c: char)
    requires
        forall|i: int| 0 <= i < x.len() ==> x[i] != c,
    ensures
        before_first(x + y, c) == x + before_first(y, c),
{
    let s = x + y;
    match first_char(y, c) {
        Some(k) => {
            let k2 = choose|i: int| is_first_char(y, c, i);
            assert(is_first_char(y, c, k2));
            assert(is_first_char(s, c, x.len() + k)) by {
                assert forall|j: int| 0 <= j < x.len() + k implies s[j] != c by {
                    if j >= x.len() {
                        assert(s[j] == y[j - x.len()]);
                    }
                }
            }
            lemma_first_char_is(s, c, x.len() + k);
            assert(s.take(x.len() + k) =~= x + y.take(k));
        },
        None => {
            assert forall|j: int| 0 <= j < s.len() implies s[j] != c by {
                if j >= x.len() {
                    assert(s[j] == y[j - x.len()]);
                    if y[j - x.len()] == c {
                        lemma_first_char_some(y, c, j - x.len());
                    }
                }
            }
            lemma_no_char(s, c);
        },
    }
}

proof fn lemma_before_first_at_start(y: Seq<char>, c: char)
    requires
        y.len() > 0,
        y[0] == c,
    ensures
        before_first(y, c) == Seq::<char>::empty(),
{
    assert(is_first_char(y, c, 0));
    lemma_first_char_is(y, c, 0);
    assert(y.take(0) =~= Seq::<char>::empty());
}

proof fn lemma_trim_end_kept(x: Seq<char>, c: char)
    requires
        x.len() > 0,
        x.last() != c,
    ensures
        trim_end(x, c) == x,
{
}

/// `n` slashes.
pub open spec fn slashes(n: nat) -> Seq<char> {
    Seq::new(n, |_i: int| '/')
}

proof fn lemma_trim_slashes(x: Seq<char>, n: nat)
    ensures
        trim_end(x + slashes(n), '/') == trim_end(x, '/'),
    decreases n,
{
    if n > 0 {
        assert((x + slashes(n)).drop_last() =~= x + slashes((n - 1) as nat));
        lemma_trim_slashes(x, (n - 1) as nat);
    } else {
        assert(x + slashes(n) =~= x);
    }
}

/// The per-file URL built for a folder and a file names that folder and
/// that file: it is recognised as a per-file URL and its ids come back
/// unchanged.
pub proof fn lemma_file_url_round_trip(f: Seq<char>, g: Seq<char>)
    requires
        valid_folder_id(f),
        valid_file_id(g),
    ensures
        url_ids(share_url_prefix() + f + seq!['/'] + g) == Some((f, Some(g))),
        url_kind(share_url_prefix() + f + seq!['/'] + g) == UrlKind::File,
{
    let t = f + seq!['/'] + g;
    assert(share_url_prefix() + f + seq!['/'] + g =~= share_url_prefix() + t);
    lemma_share_url_path(t);
    let p = share_path_prefix() + t;
    assert(p =~= share_path_prefix() + f + seq!['/'] + g);
    assert forall|j: int| 0 <= j < p.len() implies p[j] != '#' && p[j] != '?' by {
        if j >= 3 + f.len() + 1 {
            assert(p[j] == g[j - 3 - f.len() - 1]);
        } else if j >= 3 && j < 3 + f.len() {
            assert(p[j] == f[j - 3]);
        }
    }
    lemma_no_char(p, '#');
    lemma_no_char(p, '?');
    assert(p.last() == g.last());
    lemma_trim_end_kept(p, '/');
    lemma_file_path_shape(f, g);
}

/// Cutting the fragment, then the query, of `x + q` leaves `x` when `q` is
/// empty or starts one of them.
proof fn lemma_cut_query(x: Seq<char>, q: Seq<char>)
    requires
        forall|j: int| 0 <= j < x.len() ==> x[j] != '#' && x[j] != '?',
        q.len() == 0 || q[0] == '?' || q[0] == '#',
    ensures
        before_first(before_first(x + q, '#'), '?') == x,
{
    lemma_before_first_after(x, q, '#');
    if q.len() == 0 {
        assert(x + q =~= x);
        lemma_no_char(x, '#');
        lemma_no_char(x, '?');
    } else if q[0] == '#' {
        lemma_before_first_at_start(q, '#');
        assert(x + Seq::<char>::empty() =~= x);
        lemma_no_char(x, '?');
    } else {
        let r = before_first(q, '#');
        match first_char(q, '#') {
            Some(k) => {
                let k2 = choose|i: int| is_first_char(q, '#', i);
                assert(is_first_char(q, '#', k2));
            },
            None => {},
        }
        assert(r.len() > 0 && r[0] == '?');
        lemma_before_first_after(x, r, '?');
        lemma_before_first_at_start(r, '?');
        assert(x + Seq::<char>::empty() =~= x);
    }
}

/// `classify_url` and `extract_ids` agree: a URL is a per-file URL exactly
/// when it names a file id, a folder URL exactly when it names a folder id
/// alone, and unknown exactly when it names nothing.
pub proof fn lemma_kind_matches_ids(u: Seq<char>)
    ensures
        (url_kind(u) == UrlKind::File) <==> (url_ids(u) matches Some((_, Some(_)))),
        (url_kind(u) == UrlKind::Folder) <==> (url_ids(u) matches Some((_, None))),
        (url_kind(u) == UrlKind::Unknown) <==> (url_ids(u) is None),
{
}

/// Every URL flagged as a playlist is also one the plugin handles.
pub proof fn lemma_playlist_urls_are_handled(u: Seq<char>)
    ensures
        bool_text(url_kind(u) == UrlKind::Folder) == bool_text(true) ==> bool_text(
            url_kind(u) != UrlKind::Unknown,
        ) == bool_text(true),
{
    reveal_strlit("true");
    reveal_strlit("false");
    if url_kind(u) != UrlKind::Folder {
        assert(bool_text(false).len() != bool_text(true).len());
    }
}

/// A folder lookup sends exactly two requests: first `createAccount`, then,
/// on a guest token, `getContent` for the folder with that token. The
/// folder's answer ends the lookup, which then accepts no further answer and
/// sends nothing more.
pub proof fn lemma_folder_fetch_protocol(
    folder_id: Seq<char>,
    s0: FolderFetch,
    a0: FetchAction,
    r1: FetchReply,
    s1: FolderFetch,
    a1: FetchAction,
    r2: FetchReply,
    s2: FolderFetch,
    a2: FetchAction,
)
    requires
        is_fetch_start(folder_id, s0, a0),
        reply_fits(s0.stage, r1),
        is_fetch_step(s0, r1, s1, a1),
        reply_fits(s1.stage, r2),
        is_fetch_step(s1, r2, s2, a2),
    ensures
        a0 matches FetchAction::Send(req) && is_get_request(req, create_account_url()),
        r1 matches FetchReply::Account(env) && account_token(env) matches Ok(token) && (
        a1 matches FetchAction::Send(req) && is_get_request(req, content_url(folder_id, token))),
        s2.stage == FetchStage::Done,
        !(a2 is Send),
        forall|r: FetchReply| !reply_fits(s2.stage, r),
{
}

/// A lookup that fails at any step is over: it sends nothing more and
/// accepts no further answer.
pub proof fn lemma_failed_fetch_is_over(fetch: FolderFetch, reply: FetchReply, next: FolderFetch, action: FetchAction)
    requires
        reply_fits(fetch.stage, reply),
        is_fetch_step(fetch, reply, next, action),
        action is Fail,
    ensures
        next.stage == FetchStage::Done,
        forall|r: FetchReply| !reply_fits(next.stage, r),
{
}

/// The files kept for a requested id are exactly those with that id: each
/// of them has it, and none is kept only when no file has it.
pub proof fn lemma_files_with_id(files: Seq<GofileFile>, id: Seq<char>)
    ensures
        forall|k: int|
            0 <= k < files_with_id(files, id).len() ==> (#[trigger] files_with_id(files, id)[k]).id@
                == id,
        files_with_id(files, id).len() == 0 <==> forall|k: int|
            0 <= k < files.len() ==> (#[trigger] files[k]).id@ != id,
    decreases files.len(),
{
    if files.len() > 0 {
        let init = files.drop_last();
        lemma_files_with_id(init, id);
        assert forall|k: int| 0 <= k < init.len() implies files[k] == #[trigger] init[k] by {}
        if files_with_id(files, id).len() == 0 {
            assert forall|k: int| 0 <= k < files.len() implies (#[trigger] files[k]).id@ != id by {
                if k < init.len() {
                    assert(files[k] == init[k]);
                }
            }
        }
    }
}

/// `extract_links` for a per-file URL lists only that file, fails with
/// `FileNotInFolder` exactly when the folder has no file with that id, and,
/// when ids are distinct, answers with a single link of kind `"file"`.
pub proof fn lemma_requested_links(
    folder: GofileFolder,
    id: Seq<char>,
    r: Result<ExtractLinksResponse, crate::error::PluginError>,
)
    requires
        is_extract_links_result(folder, Some(id), r),
    ensures
        r is Err <==> forall|k: int| 0 <= k < folder.files@.len() ==> (#[trigger] folder.files@[k]).id@ != id,
        r matches Ok(resp) ==> forall|k: int| 0 <= k < resp.files@.len() ==> (#[trigger] resp.files@[k]).id@ == id,
        (forall|a: int, b: int|
            0 <= a < b < folder.files@.len() ==> folder.files@[a].id@ != folder.files@[b].id@)
            ==> (r matches Ok(resp) ==> resp.files@.len() == 1 && resp.kind@ == "file"@),
{
    let files = folder.files@;
    let sel = files_with_id(files, id);
    lemma_files_with_id(files, id);
    if let Ok(resp) = r {
        assert forall|k: int| 0 <= k < resp.files@.len() implies (#[trigger] resp.files@[k]).id@ == id by {
            assert(crate::is_link_of(resp.files@[k], folder.id@, sel[k]));
        }
        if (forall|a: int, b: int|
            0 <= a < b < files.len() ==> files[a].id@ != files[b].id@) {
            lemma_files_with_id_unique(files, id);
        }
    }
}

proof fn lemma_files_with_id_unique(files: Seq<GofileFile>, id: Seq<char>)
    requires
        forall|a: int, b: int| 0 <= a < b < files.len() ==> files[a].id@ != files[b].id@,
    ensures
        files_with_id(files, id).len() <= 1,
    decreases files.len(),
{
    if files.len() > 0 {
        let init = files.drop_last();
        lemma_files_with_id_unique(init, id);
        if files.last().id@ == id {
            lemma_files_with_id(init, id);
            assert forall|k: int| 0 <= k < init.len() implies (#[trigger] init[k]).id@ != id by {
                assert(files[k] == init[k]);
            }
        }
    }
}

/// Every link that `extract_links` lists for a folder leads
/// `resolve_stream_url` back to the direct URL of that same file, when the
/// ids have Gofile's shapes and no two files of the folder share an id.
///
/// `plan` is any value that `plan_lookup` may return for the link's URL.
pub proof fn lemma_listed_link_resolves(
    folder: GofileFolder,
    resp: ExtractLinksResponse,
    i: int,
    plan: LookupPlan,
)
    requires
        is_extract_links_result(folder, None, Ok(resp)),
        0 <= i < resp.files@.len(),
        valid_folder_id(folder.id@),
        forall|k: int| 0 <= k < folder.files@.len() ==> valid_file_id(#[trigger] folder.files@[k].id@),
        forall|a: int, b: int|
            0 <= a < b < folder.files@.len() ==> folder.files@[a].id@ != folder.files@[b].id@,
        plan.url@ == resp.files@[i].url@,
        plan.kind == url_kind(plan.url@),
        url_ids(plan.url@) == Some((plan.folder_id@, opt_view(plan.file_id))),
    ensures
        plan.kind == UrlKind::File,
        plan.folder_id@ == folder.id@,
        resolved_url(plan, folder.files@) == Ok::<Seq<char>, ErrorModel>(resp.files@[i].direct_url@),
{
    let files = folder.files@;
    let f = files[i];
    assert(crate::is_link_of(resp.files@[i], folder.id@, f));
    assert(valid_file_id(files[i].id@));
    lemma_file_url_round_trip(folder.id@, f.id@);
    assert(is_first_with_id(files, f.id@, i));
    let k = choose|k: int| is_first_with_id(files, f.id@, k);
    assert(is_first_with_id(files, f.id@, k));
    if k < i {
        assert(files[k].id@ != files[i].id@);
    }
    if i < k {
        assert(files[i].id@ != f.id@);
    }
    assert(picked_direct_url(files, f.id@) == Ok::<Seq<char>, ErrorModel>(f.direct_url@));
}

/// Characters that may stand in a query value as they are:
/// `[A-Za-z0-9_%-]`.
pub open spec fn is_query_safe(c: char) -> bool {
    ('a' <= c && c <= 'z') || ('A' <= c && c <= 'Z') || ('0' <= c && c <= '9') || c == '-' || c
        == '_' || c == '%'
}

/// Characters that content ids and tokens are made of, and that
/// percent-encoding keeps: `[A-Za-z0-9_-]`.
pub open spec fn is_unreserved_char(c: char) -> bool {
    ('a' <= c && c <= 'z') || ('A' <= c && c <= 'Z') || ('0' <= c && c <= '9') || c == '-' || c
        == '_'
}

/// Percent-encoding only ever produces characters that keep a query
/// string well-formed (no `&`, `=`, `#`, `+`, `/`, space, ...).
pub proof fn lemma_percent_encoded_query_safe(bytes: Seq<u8>)
    ensures
        forall|i: int|
            0 <= i < percent_encoded(bytes).len() ==> is_query_safe(
                #[trigger] percent_encoded(bytes)[i],
            ),
    decreases bytes.len(),
{
    if bytes.len() > 0 {
        let init = bytes.drop_last();
        let b = bytes.last();
        lemma_percent_encoded_query_safe(init);
        let e = encoded_byte(b);
        assert forall|i: int| 0 <= i < e.len() implies is_query_safe(#[trigger] e[i]) by {
            if is_unreserved_byte(b) {
                assert(e[i] == b as char);
            } else {
                assert(b / 16 < 16 && b % 16 < 16);
            }
        }
        let whole = percent_encoded(init) + e;
        assert(percent_encoded(bytes) == whole);
        assert forall|i: int| 0 <= i < whole.len() implies is_query_safe(#[trigger] whole[i]) by {
            if i >= percent_encoded(init).len() {
                assert(whole[i] == e[i - percent_encoded(init).len()]);
            } else {
                assert(whole[i] == percent_encoded(init)[i]);
            }
        }
    }
}

proof fn lemma_percent_encoded_plain_bytes(bytes: Seq<u8>)
    requires
        forall|i: int| 0 <= i < bytes.len() ==> is_unreserved_byte(#[trigger] bytes[i]),
    ensures
        percent_encoded(bytes) =~= Seq::new(bytes.len(), |i: int| bytes[i] as char),
    decreases bytes.len(),
{
    if bytes.len() > 0 {
        lemma_percent_encoded_plain_bytes(bytes.drop_last());
        assert(is_unreserved_byte(bytes[bytes.len() - 1]));
    }
}

/// Strings made of `[A-Za-z0-9_-]`, as Gofile's content ids and tokens
/// are, go into the query unchanged.
pub proof fn lemma_url_encode_keeps_plain(s: Seq<char>)
    requires
        forall|i: int| 0 <= i < s.len() ==> is_unreserved_char(#[trigger] s[i]),
    ensures
        percent_encoded(encode_utf8(s)) == s,
{
    assert(is_ascii_chars(s)) by {
        assert forall|i: int| 0 <= i < s.len() implies '\0' <= #[trigger] s[i] <= '\u{7f}' by {
            assert(is_unreserved_char(s[i]));
        }
    }
    is_ascii_chars_encode_utf8(s);
    let bytes = encode_utf8(s);
    assert forall|i: int| 0 <= i < bytes.len() implies is_unreserved_byte(#[trigger] bytes[i]) by {
        assert(is_unreserved_char(s[i]));
        assert(s[i] as u8 == bytes[i]);
    }
    lemma_percent_encoded_plain_bytes(bytes);
    assert forall|i: int| 0 <= i < s.len() implies (bytes[i] as char) == s[i] by {
        assert(is_unreserved_char(s[i]));
        assert(s[i] as u8 == bytes[i]);
    }
    assert(percent_encoded(bytes) =~= s);
}

proof fn lemma_folder_path_normalized(f: Seq<char>, n: nat, q: Seq<char>)
    requires
        valid_folder_id(f),
        q.len() == 0 || q[0] == '?' || q[0] == '#',
    ensures
        normalized_path(share_path_prefix() + (f + slashes(n) + q)) == share_path_prefix() + f,
{
    let x = share_path_prefix() + f + slashes(n);
    assert(share_path_prefix() + (f + slashes(n) + q) =~= x + q);
    assert forall|j: int| 0 <= j < x.len() implies x[j] != '#' && x[j] != '?' by {
        if j >= 3 && j < 3 + f.len() {
            assert(x[j] == f[j - 3]);
        }
    }
    lemma_cut_query(x, q);
    lemma_trim_slashes(share_path_prefix() + f, n);
    assert((share_path_prefix() + f).last() == f.last());
    lemma_trim_end_kept(share_path_prefix() + f, '/');
}

/// A folder share URL names its folder, whatever trailing slashes, query
/// or fragment follow the id.
pub proof fn lemma_folder_url(f: Seq<char>, n: nat, q: Seq<char>)
    requires
        valid_folder_id(f),
        q.len() == 0 || q[0] == '?' || q[0] == '#',
    ensures
        url_ids(share_url_prefix() + f + slashes(n) + q) == Some((f, None::<Seq<char>>)),
        url_kind(share_url_prefix() + f + slashes(n) + q) == UrlKind::Folder,
{
    let t = f + slashes(n) + q;
    assert(share_url_prefix() + f + slashes(n) + q =~= share_url_prefix() + t);
    lemma_share_url_path(t);
    lemma_folder_path_normalized(f, n, q);
    lemma_folder_path_shape(f);
}

// ── What a folder read keeps ─────────────────────────────────────────────────

/// `f` is the file that the child `c` describes: `c` is of type `"file"`
/// with a non-empty link, and `f` has `c`'s id, name, link and mime type
/// unchanged, and `c`'s size (0 when `c` gives none).
pub open spec fn file_from_child(c: ContentChild, f: GofileFile) -> bool {
    &&& c.kind matches Some(k) && k@ == "file"@
    &&& c.id == Some(f.id)
    &&& c.name == Some(f.name)
    &&& c.link == Some(f.direct_url)
    &&& f.direct_url@.len() > 0
    &&& f.size == match c.size {
        Some(n) => n,
        None => 0u64,
    }
    &&& f.mimetype == c.mimetype
}

/// The child `c` describes a file: it is of type `"file"` and has an id, a
/// name and a non-empty link.
pub open spec fn child_is_file(c: ContentChild) -> bool {
    &&& c.kind matches Some(k) && k@ == "file"@
    &&& c.id is Some
    &&& c.name is Some
    &&& c.link matches Some(l) && l@.len() > 0
}

proof fn lemma_child_file_fields(c: ContentChild)
    ensures
        child_file(c) matches Some(f) ==> file_from_child(c, f),
        child_file(c) is Some <==> child_is_file(c),
{
}

proof fn lemma_child_files_has(cs: Seq<ContentChild>, k: int)
    requires
        0 <= k < cs.len(),
        child_file(cs[k]) is Some,
    ensures
        child_files(cs).contains(child_file(cs[k]).unwrap()),
    decreases cs.len(),
{
    let f = child_file(cs[k]).unwrap();
    let init = cs.drop_last();
    if k == cs.len() - 1 {
        assert(child_files(cs) == child_files(init) + seq![f]);
        assert((child_files(init) + seq![f])[child_files(init).len() as int] == f);
    } else {
        assert(init[k] == cs[k]);
        lemma_child_files_has(init, k);
        let i = choose|i: int| 0 <= i < child_files(init).len() && child_files(init)[i] == f;
        match child_file(cs.last()) {
            Some(g) => {
                assert(child_files(cs) == child_files(init) + seq![g]);
                assert(child_files(cs)[i] == f);
            },
            None => {
                assert(child_files(cs) == child_files(init));
            },
        }
    }
}

/// A folder read from a `getContent` answer holds exactly the files that
/// its children of type `"file"` (with an id, a name and a non-empty link)
/// describe: each file carries its child's id, name, link, size and mime
/// type unchanged, and each such child gives a file of the folder.
pub proof fn lemma_read_files_match_children(
    env: StatusEnvelope<ContentRoot>,
    folder: GofileFolder,
)
    requires
        is_folder_read(env, Ok(folder)),
    ensures
        forall|i: int|
            #![trigger folder.files@[i]]
            0 <= i < folder.files@.len() ==> exists|k: int|
                0 <= k < env.data.unwrap().contents@.len() && file_from_child(
                    #[trigger] env.data.unwrap().contents@[k],
                    folder.files@[i],
                ),
        forall|k: int|
            0 <= k < env.data.unwrap().contents@.len() && child_is_file(
                #[trigger] env.data.unwrap().contents@[k],
            ) ==> exists|i: int|
                0 <= i < folder.files@.len() && file_from_child(
                    env.data.unwrap().contents@[k],
                    #[trigger] folder.files@[i],
                ),
{
    broadcast use vstd::seq_lib::group_to_multiset_ensures;

    let cs = env.data.unwrap().contents@;
    let files = folder.files@;
    let listed = child_files(cs);
    assert forall|i: int| #![trigger files[i]] 0 <= i < files.len() implies exists|k: int|
        0 <= k < cs.len() && file_from_child(#[trigger] cs[k], files[i]) by {
        let f = files[i];
        assert(files.contains(f));
        assert(files.to_multiset().count(f) > 0);
        assert(listed.to_multiset().count(f) > 0);
        assert(listed.contains(f));
        cs.lemma_filter_map_contains(|c: ContentChild| child_file(c), f);
        let t = choose|t: ContentChild| #[trigger] cs.contains(t) && child_file(t) == Some(f);
        let k = choose|k: int| 0 <= k < cs.len() && cs[k] == t;
        lemma_child_file_fields(t);
        assert(file_from_child(cs[k], f));
    }
    assert forall|k: int| 0 <= k < cs.len() && child_is_file(#[trigger] cs[k]) implies exists|i: int|
        0 <= i < files.len() && file_from_child(cs[k], #[trigger] files[i]) by {
        lemma_child_file_fields(cs[k]);
        let f = child_file(cs[k]).unwrap();
        lemma_child_files_has(cs, k);
        assert(listed.to_multiset().count(f) > 0);
        assert(files.to_multiset().count(f) > 0);
        assert(files.contains(f));
        let i = choose|i: int| 0 <= i < files.len() && files[i] == f;
        assert(file_from_child(cs[k], files[i]));
    }
}

// ── Id characters ────────────────────────────────────────────────────────────

/// Every id of six or more ASCII letters and digits names a folder:
/// `https://gofile.io/d/<id>` is a folder URL for that id.
pub proof fn lemma_folder_ids_accepted(f: Seq<char>)
    requires
        f.len() >= 6,
        forall|i: int|
            0 <= i < f.len() ==> ('a' <= #[trigger] f[i] && f[i] <= 'z') || ('A' <= f[i] && f[i]
                <= 'Z') || ('0' <= f[i] && f[i] <= '9'),
    ensures
        url_kind(share_url_prefix() + f) == UrlKind::Folder,
        url_ids(share_url_prefix() + f) == Some((f, None::<Seq<char>>)),
{
    assert(valid_folder_id(f));
    lemma_folder_url(f, 0, Seq::<char>::empty());
    assert(share_url_prefix() + f + slashes(0) + Seq::<char>::empty() =~= share_url_prefix() + f);
}

/// Every file id of six or more ASCII letters, digits, `_` or `-`, under a
/// folder id of six or more ASCII letters and digits, names that file:
/// `https://gofile.io/d/<folder>/<file>` is a per-file URL for both ids.
pub proof fn lemma_file_ids_accepted(f: Seq<char>, g: Seq<char>)
    requires
        f.len() >= 6,
        forall|i: int|
            0 <= i < f.len() ==> ('a' <= #[trigger] f[i] && f[i] <= 'z') || ('A' <= f[i] && f[i]
                <= 'Z') || ('0' <= f[i] && f[i] <= '9'),
        g.len() >= 6,
        forall|i: int|
            0 <= i < g.len() ==> ('a' <= #[trigger] g[i] && g[i] <= 'z') || ('A' <= g[i] && g[i]
                <= 'Z') || ('0' <= g[i] && g[i] <= '9') || g[i] == '_' || g[i] == '-',
    ensures
        url_kind(share_url_prefix() + f + seq!['/'] + g) == UrlKind::File,
        url_ids(share_url_prefix() + f + seq!['/'] + g) == Some((f, Some(g))),
{
    assert(valid_folder_id(f));
    assert(valid_file_id(g));
    lemma_file_url_round_trip(f, g);
}

/// Whatever a URL names is made of id characters only: a folder id of six
/// or more ASCII letters and digits, and a file id of six or more ASCII
/// letters, digits, `_` or `-`.
pub proof fn lemma_named_ids_have_id_chars(u: Seq<char>)
    ensures
        url_ids(u) matches Some((f, _)) ==> f.len() >= 6 && forall|i: int|
            0 <= i < f.len() ==> ('a' <= #[trigger] f[i] && f[i] <= 'z') || ('A' <= f[i] && f[i]
                <= 'Z') || ('0' <= f[i] && f[i] <= '9'),
        url_ids(u) matches Some((_, Some(g))) ==> g.len() >= 6 && forall|i: int|
            0 <= i < g.len() ==> ('a' <= #[trigger] g[i] && g[i] <= 'z') || ('A' <= g[i] && g[i]
                <= 'Z') || ('0' <= g[i] && g[i] <= '9') || g[i] == '_' || g[i] == '-',
{
    if let Some(p) = gofile_path(u) {
        lemma_path_ids_shapes(p);
    }
}

// ── Answer shapes ────────────────────────────────────────────────────────────

/// An `extract_links` answer has kind `"file"` exactly when it lists one
/// link; with two or more links its kind is `"folder"`.
pub proof fn lemma_extract_links_kind(
    folder: GofileFolder,
    requested: Option<Seq<char>>,
    resp: ExtractLinksResponse,
)
    requires
        is_extract_links_result(folder, requested, Ok(resp)),
    ensures
        resp.files@.len() >= 1,
        (resp.kind@ == "file"@) <==> resp.files@.len() == 1,
        resp.files@.len() >= 2 ==> resp.kind@ == "folder"@,
{
    reveal_strlit("file");
    reveal_strlit("folder");
    assert("file"@.len() != "folder"@.len());
}

/// A folder URL resolves to a direct URL only when its folder holds
/// exactly one file, and then to that file's URL; an empty folder is
/// `EmptyFolder`, and a folder of two or more files is an `ApiError`.
pub proof fn lemma_folder_url_needs_single_file(plan: LookupPlan, files: Seq<GofileFile>)
    requires
        plan.kind == UrlKind::Folder,
    ensures
        resolved_url(plan, files) is Ok <==> files.len() == 1,
        files.len() == 1 ==> resolved_url(plan, files) == Ok::<Seq<char>, ErrorModel>(
            files[0].direct_url@,
        ),
        files.len() == 0 ==> resolved_url(plan, files) == Err::<Seq<char>, ErrorModel>(
            ErrorModel::EmptyFolder,
        ),
        files.len() >= 2 ==> resolved_url(plan, files) matches Err(ErrorModel::ApiError(_)),
        files.len() >= 2 ==> resolved_url(plan, files) == Err::<Seq<char>, ErrorModel>(
            ErrorModel::ApiError(
                "folder has "@ + crate::text::decimal(files.len()) + " files; resolve_stream_url needs the per-file URL shape (https://gofile.io/d/<folder>/<file>) to disambiguate"@,
            ),
        ),
{
}

// ── Request URLs ─────────────────────────────────────────────────────────────

/// For a content id and a token of `[A-Za-z0-9_-]`, the `getContent` URL
/// holds both as they are:
/// `https://api.gofile.io/getContent?contentId=<id>&token=<token>`.
pub proof fn lemma_content_url_plain(id: Seq<char>, token: Seq<char>)
    requires
        forall|i: int| 0 <= i < id.len() ==> is_unreserved_char(#[trigger] id[i]),
        forall|i: int| 0 <= i < token.len() ==> is_unreserved_char(#[trigger] token[i]),
    ensures
        content_url(id, token) == "https://api.gofile.io/getContent?contentId="@ + id + "&token="@
            + token,
{
    lemma_url_encode_keeps_plain(id);
    lemma_url_encode_keeps_plain(token);
    reveal_strlit("https://api.gofile.io");
    reveal_strlit("/getContent?contentId=");
    reveal_strlit("https://api.gofile.io/getContent?contentId=");
    reveal_strlit("&token=");
    assert("https://api.gofile.io"@ + "/getContent?contentId="@
        =~= "https://api.gofile.io/getContent?contentId="@);
}

/// Once a guest token of `[A-Za-z0-9_-]` comes back, a lookup of a folder id
/// of `[A-Za-z0-9_-]` sends
/// `GET https://api.gofile.io/getContent?contentId=<id>&token=<token>`,
/// with both exactly as they are.
pub proof fn lemma_fetch_asks_for_the_folder(
    fetch: FolderFetch,
    env: StatusEnvelope<crate::api_client::AccountData>,
    next: FolderFetch,
    action: FetchAction,
    token: Seq<char>,
)
    requires
        fetch.stage == FetchStage::AwaitingToken,
        is_fetch_step(fetch, FetchReply::Account(env), next, action),
        account_token(env) == Ok::<Seq<char>, ErrorModel>(token),
        forall|i: int| 0 <= i < fetch.folder_id@.len() ==> is_unreserved_char(#[trigger] fetch.folder_id@[i]),
        forall|i: int| 0 <= i < token.len() ==> is_unreserved_char(#[trigger] token[i]),
    ensures
        action matches FetchAction::Send(req) && req.method@ == "GET"@ && req.url@
            == "https://api.gofile.io/getContent?contentId="@ + fetch.folder_id@ + "&token="@ + token,
        next.stage == FetchStage::AwaitingContent,
{
    lemma_content_url_plain(fetch.folder_id@, token);
}

} // verus!
