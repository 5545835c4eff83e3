//! Properties of how Gofile's answers are read and of the order of file ids.

use vstd::prelude::*;

use crate::api_client::{
    child_file, child_files, ContentChild, account_token, is_folder_read, status_error, success_body, AccountData, ContentRoot,
    GofileFile, GofileFolder, StatusEnvelope,
};
use crate::encoding::{is_cut, lemma_utf8_len, utf8_len};
use vstd::utf8::encode_utf8;
use crate::error::ErrorModel;
use crate::laws::{child_is_file, file_from_child};
use crate::text::{decimal, lex_le};
use crate::url_matcher::share_url_prefix;
use crate::{files_with_id, is_link_of, is_extract_links_result, is_first_with_id, picked_direct_url, ExtractLinksResponse};

verus! {

// ── Statuses and HTTP answers ────────────────────────────────────────────────

/// `"ok"` passes; `error-notFound`, `error-not-found` and
/// `error-passwordRequired` mean the content is offline; every other
/// `error-...` status is an API error carrying the status; a missing
/// status is an API error.
pub proof fn lemma_status_outcomes(s: Seq<char>)
    ensures
        s == "ok"@ ==> status_error(Some(s)) is None,
        s == "error-notFound"@ || s == "error-not-found"@ || s == "error-passwordRequired"@
            ==> status_error(Some(s)) == Some(ErrorModel::Offline(s)),
        s.len() >= 6 && s.take(6) == "error-"@ && s != "error-notFound"@ && s != "error-not-found"@
            && s != "error-passwordRequired"@ ==> status_error(Some(s)) == Some(
            ErrorModel::ApiError(s),
        ),
        status_error(None) == Some(ErrorModel::ApiError("response missing status field"@)),
        s != "ok"@ && !(s.len() >= 6 && s.take(6) == "error-"@) && (exists|i: int|
            0 <= i && i + 8 <= s.len() && #[trigger] s.subrange(i, i + 8) == "notFound"@)
            ==> status_error(Some(s)) == Some(ErrorModel::Offline(s)),
        s != "ok"@ && !(s.len() >= 6 && s.take(6) == "error-"@) && !(exists|i: int|
            0 <= i && i + 8 <= s.len() && #[trigger] s.subrange(i, i + 8) == "notFound"@)
            ==> status_error(Some(s)) == Some(
            ErrorModel::ApiError("unexpected status '"@ + s + "'"@),
        ),
{
    reveal_strlit("notFound");
    reveal_strlit("ok");
    reveal_strlit("error-");
    reveal_strlit("error-notFound");
    reveal_strlit("error-not-found");
    reveal_strlit("error-passwordRequired");
    if s.len() >= 6 && s.take(6) == "error-"@ {
        assert(s[0] == s.take(6)[0]);
        assert(s != "ok"@);
    } else {
        if s == "error-notFound"@ || s == "error-not-found"@ || s == "error-passwordRequired"@ {
            assert(s.take(6) =~= "error-"@);
        }
        if exists|i: int| 0 <= i && i + 8 <= s.len() && #[trigger] s.subrange(i, i + 8) == "notFound"@ {
            let i = choose|i: int| 0 <= i && i + 8 <= s.len() && #[trigger] s.subrange(i, i + 8) == "notFound"@;
            assert(crate::text::occurs_at(s, "notFound"@, i));
        }
    }
}

/// A 2xx answer of at most 1048576 bytes gives its body unchanged; a larger
/// one, or any status outside 2xx other than 404 and 410, is an HTTP status
/// error carrying the status; 404 and 410 mean the content is offline.
pub proof fn lemma_success_body_outcomes(status: u16, body: Seq<char>)
    ensures
        success_body(status, body) is Ok <==> 200 <= status && status <= 299 && utf8_len(body)
            <= 1048576,
        success_body(status, body) matches Ok(b) ==> b == body,
        status == 404 || status == 410 ==> success_body(status, body) matches Err(
            ErrorModel::Offline(_),
        ),
        !(200 <= status && status <= 299 && utf8_len(body) <= 1048576) && status != 404 && status
            != 410 ==> (success_body(status, body) matches Err(ErrorModel::HttpStatus(st, _))
            && st == status),
{
}

proof fn lemma_cut_exists(s: Seq<char>, max: nat)
    requires
        utf8_len(s) > max,
    ensures
        exists|k: int| is_cut(s, max, k),
    decreases s.len(),
{
    if s.len() == 0 {
        assert(utf8_len(s) == 0);
    } else {
        let init = s.drop_last();
        assert(s.take(s.len() - 1) =~= init);
        assert(s.take(s.len() as int) =~= s);
        if utf8_len(init) > max {
            lemma_cut_exists(init, max);
            let k = choose|k: int| is_cut(init, max, k);
            assert(init.take(k) =~= s.take(k));
            assert(init.take(k + 1) =~= s.take(k + 1));
            assert(is_cut(s, max, k));
        } else {
            assert(is_cut(s, max, s.len() - 1));
        }
    }
}

/// The error of an answer outside 2xx (other than 404 and 410) carries its
/// status and its body: the whole body when it takes at most 256 UTF-8
/// bytes, otherwise the longest run of its first characters that fits in
/// 256 bytes, followed by `…`.
pub proof fn lemma_error_body_cut(status: u16, body: Seq<char>)
    requires
        !(200 <= status && status <= 299),
        status != 404,
        status != 410,
    ensures
        success_body(status, body) matches Err(ErrorModel::HttpStatus(st, m)) && st == status && (
        encode_utf8(body).len() <= 256 ==> m == body) && (encode_utf8(body).len() > 256
            ==> exists|k: int|
            0 <= k < body.len() && m == body.take(k) + seq!['\u{2026}'] && encode_utf8(
                #[trigger] body.take(k),
            ).len() <= 256 && encode_utf8(body.take(k + 1)).len() > 256),
{
    lemma_utf8_len(body);
    if utf8_len(body) > 256 {
        lemma_cut_exists(body, 256);
        let k = choose|k: int| is_cut(body, 256, k);
        lemma_utf8_len(body.take(k));
        lemma_utf8_len(body.take(k + 1));
    }
}

/// A 2xx answer over 1048576 bytes is refused with the message
/// `body exceeds 1048576 bytes`; a 404 or 410 answer is offline, with the
/// message `status 404` or `status 410`.
pub proof fn lemma_refused_body_messages(status: u16, body: Seq<char>)
    ensures
        200 <= status && status <= 299 && encode_utf8(body).len() > 1048576 ==> success_body(
            status,
            body,
        ) == Err::<Seq<char>, ErrorModel>(
            ErrorModel::HttpStatus(status, "body exceeds 1048576 bytes"@),
        ),
        status == 404 ==> success_body(status, body) == Err::<Seq<char>, ErrorModel>(
            ErrorModel::Offline("status 404"@),
        ),
        status == 410 ==> success_body(status, body) == Err::<Seq<char>, ErrorModel>(
            ErrorModel::Offline("status 410"@),
        ),
{
    lemma_utf8_len(body);
    reveal_strlit("body exceeds 1048576 bytes");
    reveal_strlit("body exceeds ");
    reveal_strlit(" bytes");
    reveal_strlit("status 404");
    reveal_strlit("status 410");
    reveal_strlit("status ");
    reveal_with_fuel(crate::text::decimal, 8);
    assert("body exceeds "@ + crate::text::decimal(1048576) + " bytes"@ =~= "body exceeds 1048576 bytes"@);
    assert("status "@ + crate::text::decimal(404) =~= "status 404"@);
    assert("status "@ + crate::text::decimal(410) =~= "status 410"@);
}

// ── Guest token and folder answers ───────────────────────────────────────────

/// A `createAccount` answer gives a token exactly when its status is `"ok"`
/// and its data holds a non-empty token, and then it is that token.
pub proof fn lemma_account_token_read(env: StatusEnvelope<AccountData>)
    ensures
        account_token(env) is Ok <==> (env.status is Some && env.status.unwrap()@ == "ok"@
            && env.data is Some && env.data.unwrap().token is Some
            && env.data.unwrap().token.unwrap()@.len() > 0),
        account_token(env) matches Ok(t) ==> env.data.unwrap().token.unwrap()@ == t,
{
    reveal_strlit("ok");
}

/// A `getContent` answer is read into a folder exactly when its status is
/// `"ok"`, its data is there with an id, and its type, where given, is
/// `"folder"`; the folder then has the answer's id and name.
pub proof fn lemma_folder_read_accepted(
    env: StatusEnvelope<ContentRoot>,
    r: Result<GofileFolder, crate::error::PluginError>,
)
    requires
        is_folder_read(env, r),
    ensures
        r is Ok <==> (env.status is Some && env.status.unwrap()@ == "ok"@ && env.data is Some
            && env.data.unwrap().id is Some && (env.data.unwrap().kind is Some
            ==> env.data.unwrap().kind.unwrap()@ == "folder"@)),
        r matches Ok(folder) ==> Some(folder.id) == env.data.unwrap().id && folder.name
            == env.data.unwrap().name,
{
    reveal_strlit("ok");
    reveal_strlit("folder");
}

// ── Links ────────────────────────────────────────────────────────────────────

/// The `extract_links` answer of a folder URL lists every file of the
/// folder, in order, each with its id, name, size, mime type and direct URL
/// unchanged, the per-file URL `https://gofile.io/d/<folder>/<file>`, and
/// `resumable` set; it names the folder by its id and name.
pub proof fn lemma_links_carry_files(folder: GofileFolder, resp: ExtractLinksResponse)
    requires
        is_extract_links_result(folder, None, Ok(resp)),
    ensures
        resp.files@.len() == folder.files@.len(),
        forall|i: int|
            #![trigger resp.files@[i]]
            0 <= i < resp.files@.len() ==> {
                let l = resp.files@[i];
                let f = folder.files@[i];
                &&& l.id@ == f.id@
                &&& l.url@ == "https://gofile.io/d/"@ + folder.id@ + "/"@ + f.id@
                &&& l.filename matches Some(n) && n@ == f.name@
                &&& l.size_bytes == Some(f.size)
                &&& match (l.mime_type, f.mimetype) {
                    (Some(a), Some(b)) => a@ == b@,
                    (None, None) => true,
                    _ => false,
                }
                &&& l.direct_url@ == f.direct_url@
                &&& l.resumable
            },
        resp.folder_id matches Some(id) && id@ == folder.id@,
        match (resp.folder_name, folder.name) {
            (Some(a), Some(b)) => a@ == b@,
            (None, None) => true,
            _ => false,
        },
{
    reveal_strlit("https://gofile.io/d/");
    reveal_strlit("/");
    assert("https://gofile.io/d/"@ =~= share_url_prefix());
    assert("/"@ =~= seq!['/']);
    assert forall|i: int| #![trigger resp.files@[i]] 0 <= i < resp.files@.len() implies
        crate::is_link_of(resp.files@[i], folder.id@, folder.files@[i]) by {}
}

proof fn lemma_first_with_id_exists(files: Seq<GofileFile>, id: Seq<char>, k: int)
    requires
        0 <= k < files.len(),
        files[k].id@ == id,
    ensures
        exists|i: int| is_first_with_id(files, id, i),
    decreases k,
{
    if forall|j: int| 0 <= j < k ==> files[j].id@ != id {
        assert(is_first_with_id(files, id, k));
    } else {
        let j = choose|j: int| 0 <= j < k && files[j].id@ == id;
        lemma_first_with_id_exists(files, id, j);
    }
}

/// Picking a file by id succeeds exactly when some file has that id, and
/// gives the direct URL of the first such file; otherwise it is
/// `FileNotInFolder` with the id.
pub proof fn lemma_pick_by_id(files: Seq<GofileFile>, id: Seq<char>)
    ensures
        picked_direct_url(files, id) is Ok <==> exists|k: int| 0 <= k < files.len() && #[trigger] files[k].id@ == id,
        forall|k: int|
            0 <= k < files.len() && #[trigger] files[k].id@ == id && (forall|j: int|
                0 <= j < k ==> files[j].id@ != id) ==> picked_direct_url(files, id) == Ok::<
                Seq<char>,
                ErrorModel,
            >(files[k].direct_url@),
        picked_direct_url(files, id) is Err ==> picked_direct_url(files, id) == Err::<
            Seq<char>,
            ErrorModel,
        >(ErrorModel::FileNotInFolder(id)),
{
    if exists|k: int| 0 <= k < files.len() && #[trigger] files[k].id@ == id {
        let k = choose|k: int| 0 <= k < files.len() && #[trigger] files[k].id@ == id;
        lemma_first_with_id_exists(files, id, k);
    }
    assert forall|k: int|
        0 <= k < files.len() && #[trigger] files[k].id@ == id && (forall|j: int|
            0 <= j < k ==> files[j].id@ != id) implies picked_direct_url(files, id) == Ok::<
        Seq<char>,
        ErrorModel,
    >(files[k].direct_url@) by {
        assert(is_first_with_id(files, id, k));
        let c = choose|c: int| is_first_with_id(files, id, c);
        assert(is_first_with_id(files, id, c));
        if c < k {
            assert(files[c].id@ != id);
        }
        if k < c {
            assert(files[k].id@ != id);
        }
    }
}

// ── Order of ids ─────────────────────────────────────────────────────────────

/// Two ids each no greater than the other are equal.
pub proof fn lemma_lex_le_antisymmetric(a: Seq<char>, b: Seq<char>)
    requires
        lex_le(a, b),
        lex_le(b, a),
    ensures
        a == b,
    decreases a.len(),
{
    if a.len() > 0 && b.len() > 0 {
        lemma_lex_le_antisymmetric(a.drop_first(), b.drop_first());
        assert(a =~= seq![a[0]] + a.drop_first());
        assert(b =~= seq![b[0]] + b.drop_first());
    } else {
        assert(a =~= b);
    }
}

/// Ids are ordered by their first differing character, and a prefix comes
/// before any longer id.
pub proof fn lemma_lex_le_by_first_difference(a: Seq<char>, b: Seq<char>, k: int)
    requires
        0 <= k <= a.len(),
        k <= b.len(),
        a.take(k) == b.take(k),
    ensures
        k < a.len() && k < b.len() && a[k] < b[k] ==> lex_le(a, b) && !lex_le(b, a),
        k == a.len() ==> lex_le(a, b),
        k == a.len() && k < b.len() ==> !lex_le(b, a),
    decreases k,
{
    if k > 0 {
        assert(a[0] == a.take(k)[0]);
        assert(b[0] == b.take(k)[0]);
        assert(a.drop_first().take(k - 1) =~= a.take(k).drop_first());
        assert(b.drop_first().take(k - 1) =~= b.take(k).drop_first());
        lemma_lex_le_by_first_difference(a.drop_first(), b.drop_first(), k - 1);
    }
}

/// The files of a folder read from a `getContent` answer are in ascending
/// order of id.
pub proof fn lemma_read_files_ascending(env: StatusEnvelope<ContentRoot>, folder: GofileFolder)
    requires
        is_folder_read(env, Ok(folder)),
    ensures
        forall|i: int, j: int|
            0 <= i < j < folder.files@.len() ==> lex_le(
                #[trigger] folder.files@[i].id@,
                #[trigger] folder.files@[j].id@,
            ),
{
}


// ── How many files a folder read keeps ───────────────────────────────────────

/// How many of `cs` describe the file `f` (see [`file_from_child`]).
pub open spec fn children_giving(cs: Seq<ContentChild>, f: GofileFile) -> nat
    decreases cs.len(),
{
    if cs.len() == 0 {
        0
    } else {
        children_giving(cs.drop_last(), f) + if file_from_child(cs.last(), f) {
            1nat
        } else {
            0nat
        }
    }
}

/// How many of `cs` describe a file (see [`child_is_file`]).
pub open spec fn file_children(cs: Seq<ContentChild>) -> nat
    decreases cs.len(),
{
    if cs.len() == 0 {
        0
    } else {
        file_children(cs.drop_last()) + if child_is_file(cs.last()) {
            1nat
        } else {
            0nat
        }
    }
}

proof fn lemma_child_file_exact(c: ContentChild, f: GofileFile)
    ensures
        file_from_child(c, f) <==> child_file(c) == Some(f),
        child_file(c) is Some <==> child_is_file(c),
{
}

proof fn lemma_child_files_counts(cs: Seq<ContentChild>, f: GofileFile)
    ensures
        child_files(cs).to_multiset().count(f) == children_giving(cs, f),
        child_files(cs).len() == file_children(cs),
    decreases cs.len(),
{
    broadcast use vstd::seq_lib::group_to_multiset_ensures;

    if cs.len() == 0 {
        assert(child_files(cs) =~= Seq::<GofileFile>::empty());
    } else {
        let init = cs.drop_last();
        lemma_child_files_counts(init, f);
        lemma_child_file_exact(cs.last(), f);
        match child_file(cs.last()) {
            Some(g) => {
                assert(child_files(cs) == child_files(init) + seq![g]);
                assert(child_files(init) + seq![g] =~= child_files(init).push(g));
            },
            None => {
                assert(child_files(cs) == child_files(init));
            },
        }
    }
}

/// A folder read from a `getContent` answer holds each file exactly as
/// many times as the answer has children describing it, and as many files
/// as the answer has children that describe a file.
pub proof fn lemma_read_files_counted(env: StatusEnvelope<ContentRoot>, folder: GofileFolder)
    requires
        is_folder_read(env, Ok(folder)),
    ensures
        forall|f: GofileFile|
            #[trigger] folder.files@.to_multiset().count(f) == children_giving(
                env.data.unwrap().contents@,
                f,
            ),
        folder.files@.len() == file_children(env.data.unwrap().contents@),
{
    broadcast use vstd::seq_lib::group_to_multiset_ensures;

    let cs = env.data.unwrap().contents@;
    assert forall|f: GofileFile|
        #[trigger] folder.files@.to_multiset().count(f) == children_giving(cs, f) by {
        lemma_child_files_counts(cs, f);
    }
    lemma_child_files_counts(cs, arbitrary());
    assert(folder.files@.to_multiset().len() == child_files(cs).to_multiset().len());
}


// ── Numbers in messages ──────────────────────────────────────────────────────

/// The number that a string of decimal digits stands for.
pub open spec fn digits_value(s: Seq<char>) -> nat
    decreases s.len(),
{
    if s.len() == 0 {
        0
    } else {
        digits_value(s.drop_last()) * 10 + ((s.last() as int - '0' as int) as nat)
    }
}

/// Numbers in messages are written in base ten: only the digits `0` to `9`,
/// standing for the number itself, with no leading zero.
pub proof fn lemma_decimal_digits(n: nat)
    ensures
        decimal(n).len() > 0,
        forall|i: int| 0 <= i < decimal(n).len() ==> '0' <= #[trigger] decimal(n)[i] <= '9',
        digits_value(decimal(n)) == n,
        n > 0 ==> decimal(n)[0] != '0',
    decreases n,
{
    if n >= 10 {
        lemma_decimal_digits(n / 10);
        let d = decimal(n / 10);
        let c = crate::text::digit_char(n % 10);
        assert(decimal(n) == d.push(c));
        assert(d.push(c).drop_last() =~= d);
        assert forall|i: int| 0 <= i < decimal(n).len() implies '0' <= #[trigger] decimal(n)[i] <= '9' by {
            if i < d.len() {
                assert(decimal(n)[i] == d[i]);
            }
        }
        assert(decimal(n)[0] == d[0]);
        lemma_digit_char_value(n % 10);
        assert(decimal(n).last() == c);
        assert(digits_value(decimal(n)) == digits_value(d) * 10 + (n % 10));
        assert((n / 10) * 10 + n % 10 == n) by (nonlinear_arith);
    } else {
        lemma_digit_char_value(n);
        assert(decimal(n).drop_last() =~= Seq::<char>::empty());
        assert(decimal(n).last() == crate::text::digit_char(n));
        assert(digits_value(Seq::<char>::empty()) == 0);
        assert(digits_value(decimal(n)) == n);
    }
}

proof fn lemma_digit_char_value(d: nat)
    requires
        d < 10,
    ensures
        crate::text::digit_char(d) as int - '0' as int == d,
        d > 0 ==> crate::text::digit_char(d) != '0',
{
}


// ── Links for a requested file ───────────────────────────────────────────────

/// How many of `files` have the id `id`.
pub open spec fn id_count(files: Seq<GofileFile>, id: Seq<char>) -> nat
    decreases files.len(),
{
    if files.len() == 0 {
        0
    } else {
        id_count(files.drop_last(), id) + if files.last().id@ == id {
            1nat
        } else {
            0nat
        }
    }
}

proof fn lemma_files_with_id_complete(files: Seq<GofileFile>, id: Seq<char>)
    ensures
        files_with_id(files, id).len() == id_count(files, id),
        forall|k: int|
            0 <= k < files.len() && #[trigger] files[k].id@ == id ==> exists|j: int|
                0 <= j < files_with_id(files, id).len() && files_with_id(files, id)[j] == files[k],
    decreases files.len(),
{
    if files.len() > 0 {
        let init = files.drop_last();
        lemma_files_with_id_complete(init, id);
        let sel = files_with_id(files, id);
        let sub = files_with_id(init, id);
        assert forall|k: int|
            0 <= k < files.len() && #[trigger] files[k].id@ == id implies exists|j: int|
                0 <= j < sel.len() && sel[j] == files[k] by {
            if k == files.len() - 1 {
                assert(sel == sub.push(files.last()));
                assert(sel[sub.len() as int] == files[k]);
            } else {
                assert(init[k] == files[k]);
                let j = choose|j: int| 0 <= j < sub.len() && sub[j] == init[k];
                if files.last().id@ == id {
                    assert(sel == sub.push(files.last()));
                    assert(sel[j] == sub[j]);
                } else {
                    assert(sel == sub);
                }
            }
        }
    }
}

/// `extract_links` for a per-file URL lists every file of the folder with
/// that id, none left out: as many links as there are such files, and each
/// such file with its id, name and direct URL in one of them.
pub proof fn lemma_requested_links_complete(
    folder: GofileFolder,
    id: Seq<char>,
    resp: ExtractLinksResponse,
)
    requires
        is_extract_links_result(folder, Some(id), Ok(resp)),
    ensures
        resp.files@.len() == id_count(folder.files@, id),
        forall|k: int|
            0 <= k < folder.files@.len() && #[trigger] folder.files@[k].id@ == id ==> exists|i: int|
                0 <= i < resp.files@.len() && resp.files@[i].id@ == id && resp.files@[i].direct_url@
                    == folder.files@[k].direct_url@ && (resp.files@[i].filename matches Some(n)
                    && n@ == folder.files@[k].name@),
{
    let files = folder.files@;
    let sel = files_with_id(files, id);
    lemma_files_with_id_complete(files, id);
    assert forall|k: int|
        0 <= k < files.len() && #[trigger] files[k].id@ == id implies exists|i: int|
            0 <= i < resp.files@.len() && resp.files@[i].id@ == id && resp.files@[i].direct_url@
                == files[k].direct_url@ && (resp.files@[i].filename matches Some(n) && n@
                == files[k].name@) by {
        let j = choose|j: int| 0 <= j < sel.len() && sel[j] == files[k];
        assert(is_link_of(resp.files@[j], folder.id@, sel[j]));
    }
}

} // verus!
