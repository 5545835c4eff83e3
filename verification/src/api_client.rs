//! Gofile JSON API client logic.
//!
//! Two endpoints are used, in this order:
//! 1. `GET https://api.gofile.io/createAccount` returns a guest token.
//! 2. `GET https://api.gofile.io/getContent?contentId={id}&token={token}`
//!    returns folder metadata and the children of the folder; each child of
//!    type `"file"` carries a `link` with the direct CDN URL.
//!
//! The HTTP round trips go through the plugin host, and the JSON documents
//! are decoded into the plain envelope types below by the caller. This
//! module builds the requests, vets the responses and turns decoded
//! envelopes into results.

use std::collections::HashMap;

use vstd::prelude::*;
use vstd::utf8::encode_utf8;

use crate::encoding::{truncate, byte_len, truncated, utf8_len};
use crate::error::{string_result, ErrorModel, PluginError};
use crate::text::{
    concat2, contains_seq, contains_str, decimal, digit_char, lemma_lex_le_total, lemma_lex_le_trans,
    lex_le, lex_le_str, push_char, push_decimal, starts_with_seq, starts_with_str, str_eq,
};

verus! {

// ── HTTP envelope ────────────────────────────────────────────────────────────

/// A request for the host's `http_request` function.
#[derive(Debug)]
pub struct HttpRequest {
    pub method: String,
    pub url: String,
    /// Header names and values, in the order they were added.
    pub headers: Vec<(String, String)>,
    pub body: Option<String>,
}

/// The host's answer to an [`HttpRequest`].
#[derive(Debug)]
pub struct HttpResponse {
    pub status: u16,
    pub headers: HashMap<String, String>,
    pub body: String,
}

/// Responses larger than this many bytes are refused, so that a hostile
/// server cannot make every JSON parse a huge buffer.
pub const MAX_BODY_BYTES: usize = 1048576;

/// Bytes of an error body kept in an error message.
pub const ERROR_BODY_BYTES: usize = 256;

/// What [`HttpResponse::into_success_body`] gives for a status and a body.
pub open spec fn success_body(status: u16, body: Seq<char>) -> Result<Seq<char>, ErrorModel> {
    if 200 <= status && status < 300 {
        if utf8_len(body) > MAX_BODY_BYTES {
            Err(
                ErrorModel::HttpStatus(
                    status,
                    "body exceeds "@ + decimal(MAX_BODY_BYTES as nat) + " bytes"@,
                ),
            )
        } else {
            Ok(body)
        }
    } else if status == 404 || status == 410 {
        Err(ErrorModel::Offline("status "@ + decimal(status as nat)))
    } else {
        Err(ErrorModel::HttpStatus(status, truncated(body, ERROR_BODY_BYTES as nat)))
    }
}

impl HttpResponse {
    /// The body of a 2xx response of acceptable size; otherwise the error
    /// that the status calls for (404 and 410 mean the content is offline).
    pub fn into_success_body(self) -> (r: Result<String, PluginError>)
        requires
            utf8_len(self.body@) <= usize::MAX,
        ensures
            string_result(r) == success_body(self.status, self.body@),
    {
        if 200 <= self.status && self.status < 300 {
            if byte_len(self.body.as_str()) > MAX_BODY_BYTES {
                let mut message = "body exceeds ".to_owned();
                push_decimal(&mut message, MAX_BODY_BYTES as u64);
                message.append(" bytes");
                return Err(PluginError::HttpStatus { status: self.status, message });
            }
            Ok(self.body)
        } else if self.status == 404 || self.status == 410 {
            let mut message = "status ".to_owned();
            push_decimal(&mut message, self.status as u64);
            Err(PluginError::Offline(message))
        } else {
            Err(
                PluginError::HttpStatus {
                    status: self.status,
                    message: truncate(self.body.as_str(), ERROR_BODY_BYTES),
                },
            )
        }
    }
}

// ── Percent-encoding ─────────────────────────────────────────────────────────

/// Bytes that stand for themselves in a query value: `[A-Za-z0-9_-]`,
/// the characters Gofile's content ids and guest tokens are made of.
pub open spec fn is_unreserved_byte(b: u8) -> bool {
    (65 <= b && b <= 90) || (97 <= b && b <= 122) || (48 <= b && b <= 57) || b == 45 || b == 95
}

/// Upper-case hexadecimal digit for `d < 16`.
pub open spec fn hex_digit(d: nat) -> char {
    if d < 10 {
        digit_char(d)
    } else if d == 10 {
        'A'
    } else if d == 11 {
        'B'
    } else if d == 12 {
        'C'
    } else if d == 13 {
        'D'
    } else if d == 14 {
        'E'
    } else {
        'F'
    }
}

/// The encoding of one byte: itself, or `%` and two hex digits.
pub open spec fn encoded_byte(b: u8) -> Seq<char> {
    if is_unreserved_byte(b) {
        seq![b as char]
    } else {
        seq!['%', hex_digit((b / 16) as nat), hex_digit((b % 16) as nat)]
    }
}

/// The percent-encoding of a byte sequence.
pub open spec fn percent_encoded(bytes: Seq<u8>) -> Seq<char>
    decreases bytes.len(),
{
    if bytes.len() == 0 {
        Seq::empty()
    } else {
        percent_encoded(bytes.drop_last()) + encoded_byte(bytes.last())
    }
}

fn hex_char(d: u8) -> (c: char)
    requires
        d < 16,
    ensures
        c == hex_digit(d as nat),
{
    if d < 10 {
        if d == 0 { '0' }
        else if d == 1 { '1' }
        else if d == 2 { '2' }
        else if d == 3 { '3' }
        else if d == 4 { '4' }
        else if d == 5 { '5' }
        else if d == 6 { '6' }
        else if d == 7 { '7' }
        else if d == 8 { '8' }
        else { '9' }
    } else if d == 10 {
        'A'
    } else if d == 11 {
        'B'
    } else if d == 12 {
        'C'
    } else if d == 13 {
        'D'
    } else if d == 14 {
        'E'
    } else {
        'F'
    }
}

/// Percent-encodes every UTF-8 byte of `s` outside `[A-Za-z0-9_-]`, so
/// that a query value stays well-formed even if a token ever carries a `+`
/// or a `/`.
pub fn url_encode(s: &str) -> (r: String)
    ensures
        r@ == percent_encoded(encode_utf8(s@)),
{
    let bytes = s.as_bytes();
    let ghost bs = encode_utf8(s@);
    assert(bytes@ == bs);
    let mut out = String::new();
    let mut i: usize = 0;
    while i < bytes.len()
        invariant
            bytes@ == bs,
            i <= bs.len(),
            out@ == percent_encoded(bs.take(i as int)),
        decreases bytes.len() - i,
    {
        let b = bytes[i];
        assert(bs.take(i + 1).drop_last() =~= bs.take(i as int));
        if (65 <= b && b <= 90) || (97 <= b && b <= 122) || (48 <= b && b <= 57) || b == 45 || b
            == 95 {
            push_char(&mut out, b as char);
        } else {
            push_char(&mut out, '%');
            push_char(&mut out, hex_char(b / 16));
            push_char(&mut out, hex_char(b % 16));
        }
        i = i + 1;
        assert(out@ =~= percent_encoded(bs.take(i as int)));
    }
    assert(bs.take(i as int) =~= bs);
    out
}

// ── Request builders ─────────────────────────────────────────────────────────

/// `r` is a `GET` of `url` with the plugin's `User-Agent` and
/// `Accept: application/json`, and no body.
pub open spec fn is_get_request(r: HttpRequest, url: Seq<char>) -> bool {
    &&& r.method@ == "GET"@
    &&& r.url@ == url
    &&& r.headers@.len() == 2
    &&& r.headers@[0].0@ == "User-Agent"@
    &&& r.headers@[0].1@ == "Mozilla/5.0 (Vortex/1.0; +https://vortex-app.com) GofilePlugin/1.0"@
    &&& r.headers@[1].0@ == "Accept"@
    &&& r.headers@[1].1@ == "application/json"@
    &&& r.body is None
}

/// The `getContent` URL for a content id and a token.
pub open spec fn content_url(content_id: Seq<char>, token: Seq<char>) -> Seq<char> {
    "https://api.gofile.io"@ + "/getContent?contentId="@ + percent_encoded(encode_utf8(content_id))
        + "&token="@ + percent_encoded(encode_utf8(token))
}

fn get_request(url: String) -> (r: HttpRequest)
    ensures
        is_get_request(r, url@),
{
    let mut headers: Vec<(String, String)> = Vec::new();
    headers.push(
        (
            "User-Agent".to_owned(),
            "Mozilla/5.0 (Vortex/1.0; +https://vortex-app.com) GofilePlugin/1.0".to_owned(),
        ),
    );
    headers.push(("Accept".to_owned(), "application/json".to_owned()));
    HttpRequest { method: "GET".to_owned(), url, headers, body: None }
}

/// The `createAccount` URL.
pub open spec fn create_account_url() -> Seq<char> {
    "https://api.gofile.io"@ + "/createAccount"@
}

/// The request that mints a guest token: `GET {API}/createAccount`.
pub fn build_create_account_request() -> (r: HttpRequest)
    ensures
        is_get_request(r, create_account_url()),
{
    get_request(concat2("https://api.gofile.io", "/createAccount"))
}

/// The request that reads a folder:
/// `GET {API}/getContent?contentId={id}&token={token}`, both values
/// percent-encoded.
pub fn build_content_request(content_id: &str, token: &str) -> (r: HttpRequest)
    ensures
        is_get_request(r, content_url(content_id@, token@)),
{
    let mut url = concat2("https://api.gofile.io", "/getContent?contentId=");
    let id = url_encode(content_id);
    url.append(id.as_str());
    url.append("&token=");
    let tok = url_encode(token);
    url.append(tok.as_str());
    get_request(url)
}

// ── Decoded documents ────────────────────────────────────────────────────────

/// The status envelope that wraps every Gofile API answer.
#[derive(Debug)]
pub struct StatusEnvelope<T> {
    pub status: Option<String>,
    pub data: Option<T>,
}

/// `data` of a `createAccount` answer.
#[derive(Debug)]
pub struct AccountData {
    pub token: Option<String>,
}

/// `data` of a `getContent` answer: the folder and its children.
#[derive(Debug)]
pub struct ContentRoot {
    pub id: Option<String>,
    pub name: Option<String>,
    /// The `type` field.
    pub kind: Option<String>,
    /// The values of the `contents` object, in the order they were read.
    pub contents: Vec<ContentChild>,
}

/// One child of a folder in a `getContent` answer.
#[derive(Debug)]
pub struct ContentChild {
    pub id: Option<String>,
    pub name: Option<String>,
    /// The `type` field.
    pub kind: Option<String>,
    pub size: Option<u64>,
    pub link: Option<String>,
    pub mimetype: Option<String>,
}

/// A single resolved file inside a Gofile folder.
#[derive(Debug, Clone, PartialEq, Eq)]
pub struct GofileFile {
    pub id: String,
    pub name: String,
    pub size: u64,
    pub direct_url: String,
    pub mimetype: Option<String>,
}

/// A resolved folder: its metadata and its direct file children.
#[derive(Debug, Clone, PartialEq, Eq)]
pub struct GofileFolder {
    pub id: String,
    pub name: Option<String>,
    pub files: Vec<GofileFile>,
}

pub open spec fn opt_view(o: Option<String>) -> Option<Seq<char>> {
    match o {
        Some(s) => Some(s@),
        None => None,
    }
}

// ── Status classification ────────────────────────────────────────────────────

/// Statuses that mean the content cannot be had: `error-notFound`,
/// `error-not-found` and `error-passwordRequired`, and any status outside
/// the `error-` family that mentions `notFound`.
pub open spec fn is_not_found_status(s: Seq<char>) -> bool {
    ||| s == "error-notFound"@
    ||| s == "error-not-found"@
    ||| s == "error-passwordRequired"@
    ||| !starts_with_seq(s, "error-"@) && contains_seq(s, "notFound"@)
}

/// The error that a status string calls for; `None` for `"ok"`.
pub open spec fn status_error(status: Option<Seq<char>>) -> Option<ErrorModel> {
    match status {
        Some(s) => if s == "ok"@ {
            None
        } else if is_not_found_status(s) {
            Some(ErrorModel::Offline(s))
        } else if starts_with_seq(s, "error-"@) {
            Some(ErrorModel::ApiError(s))
        } else {
            Some(ErrorModel::ApiError("unexpected status '"@ + s + "'"@))
        },
        None => Some(ErrorModel::ApiError("response missing status field"@)),
    }
}

fn is_not_found(status: &str) -> (r: bool)
    ensures
        r == is_not_found_status(status@),
{
    str_eq(status, "error-notFound") || str_eq(status, "error-not-found") || str_eq(
        status,
        "error-passwordRequired",
    ) || (!starts_with_str(status, "error-") && contains_str(status, "notFound"))
}

/// Maps Gofile's status string onto the plugin's errors:
/// - `"ok"` passes;
/// - `"error-notFound"`, `"error-not-found"` and `"error-passwordRequired"`
///   are `Offline`, so the host shows the link as offline instead of
///   retrying;
/// - any other `"error-..."` is `ApiError`;
/// - a missing status, or one of another form, is `ApiError`.
fn classify_status(status: &Option<String>) -> (r: Result<(), PluginError>)
    ensures
        match r {
            Ok(_) => status_error(opt_view(*status)) is None,
            Err(e) => status_error(opt_view(*status)) == Some(e@),
        },
{
    match status {
        Some(s) => {
            if str_eq(s.as_str(), "ok") {
                Ok(())
            } else if is_not_found(s.as_str()) {
                Err(PluginError::Offline(s.clone()))
            } else if starts_with_str(s.as_str(), "error-") {
                Err(PluginError::ApiError(s.clone()))
            } else {
                let mut m = "unexpected status '".to_owned();
                m.append(s.as_str());
                m.append("'");
                Err(PluginError::ApiError(m))
            }
        },
        None => Err(PluginError::ApiError("response missing status field".to_owned())),
    }
}

// ── Account creation ─────────────────────────────────────────────────────────

/// The guest token of a decoded `createAccount` answer, or its error.
pub open spec fn account_token(env: StatusEnvelope<AccountData>) -> Result<Seq<char>, ErrorModel> {
    match status_error(opt_view(env.status)) {
        Some(e) => Err(e),
        None => match env.data {
            None => Err(ErrorModel::ApiError("createAccount: missing data field"@)),
            Some(d) => {
                let t = match d.token {
                    Some(t) => t@,
                    None => Seq::<char>::empty(),
                };
                if t.len() == 0 {
                    Err(ErrorModel::ApiError("createAccount: empty or missing token"@))
                } else {
                    Ok(t)
                }
            },
        },
    }
}

/// Reads the guest token out of a decoded `createAccount` answer.
pub fn read_account_token(env: StatusEnvelope<AccountData>) -> (r: Result<String, PluginError>)
    ensures
        string_result(r) == account_token(env),
{
    if let Err(e) = classify_status(&env.status) {
        return Err(e);
    }
    let data = match env.data {
        Some(d) => d,
        None => {
            return Err(PluginError::ApiError("createAccount: missing data field".to_owned()));
        },
    };
    let token = match data.token {
        Some(t) => t,
        None => String::new(),
    };
    if token.as_str().is_empty() {
        return Err(PluginError::ApiError("createAccount: empty or missing token".to_owned()));
    }
    Ok(token)
}

// ── Content (folder) lookup ──────────────────────────────────────────────────

/// The file a child stands for: children of type `"file"` with an id, a
/// name and a non-empty link. A missing size counts as 0.
pub open spec fn child_file(c: ContentChild) -> Option<GofileFile> {
    match (c.kind, c.id, c.name, c.link) {
        (Some(k), Some(id), Some(name), Some(link)) => if k@ == "file"@ && link@.len() > 0 {
            Some(
                GofileFile {
                    id,
                    name,
                    size: match c.size {
                        Some(n) => n,
                        None => 0,
                    },
                    direct_url: link,
                    mimetype: c.mimetype,
                },
            )
        } else {
            None
        },
        _ => None,
    }
}

/// The files among `children`, in their order.
pub open spec fn child_files(children: Seq<ContentChild>) -> Seq<GofileFile> {
    children.filter_map(|c: ContentChild| child_file(c))
}

/// `files` are in ascending order of id.
pub open spec fn sorted_by_id(files: Seq<GofileFile>) -> bool {
    forall|i: int, j: int| 0 <= i < j < files.len() ==> lex_le(files[i].id@, files[j].id@)
}

fn clone_opt(o: &Option<String>) -> (r: Option<String>)
    ensures
        r == *o,
{
    match o {
        Some(s) => Some(s.clone()),
        None => None,
    }
}

fn file_of_child(c: &ContentChild) -> (r: Option<GofileFile>)
    ensures
        r == child_file(*c),
{
    match (&c.kind, &c.id, &c.name, &c.link) {
        (Some(k), Some(id), Some(name), Some(link)) => {
            if str_eq(k.as_str(), "file") && !link.as_str().is_empty() {
                Some(
                    GofileFile {
                        id: id.clone(),
                        name: name.clone(),
                        size: match c.size {
                            Some(n) => n,
                            None => 0,
                        },
                        direct_url: link.clone(),
                        mimetype: clone_opt(&c.mimetype),
                    },
                )
            } else {
                None
            }
        },
        _ => None,
    }
}

/// The direct file children, in the order given; sub-folders and files
/// without a usable link are left out.
fn collect_files(contents: &Vec<ContentChild>) -> (r: Vec<GofileFile>)
    ensures
        r@ == child_files(contents@),
{
    let mut out: Vec<GofileFile> = Vec::new();
    let mut i: usize = 0;
    while i < contents.len()
        invariant
            i <= contents.len(),
            out@ == child_files(contents@.take(i as int)),
        decreases contents.len() - i,
    {
        assert(contents@.take(i + 1).drop_last() =~= contents@.take(i as int));
        assert(contents@.take(i + 1).last() == contents@[i as int]);
        match file_of_child(&contents[i]) {
            Some(f) => out.push(f),
            None => {},
        }
        i = i + 1;
    }
    assert(contents@.take(i as int) =~= contents@);
    out
}

/// Sorts files by id.
fn sort_files_by_id(files: Vec<GofileFile>) -> (r: Vec<GofileFile>)
    ensures
        sorted_by_id(r@),
        r@.to_multiset() == files@.to_multiset(),
{
    broadcast use vstd::seq_lib::group_to_multiset_ensures, vstd::multiset::group_multiset_axioms;

    let mut rest = files;
    let mut out: Vec<GofileFile> = Vec::new();
    while rest.len() > 0
        invariant
            sorted_by_id(out@),
            out@.to_multiset().add(rest@.to_multiset()) == files@.to_multiset(),
        decreases rest.len(),
    {
        let ghost before = rest@;
        let f = rest.pop().unwrap();
        assert(before == rest@.push(f));
        let mut j: usize = 0;
        while j < out.len() && !lex_le_str(f.id.as_str(), out[j].id.as_str())
            invariant
                j <= out.len(),
                sorted_by_id(out@),
                forall|k: int| 0 <= k < j ==> !lex_le(f.id@, #[trigger] out@[k].id@),
            decreases out.len() - j,
        {
            j = j + 1;
        }
        let ghost old_out = out@;
        proof {
            assert forall|k: int| 0 <= k < j implies lex_le(#[trigger] old_out[k].id@, f.id@) by {
                lemma_lex_le_total(f.id@, old_out[k].id@);
            }
            assert forall|k: int| j <= k < old_out.len() implies lex_le(f.id@, #[trigger] old_out[k].id@) by {
                if k > j {
                    lemma_lex_le_trans(f.id@, old_out[j as int].id@, old_out[k].id@);
                }
            }
        }
        let ghost fv = f;
        out.insert(j, f);
        proof {
            assert(out@ == old_out.insert(j as int, fv));
            vstd::seq_lib::to_multiset_build(rest@, fv);
            vstd::seq_lib::to_multiset_insert(old_out, j as int, fv);
            assert(before.to_multiset() =~= rest@.to_multiset().insert(fv));
            assert(out@.to_multiset() =~= old_out.to_multiset().insert(fv));
            assert(out@.to_multiset().add(rest@.to_multiset()) =~= old_out.to_multiset().add(
                before.to_multiset(),
            ));
            assert forall|a: int, b: int| 0 <= a < b < out@.len() implies lex_le(
                out@[a].id@,
                out@[b].id@,
            ) by {
                if b < j {
                } else if a < j && b == j {
                } else if a < j && b > j {
                    lemma_lex_le_trans(out@[a].id@, f.id@, out@[b].id@);
                } else if a == j {
                } else {
                }
            }
        }
    }
    out
}

/// Why a decoded `getContent` answer is refused, if it is.
pub open spec fn folder_error(env: StatusEnvelope<ContentRoot>) -> Option<ErrorModel> {
    match status_error(opt_view(env.status)) {
        Some(e) => Some(e),
        None => match env.data {
            None => Some(ErrorModel::ApiError("getContent: missing data field"@)),
            Some(root) => match root.id {
                None => Some(ErrorModel::ApiError("getContent: missing id"@)),
                Some(_) => match root.kind {
                    Some(k) => if k@ != "folder"@ {
                        Some(ErrorModel::ApiError("getContent: expected folder, got '"@ + k@ + "'"@))
                    } else {
                        None
                    },
                    None => None,
                },
            },
        },
    }
}

/// `r` is what a decoded `getContent` answer reads as: its error, or its
/// folder with the file children sorted by id.
pub open spec fn is_folder_read(
    env: StatusEnvelope<ContentRoot>,
    r: Result<GofileFolder, PluginError>,
) -> bool {
    match r {
        Err(e) => folder_error(env) == Some(e@),
        Ok(folder) => {
            &&& folder_error(env) is None
            &&& Some(folder.id) == env.data.unwrap().id
            &&& folder.name == env.data.unwrap().name
            &&& sorted_by_id(folder.files@)
            &&& folder.files@.to_multiset() == child_files(env.data.unwrap().contents@).to_multiset()
        },
    }
}

/// Reads a decoded `getContent` answer into a [`GofileFolder`].
///
/// Only direct file children of the folder are kept, sorted by id so that
/// the result does not depend on the order in which the children were read.
/// Nested sub-folders are left out.
pub fn read_folder_content(env: StatusEnvelope<ContentRoot>) -> (r: Result<GofileFolder, PluginError>)
    ensures
        is_folder_read(env, r),
{
    if let Err(e) = classify_status(&env.status) {
        return Err(e);
    }
    let root = match env.data {
        Some(root) => root,
        None => {
            return Err(PluginError::ApiError("getContent: missing data field".to_owned()));
        },
    };
    let folder_id = match root.id {
        Some(id) => id,
        None => {
            return Err(PluginError::ApiError("getContent: missing id".to_owned()));
        },
    };
    if let Some(kind) = &root.kind {
        if !str_eq(kind.as_str(), "folder") {
            let mut m = "getContent: expected folder, got '".to_owned();
            m.append(kind.as_str());
            m.append("'");
            return Err(PluginError::ApiError(m));
        }
    }
    let files = sort_files_by_id(collect_files(&root.contents));
    Ok(GofileFolder { id: folder_id, name: root.name, files })
}

} // verus!
