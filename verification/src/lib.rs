//! Gofile share-link resolution for the Vortex plugin host.
//!
//! The host asks four questions of the plugin:
//! - `can_handle(url)`: `"true"` / `"false"`;
//! - `supports_playlist(url)`: `"true"` for folder share URLs;
//! - `extract_links(url)`: metadata for every file of the folder;
//! - `resolve_stream_url(input)`: the direct CDN URL of a single file.
//!
//! Resolution takes two HTTP round trips through the host: `createAccount`
//! for a guest token, then `getContent` for the folder. This crate holds the
//! logic of every step: URL recognition ([`url_matcher`]), request building
//! and answer vetting ([`api_client`]), and the responses built here.

pub mod api_client;
pub mod encoding;
pub mod error;
pub mod host_laws;
pub mod laws;
pub mod query_laws;
pub mod reply_laws;
pub mod text;
pub mod url_matcher;

use vstd::prelude::*;

use crate::api_client::{
    account_token, build_content_request, build_create_account_request, content_url,
    create_account_url, is_folder_read, is_get_request, opt_view, read_account_token,
    read_folder_content, AccountData, ContentRoot, GofileFile, GofileFolder, HttpRequest,
    StatusEnvelope,
};
use crate::error::{string_result, ErrorModel, PluginError};
use crate::text::{decimal, push_decimal, str_eq};
use crate::url_matcher::{
    extract_ids, share_url_prefix, synthesise_file_url, url_ids, url_kind, UrlKind,
};

verus! {

// ── Host-facing DTOs ─────────────────────────────────────────────────────────

/// The answer to `extract_links`.
#[derive(Debug, PartialEq, Eq)]
pub struct ExtractLinksResponse {
    /// `"file"` when there is one link, `"folder"` otherwise.
    pub kind: &'static str,
    pub folder_id: Option<String>,
    pub folder_name: Option<String>,
    pub files: Vec<FileLink>,
}

/// One file of an `extract_links` answer.
#[derive(Debug, PartialEq, Eq)]
pub struct FileLink {
    pub id: String,
    /// The per-file URL `https://gofile.io/d/<folder>/<file>`.
    pub url: String,
    pub filename: Option<String>,
    pub size_bytes: Option<u64>,
    pub mime_type: Option<String>,
    pub direct_url: String,
    pub resumable: bool,
}

// ── Routing helpers ──────────────────────────────────────────────────────────

/// `"true"` or `"false"`.
pub open spec fn bool_text(b: bool) -> Seq<char> {
    if b {
        "true"@
    } else {
        "false"@
    }
}

fn bool_to_string(b: bool) -> (s: String)
    ensures
        s@ == bool_text(b),
{
    if b {
        "true".to_owned()
    } else {
        "false".to_owned()
    }
}

/// `"true"` for folder and per-file Gofile URLs, `"false"` otherwise.
pub fn handle_can_handle(url: &str) -> (s: String)
    ensures
        s@ == bool_text(url_kind(url@) != UrlKind::Unknown),
{
    let kind = url_matcher::classify_url(url);
    bool_to_string(kind == UrlKind::Folder || kind == UrlKind::File)
}

/// Folder share URLs may yield many links from `extract_links`, so they are
/// flagged as playlists; per-file URLs always give one file: `"false"`.
pub fn handle_supports_playlist(url: &str) -> (s: String)
    ensures
        s@ == bool_text(url_kind(url@) == UrlKind::Folder),
{
    bool_to_string(url_matcher::classify_url(url) == UrlKind::Folder)
}

/// The kind of a recognised URL, or `UnsupportedUrl`.
pub fn ensure_known_url(url: &str) -> (r: Result<UrlKind, PluginError>)
    ensures
        match r {
            Ok(k) => k == url_kind(url@) && k != UrlKind::Unknown,
            Err(e) => url_kind(url@) == UrlKind::Unknown && e@ == ErrorModel::UnsupportedUrl(url@),
        },
{
    match url_matcher::classify_url(url) {
        UrlKind::Folder => Ok(UrlKind::Folder),
        UrlKind::File => Ok(UrlKind::File),
        UrlKind::Unknown => Err(PluginError::UnsupportedUrl(url.to_owned())),
    }
}

// ── Response builders ────────────────────────────────────────────────────────

/// `l` is the link of file `f` in the folder `folder_id`.
pub open spec fn is_link_of(l: FileLink, folder_id: Seq<char>, f: GofileFile) -> bool {
    &&& l.id@ == f.id@
    &&& l.url@ == share_url_prefix() + folder_id + seq!['/'] + f.id@
    &&& opt_view(l.filename) == Some(f.name@)
    &&& l.size_bytes == Some(f.size)
    &&& opt_view(l.mime_type) == opt_view(f.mimetype)
    &&& l.direct_url@ == f.direct_url@
    &&& l.resumable
}

/// The files whose id is `id`, in order.
pub open spec fn files_with_id(files: Seq<GofileFile>, id: Seq<char>) -> Seq<GofileFile>
    decreases files.len(),
{
    if files.len() == 0 {
        files
    } else if files.last().id@ == id {
        files_with_id(files.drop_last(), id).push(files.last())
    } else {
        files_with_id(files.drop_last(), id)
    }
}

/// The files an `extract_links` answer lists: all of them, or those with
/// the requested id.
pub open spec fn selected_files(files: Seq<GofileFile>, requested: Option<Seq<char>>) -> Seq<
    GofileFile,
> {
    match requested {
        Some(id) => files_with_id(files, id),
        None => files,
    }
}

/// `r` is the `extract_links` answer for `folder` and the requested file.
pub open spec fn is_extract_links_result(
    folder: GofileFolder,
    requested: Option<Seq<char>>,
    r: Result<ExtractLinksResponse, PluginError>,
) -> bool {
    let sel = selected_files(folder.files@, requested);
    match r {
        Err(e) => sel.len() == 0 && e@ == match requested {
            Some(id) => ErrorModel::FileNotInFolder(id),
            None => ErrorModel::EmptyFolder,
        },
        Ok(resp) => {
            &&& sel.len() > 0
            &&& resp.files@.len() == sel.len()
            &&& forall|i: int|
                0 <= i < sel.len() ==> is_link_of(#[trigger] resp.files@[i], folder.id@, sel[i])
            &&& resp.kind@ == if sel.len() == 1 {
                "file"@
            } else {
                "folder"@
            }
            &&& opt_view(resp.folder_id) == Some(folder.id@)
            &&& opt_view(resp.folder_name) == opt_view(folder.name)
        },
    }
}

fn clone_opt(o: &Option<String>) -> (r: Option<String>)
    ensures
        r == *o,
{
    match o {
        Some(s) => Some(s.clone()),
        None => None,
    }
}

fn build_file_link(folder_id: &str, file: &GofileFile) -> (l: FileLink)
    ensures
        is_link_of(l, folder_id@, *file),
{
    FileLink {
        url: synthesise_file_url(folder_id, file.id.as_str()),
        id: file.id.clone(),
        filename: Some(file.name.clone()),
        size_bytes: Some(file.size),
        mime_type: clone_opt(&file.mimetype),
        direct_url: file.direct_url.clone(),
        resumable: true,
    }
}

/// Builds the `extract_links` answer for a resolved folder.
///
/// `requested_file_id` is `Some` only when the input URL was the per-file
/// shape; the answer then lists only that file, so the host does not
/// process its siblings again.
pub fn build_extract_links_response(folder: GofileFolder, requested_file_id: Option<&str>) -> (r:
    Result<ExtractLinksResponse, PluginError>)
    ensures
        is_extract_links_result(
            folder,
            match requested_file_id {
                Some(t) => Some(t@),
                None => None,
            },
            r,
        ),
{
    let ghost requested = match requested_file_id {
        Some(t) => Some(t@),
        None => None::<Seq<char>>,
    };
    let ghost all = folder.files@;
    let mut files: Vec<FileLink> = Vec::new();
    let mut i: usize = 0;
    while i < folder.files.len()
        invariant
            i <= folder.files.len(),
            all == folder.files@,
            requested == match requested_file_id {
                Some(t) => Some(t@),
                None => None::<Seq<char>>,
            },
            files@.len() == selected_files(all.take(i as int), requested).len(),
            forall|k: int|
                0 <= k < files@.len() ==> is_link_of(
                    #[trigger] files@[k],
                    folder.id@,
                    selected_files(all.take(i as int), requested)[k],
                ),
        decreases folder.files.len() - i,
    {
        let f = &folder.files[i];
        assert(all.take(i + 1).drop_last() =~= all.take(i as int));
        assert(all.take(i + 1).last() == all[i as int]);
        let keep = match requested_file_id {
            Some(t) => str_eq(f.id.as_str(), t),
            None => true,
        };
        if keep {
            files.push(build_file_link(folder.id.as_str(), f));
        }
        i = i + 1;
    }
    assert(all.take(i as int) =~= all);
    if files.len() == 0 {
        return match requested_file_id {
            Some(t) => Err(PluginError::FileNotInFolder(t.to_owned())),
            None => Err(PluginError::EmptyFolder),
        };
    }
    let kind = if files.len() == 1 {
        "file"
    } else {
        "folder"
    };
    Ok(
        ExtractLinksResponse {
            kind,
            folder_id: Some(folder.id),
            folder_name: folder.name,
            files,
        },
    )
}

/// `i` is the first file whose id is `id`.
pub open spec fn is_first_with_id(files: Seq<GofileFile>, id: Seq<char>, i: int) -> bool {
    &&& 0 <= i < files.len()
    &&& files[i].id@ == id
    &&& forall|j: int| 0 <= j < i ==> files[j].id@ != id
}

/// The direct URL of the first file whose id is `id`, or `FileNotInFolder`.
pub open spec fn picked_direct_url(files: Seq<GofileFile>, id: Seq<char>) -> Result<
    Seq<char>,
    ErrorModel,
> {
    if exists|i: int| is_first_with_id(files, id, i) {
        Ok(files[choose|i: int| is_first_with_id(files, id, i)].direct_url@)
    } else {
        Err(ErrorModel::FileNotInFolder(id))
    }
}

/// Picks the direct CDN URL of a file of an already resolved folder.
/// `FileNotInFolder` if the id is gone (for instance, removed by its
/// uploader since the links were listed).
pub fn pick_direct_url(folder: &GofileFolder, file_id: &str) -> (r: Result<String, PluginError>)
    ensures
        string_result(r) == picked_direct_url(folder.files@, file_id@),
{
    let ghost files = folder.files@;
    let mut i: usize = 0;
    while i < folder.files.len()
        invariant
            i <= folder.files.len(),
            files == folder.files@,
            forall|j: int| 0 <= j < i ==> files[j].id@ != file_id@,
        decreases folder.files.len() - i,
    {
        if str_eq(folder.files[i].id.as_str(), file_id) {
            proof {
                assert(is_first_with_id(files, file_id@, i as int));
                let k = choose|k: int| is_first_with_id(files, file_id@, k);
                assert(is_first_with_id(files, file_id@, k));
                if k < i {
                    assert(files[k].id@ != file_id@);
                }
                if i < k {
                    assert(files[i as int].id@ != file_id@);
                }
            }
            return Ok(folder.files[i].direct_url.clone());
        }
        i = i + 1;
    }
    Err(PluginError::FileNotInFolder(file_id.to_owned()))
}

/// The one direct URL of a folder URL: only a folder with exactly one file
/// has one.
pub open spec fn single_file_url(files: Seq<GofileFile>) -> Result<Seq<char>, ErrorModel> {
    if files.len() == 0 {
        Err(ErrorModel::EmptyFolder)
    } else if files.len() == 1 {
        Ok(files[0].direct_url@)
    } else {
        Err(
            ErrorModel::ApiError(
                "folder has "@ + decimal(files.len()) + " files; resolve_stream_url needs the per-file URL shape (https://gofile.io/d/<folder>/<file>) to disambiguate"@,
            ),
        )
    }
}

/// When the input URL is a folder URL, picks its single CDN URL; for
/// folders with several files the host must use the per-file URLs of
/// `extract_links`.
pub fn pick_single_file_url(folder: &GofileFolder) -> (r: Result<String, PluginError>)
    ensures
        string_result(r) == single_file_url(folder.files@),
{
    let n = folder.files.len();
    if n == 0 {
        Err(PluginError::EmptyFolder)
    } else if n == 1 {
        Ok(folder.files[0].direct_url.clone())
    } else {
        let mut m = "folder has ".to_owned();
        push_decimal(&mut m, n as u64);
        m.append(
            " files; resolve_stream_url needs the per-file URL shape (https://gofile.io/d/<folder>/<file>) to disambiguate",
        );
        Err(PluginError::ApiError(m))
    }
}

// ── Resolution flow ──────────────────────────────────────────────────────────

/// What a recognised URL asks for: its kind and ids.
#[derive(Debug)]
pub struct LookupPlan {
    pub url: String,
    pub kind: UrlKind,
    pub folder_id: String,
    pub file_id: Option<String>,
}

/// The first step of `extract_links` and `resolve_stream_url`: recognise
/// the URL and take its ids apart; `UnsupportedUrl` for anything else.
pub fn plan_lookup(url: &str) -> (r: Result<LookupPlan, PluginError>)
    ensures
        match r {
            Ok(p) => {
                &&& p.url@ == url@
                &&& p.kind == url_kind(url@)
                &&& p.kind != UrlKind::Unknown
                &&& url_ids(url@) == Some((p.folder_id@, opt_view(p.file_id)))
            },
            Err(e) => url_kind(url@) == UrlKind::Unknown && e@ == ErrorModel::UnsupportedUrl(url@),
        },
{
    let kind = ensure_known_url(url)?;
    match extract_ids(url) {
        Some((folder_id, file_id)) => {
            Ok(LookupPlan { url: url.to_owned(), kind, folder_id, file_id })
        },
        None => Err(PluginError::UnsupportedUrl(url.to_owned())),
    }
}

/// The file an `extract_links` call asks for: the file of a per-file URL.
pub open spec fn requested_file(plan: LookupPlan) -> Option<Seq<char>> {
    if plan.kind == UrlKind::File {
        opt_view(plan.file_id)
    } else {
        None
    }
}

/// The last step of `extract_links`, once the folder is resolved.
pub fn finish_extract_links(plan: &LookupPlan, folder: GofileFolder) -> (r: Result<
    ExtractLinksResponse,
    PluginError,
>)
    ensures
        is_extract_links_result(folder, requested_file(*plan), r),
{
    let target = if plan.kind == UrlKind::File {
        match &plan.file_id {
            Some(id) => Some(id.as_str()),
            None => None,
        }
    } else {
        None
    };
    build_extract_links_response(folder, target)
}

/// What `resolve_stream_url` answers for a plan and its resolved folder.
pub open spec fn resolved_url(plan: LookupPlan, files: Seq<GofileFile>) -> Result<
    Seq<char>,
    ErrorModel,
> {
    match (plan.kind, plan.file_id) {
        (UrlKind::File, Some(id)) => picked_direct_url(files, id@),
        (UrlKind::Folder, _) => single_file_url(files),
        _ => Err(ErrorModel::UnsupportedUrl(plan.url@)),
    }
}

/// The last step of `resolve_stream_url`, once the folder is resolved: the
/// named file of a per-file URL, or the only file of a folder URL.
pub fn finish_resolve_stream_url(plan: &LookupPlan, folder: &GofileFolder) -> (r: Result<
    String,
    PluginError,
>)
    ensures
        string_result(r) == resolved_url(*plan, folder.files@),
{
    match (plan.kind, &plan.file_id) {
        (UrlKind::File, Some(id)) => pick_direct_url(folder, id.as_str()),
        (UrlKind::Folder, _) => pick_single_file_url(folder),
        _ => Err(PluginError::UnsupportedUrl(plan.url.clone())),
    }
}

// ── Folder lookup protocol ───────────────────────────────────────────────────

/// Where a folder lookup stands.
#[derive(Debug, Clone, Copy, PartialEq, Eq, Structural)]
pub enum FetchStage {
    /// `createAccount` was sent; its answer is awaited.
    AwaitingToken,
    /// `getContent` was sent; its answer is awaited.
    AwaitingContent,
    /// The lookup is over.
    Done,
}

/// A folder lookup in progress: two requests through the host, first
/// `createAccount` for a guest token, then `getContent` for the folder.
#[derive(Debug)]
pub struct FolderFetch {
    pub folder_id: String,
    pub stage: FetchStage,
}

/// The host's answer to the pending request, decoded as the stage expects,
/// or the failure met while getting or decoding it.
#[derive(Debug)]
pub enum FetchReply {
    Account(StatusEnvelope<AccountData>),
    Content(StatusEnvelope<ContentRoot>),
    Failure(PluginError),
}

/// What to do next.
#[derive(Debug)]
pub enum FetchAction {
    /// Send this request through the host and report its answer.
    Send(HttpRequest),
    /// The folder is resolved.
    Finish(GofileFolder),
    /// The lookup failed.
    Fail(PluginError),
}

/// `reply` answers the request that `stage` awaits.
pub open spec fn reply_fits(stage: FetchStage, reply: FetchReply) -> bool {
    match reply {
        FetchReply::Account(_) => stage == FetchStage::AwaitingToken,
        FetchReply::Content(_) => stage == FetchStage::AwaitingContent,
        FetchReply::Failure(_) => stage != FetchStage::Done,
    }
}

/// A lookup of `folder_id` starts by asking for a guest token.
pub open spec fn is_fetch_start(folder_id: Seq<char>, fetch: FolderFetch, action: FetchAction) -> bool {
    &&& fetch.folder_id@ == folder_id
    &&& fetch.stage == FetchStage::AwaitingToken
    &&& action matches FetchAction::Send(req) && is_get_request(req, create_account_url())
}

/// One step of a lookup: from `fetch` and the answer `reply` to `next` and
/// `action`.
pub open spec fn is_fetch_step(
    fetch: FolderFetch,
    reply: FetchReply,
    next: FolderFetch,
    action: FetchAction,
) -> bool {
    &&& next.folder_id@ == fetch.folder_id@
    &&& match reply {
        FetchReply::Failure(e) => next.stage == FetchStage::Done && action == FetchAction::Fail(e),
        FetchReply::Account(env) => match account_token(env) {
            Ok(token) => {
                &&& next.stage == FetchStage::AwaitingContent
                &&& action matches FetchAction::Send(req) && is_get_request(
                    req,
                    content_url(fetch.folder_id@, token),
                )
            },
            Err(m) => {
                &&& next.stage == FetchStage::Done
                &&& action matches FetchAction::Fail(e) && e@ == m
            },
        },
        FetchReply::Content(env) => {
            &&& next.stage == FetchStage::Done
            &&& match action {
                FetchAction::Finish(folder) => is_folder_read(env, Ok(folder)),
                FetchAction::Fail(e) => is_folder_read(env, Err(e)),
                FetchAction::Send(_) => false,
            }
        },
    }
}

/// Starts the lookup of a folder: the first request is `createAccount`.
pub fn start_folder_fetch(folder_id: String) -> (r: (FolderFetch, FetchAction))
    ensures
        is_fetch_start(folder_id@, r.0, r.1),
{
    (
        FolderFetch { folder_id, stage: FetchStage::AwaitingToken },
        FetchAction::Send(build_create_account_request()),
    )
}

/// Advances a lookup with the answer to its pending request: a guest token
/// leads to `getContent` for the folder with that token; the folder's
/// answer ends the lookup with the folder or its error; any failure ends it.
pub fn folder_fetch_step(fetch: FolderFetch, reply: FetchReply) -> (r: (FolderFetch, FetchAction))
    requires
        reply_fits(fetch.stage, reply),
    ensures
        is_fetch_step(fetch, reply, r.0, r.1),
{
    let folder_id = fetch.folder_id;
    match reply {
        FetchReply::Failure(e) => (
            FolderFetch { folder_id, stage: FetchStage::Done },
            FetchAction::Fail(e),
        ),
        FetchReply::Account(env) => match read_account_token(env) {
            Ok(token) => {
                let req = build_content_request(folder_id.as_str(), token.as_str());
                (FolderFetch { folder_id, stage: FetchStage::AwaitingContent }, FetchAction::Send(req))
            },
            Err(e) => (FolderFetch { folder_id, stage: FetchStage::Done }, FetchAction::Fail(e)),
        },
        FetchReply::Content(env) => {
            let action = match read_folder_content(env) {
                Ok(folder) => FetchAction::Finish(folder),
                Err(e) => FetchAction::Fail(e),
            };
            (FolderFetch { folder_id, stage: FetchStage::Done }, action)
        },
    }
}

} // verus!
