use std::collections::HashMap;

use vortex_mod_gofile::api_client::{
    build_content_request, build_create_account_request, read_account_token,
    read_folder_content, url_encode, AccountData, ContentChild, ContentRoot, HttpRequest,
    HttpResponse, StatusEnvelope, MAX_BODY_BYTES,
};
use vortex_mod_gofile::build_extract_links_response;
use vortex_mod_gofile::encoding::truncate;
use vortex_mod_gofile::error::PluginError;

fn header<'a>(req: &'a HttpRequest, name: &str) -> Option<&'a str> {
    req.headers
        .iter()
        .find(|(k, _)| k == name)
        .map(|(_, v)| v.as_str())
}

fn status(s: &str) -> Option<String> {
    Some(s.to_string())
}

fn account(status: Option<String>, data: Option<AccountData>) -> StatusEnvelope<AccountData> {
    StatusEnvelope { status, data }
}

fn child(id: &str, name: &str, kind: &str, size: Option<u64>, link: Option<&str>, mime: Option<&str>) -> ContentChild {
    ContentChild {
        id: Some(id.to_string()),
        name: Some(name.to_string()),
        kind: Some(kind.to_string()),
        size,
        link: link.map(|s| s.to_string()),
        mimetype: mime.map(|s| s.to_string()),
    }
}

fn content(status: Option<String>, data: Option<ContentRoot>) -> StatusEnvelope<ContentRoot> {
    StatusEnvelope { status, data }
}

fn root(id: &str, name: Option<&str>, kind: Option<&str>, contents: Vec<ContentChild>) -> ContentRoot {
    ContentRoot {
        id: Some(id.to_string()),
        name: name.map(|s| s.to_string()),
        kind: kind.map(|s| s.to_string()),
        contents,
    }
}

// ── HTTP envelope ────────────────────────────────────────────────────────────

#[test]
fn into_success_body_passes_2xx() {
    let resp = HttpResponse {
        status: 200,
        headers: HashMap::new(),
        body: "{}".into(),
    };
    assert_eq!(resp.into_success_body().unwrap(), "{}");
}

#[test]
fn into_success_body_maps_404_to_offline() {
    let resp = HttpResponse {
        status: 404,
        headers: HashMap::new(),
        body: String::new(),
    };
    assert!(matches!(
        resp.into_success_body().unwrap_err(),
        PluginError::Offline(_)
    ));
}

#[test]
fn into_success_body_rejects_oversized_payload() {
    let resp = HttpResponse {
        status: 200,
        headers: HashMap::new(),
        body: "x".repeat(MAX_BODY_BYTES + 1),
    };
    assert!(matches!(
        resp.into_success_body().unwrap_err(),
        PluginError::HttpStatus { status: 200, .. }
    ));
}

#[test]
fn into_success_body_maps_500_to_http_status() {
    let resp = HttpResponse {
        status: 500,
        headers: HashMap::new(),
        body: "boom".into(),
    };
    assert!(matches!(
        resp.into_success_body().unwrap_err(),
        PluginError::HttpStatus { status: 500, .. }
    ));
}

#[test]
fn into_success_body_messages() {
    let big = HttpResponse { status: 201, headers: HashMap::new(), body: "x".repeat(MAX_BODY_BYTES + 1) };
    match big.into_success_body() {
        Err(PluginError::HttpStatus { status, message }) => {
            assert_eq!(status, 201);
            assert_eq!(message, "body exceeds 1048576 bytes");
        }
        other => panic!("unexpected: {other:?}"),
    }
    let gone = HttpResponse { status: 410, headers: HashMap::new(), body: "x".into() };
    match gone.into_success_body() {
        Err(PluginError::Offline(m)) => assert_eq!(m, "status 410"),
        other => panic!("unexpected: {other:?}"),
    }
    let err = HttpResponse { status: 500, headers: HashMap::new(), body: "boom".into() };
    match err.into_success_body() {
        Err(PluginError::HttpStatus { message, .. }) => assert_eq!(message, "boom"),
        other => panic!("unexpected: {other:?}"),
    }
}

#[test]
fn into_success_body_accepts_exact_limit_and_299() {
    let resp = HttpResponse { status: 299, headers: HashMap::new(), body: "y".repeat(MAX_BODY_BYTES) };
    assert_eq!(resp.into_success_body().unwrap().len(), MAX_BODY_BYTES);
    let resp = HttpResponse { status: 300, headers: HashMap::new(), body: String::new() };
    assert!(matches!(resp.into_success_body(), Err(PluginError::HttpStatus { status: 300, .. })));
}

#[test]
fn error_body_is_truncated_at_a_char_boundary() {
    let body = format!("{}é{}", "a".repeat(255), "b".repeat(10));
    let resp = HttpResponse { status: 502, headers: HashMap::new(), body };
    match resp.into_success_body() {
        Err(PluginError::HttpStatus { message, .. }) => {
            assert_eq!(message, format!("{}…", "a".repeat(255)));
        }
        other => panic!("unexpected: {other:?}"),
    }
}

#[test]
fn truncate_keeps_short_strings_and_cuts_long_ones() {
    assert_eq!(truncate("héllo", 6), "héllo");
    assert_eq!(truncate("héllo", 5), "héll…");
    assert_eq!(truncate("héllo", 2), "h…");
    assert_eq!(truncate("", 0), "");
}

// ── Request builders ─────────────────────────────────────────────────────────

#[test]
fn build_create_account_request_targets_endpoint() {
    let req = build_create_account_request();
    assert_eq!(req.method, "GET");
    assert_eq!(req.url, "https://api.gofile.io/createAccount");
    assert_eq!(header(&req, "Accept"), Some("application/json"));
    assert!(header(&req, "User-Agent").is_some());
}

#[test]
fn build_content_request_includes_id_and_token() {
    let req = build_content_request("abc123", "tok42");
    assert_eq!(req.method, "GET");
    let url = req.url.as_str();
    assert!(url.starts_with("https://api.gofile.io/getContent?"));
    assert!(url.contains("contentId=abc123"));
    assert!(url.contains("token=tok42"));
}

#[test]
fn build_content_request_percent_encodes_special_chars() {
    let req = build_content_request("abc", "tok+/=");
    let url = req.url.as_str();
    assert!(url.contains("token=tok%2B%2F%3D"), "got: {url}");
}

#[test]
fn build_content_request_exact_url_and_headers() {
    let req = build_content_request("abc123", "tok42");
    assert_eq!(req.url, "https://api.gofile.io/getContent?contentId=abc123&token=tok42");
    assert_eq!(
        header(&req, "User-Agent"),
        Some("Mozilla/5.0 (Vortex/1.0; +https://vortex-app.com) GofilePlugin/1.0")
    );
    assert_eq!(req.headers.len(), 2);
    assert!(req.body.is_none());
}

#[test]
fn url_encode_keeps_unreserved_and_encodes_the_rest() {
    assert_eq!(url_encode("Az09-_"), "Az09-_");
    assert_eq!(url_encode(".~"), "%2E%7E");
    assert_eq!(url_encode("a b&c=d#e"), "a%20b%26c%3Dd%23e");
    assert_eq!(url_encode("é"), "%C3%A9");
    let enc = url_encode("x?&=#/+ é%");
    assert!(enc.chars().all(|c| c.is_ascii_alphanumeric() || "-_%".contains(c)));
}

// ── Account token ────────────────────────────────────────────────────────────

#[test]
fn parse_account_token_extracts_token() {
    // {"status":"ok","data":{"id":"u1","token":"abcDEF123","tier":"guest"}}
    let env = account(status("ok"), Some(AccountData { token: Some("abcDEF123".into()) }));
    assert_eq!(read_account_token(env).unwrap(), "abcDEF123");
}

#[test]
fn parse_account_token_rejects_missing_data() {
    match read_account_token(account(status("ok"), None)) {
        Err(PluginError::ApiError(m)) => assert_eq!(m, "createAccount: missing data field"),
        other => panic!("unexpected: {other:?}"),
    }
}

#[test]
fn parse_account_token_rejects_empty_token() {
    let env = account(status("ok"), Some(AccountData { token: Some(String::new()) }));
    match read_account_token(env) {
        Err(PluginError::ApiError(m)) => assert_eq!(m, "createAccount: empty or missing token"),
        other => panic!("unexpected: {other:?}"),
    }
    let env = account(status("ok"), Some(AccountData { token: None }));
    assert!(matches!(read_account_token(env), Err(PluginError::ApiError(_))));
}

#[test]
fn parse_account_token_maps_error_status_to_api_error() {
    match read_account_token(account(status("error-rateLimit"), None)) {
        Err(PluginError::ApiError(m)) => assert_eq!(m, "error-rateLimit"),
        other => panic!("unexpected: {other:?}"),
    }
}

#[test]
fn status_classification() {
    match read_account_token(account(status("weird"), None)) {
        Err(PluginError::ApiError(m)) => assert_eq!(m, "unexpected status 'weird'"),
        other => panic!("unexpected: {other:?}"),
    }
    match read_account_token(account(None, None)) {
        Err(PluginError::ApiError(m)) => assert_eq!(m, "response missing status field"),
        other => panic!("unexpected: {other:?}"),
    }
    for s in [
        "error-notFound",
        "error-not-found",
        "error-passwordRequired",
        "something-notFound-else",
    ] {
        match read_account_token(account(status(s), None)) {
            Err(PluginError::Offline(m)) => assert_eq!(m, s),
            other => panic!("{s}: unexpected: {other:?}"),
        }
    }
    for s in [
        "error-noContent",
        "error-notPublic",
        "error-passwordWrong",
        "error-rateLimit",
        "error-xnotFoundx",
    ] {
        match read_account_token(account(status(s), None)) {
            Err(PluginError::ApiError(m)) => assert_eq!(m, s),
            other => panic!("{s}: unexpected: {other:?}"),
        }
    }
}

// ── Folder content ───────────────────────────────────────────────────────────

#[test]
fn parse_folder_content_extracts_files_only() {
    let env = content(
        status("ok"),
        Some(root(
            "folder1",
            Some("Holiday"),
            Some("folder"),
            vec![
                child("f1", "a.zip", "file", Some(42), Some("https://store-eu1.gofile.io/download/f1/a.zip"), Some("application/zip")),
                child("f2", "b.txt", "file", Some(7), Some("https://store-eu1.gofile.io/download/f2/b.txt"), Some("text/plain")),
                ContentChild {
                    id: Some("sub".into()),
                    name: Some("nested".into()),
                    kind: Some("folder".into()),
                    size: None,
                    link: None,
                    mimetype: None,
                },
            ],
        )),
    );
    let folder = read_folder_content(env).unwrap();
    assert_eq!(folder.id, "folder1");
    assert_eq!(folder.name.as_deref(), Some("Holiday"));
    assert_eq!(folder.files.len(), 2, "sub-folder must be filtered out");
    assert_eq!(folder.files[0].id, "f1");
    assert_eq!(folder.files[1].id, "f2");
    assert_eq!(folder.files[0].size, 42);
    assert_eq!(
        folder.files[0].direct_url,
        "https://store-eu1.gofile.io/download/f1/a.zip"
    );
    assert_eq!(folder.files[1].mimetype.as_deref(), Some("text/plain"));
}

#[test]
fn parse_folder_content_rejects_non_folder_root() {
    let env = content(status("ok"), Some(root("x", None, Some("file"), vec![])));
    match read_folder_content(env) {
        Err(PluginError::ApiError(m)) => assert_eq!(m, "getContent: expected folder, got 'file'"),
        other => panic!("unexpected: {other:?}"),
    }
}

#[test]
fn parse_folder_content_maps_not_found_to_offline() {
    assert!(matches!(
        read_folder_content(content(status("error-notFound"), None)),
        Err(PluginError::Offline(_))
    ));
}

#[test]
fn parse_folder_content_maps_password_required_to_offline() {
    assert!(matches!(
        read_folder_content(content(status("error-passwordRequired"), None)),
        Err(PluginError::Offline(_))
    ));
}

#[test]
fn parse_folder_content_skips_files_with_missing_link() {
    let env = content(
        status("ok"),
        Some(root(
            "folder1",
            None,
            Some("folder"),
            vec![
                child("f1", "a.zip", "file", Some(42), Some(""), None),
                child("f2", "b.txt", "file", Some(7), Some("https://x/f2"), None),
            ],
        )),
    );
    let folder = read_folder_content(env).unwrap();
    assert_eq!(folder.files.len(), 1);
    assert_eq!(folder.files[0].id, "f2");
}

#[test]
fn read_folder_content_skips_incomplete_children() {
    let mut nameless = child("f4", "d.txt", "file", Some(1), Some("https://x/f4"), None);
    nameless.name = None;
    let env = content(
        status("ok"),
        Some(root(
            "folder1",
            None,
            Some("folder"),
            vec![
                child("f3", "c.txt", "file", Some(7), None, None),
                nameless,
                child("f5", "e.txt", "File", Some(1), Some("https://x/f5"), None),
                child("f6", "f.txt", "file", Some(1), Some("https://x/f6"), None),
            ],
        )),
    );
    let folder = read_folder_content(env).unwrap();
    assert_eq!(folder.files.len(), 1);
    assert_eq!(folder.files[0].id, "f6");
}

#[test]
fn read_folder_content_reports_missing_fields() {
    match read_folder_content(content(status("ok"), None)) {
        Err(PluginError::ApiError(m)) => assert_eq!(m, "getContent: missing data field"),
        other => panic!("unexpected: {other:?}"),
    }
    let no_id = ContentRoot { id: None, name: None, kind: Some("folder".into()), contents: vec![] };
    match read_folder_content(content(status("ok"), Some(no_id))) {
        Err(PluginError::ApiError(m)) => assert_eq!(m, "getContent: missing id"),
        other => panic!("unexpected: {other:?}"),
    }
}

#[test]
fn read_folder_content_accepts_missing_type_and_size() {
    let env = content(
        status("ok"),
        Some(root("uniFLD", Some("Résumés Été 2026"), None, vec![
            child("u1", "Résumé clé 2026.pdf", "file", None, Some("https://store-eu1.gofile.io/download/u1/r%C3%A9sum%C3%A9.pdf"), None),
        ])),
    );
    let folder = read_folder_content(env).unwrap();
    assert_eq!(folder.name.as_deref(), Some("Résumés Été 2026"));
    assert_eq!(folder.files[0].name, "Résumé clé 2026.pdf");
    assert_eq!(folder.files[0].size, 0);
}

#[test]
fn read_folder_content_sorts_by_id() {
    let env = content(
        status("ok"),
        Some(root("F", None, Some("folder"), vec![
            child("cccc3333", "video.mp4", "file", Some(52_428_800), Some("https://x/c"), Some("video/mp4")),
            child("aaaa1111", "beach.jpg", "file", Some(2_048_000), Some("https://x/a"), None),
            child("B", "upper.bin", "file", Some(1), Some("https://x/B"), None),
            child("bbbb2222", "notes.txt", "file", Some(10), Some("https://x/b"), None),
            child("aaaa", "short.bin", "file", Some(1), Some("https://x/s"), None),
        ])),
    );
    let folder = read_folder_content(env).unwrap();
    let ids: Vec<&str> = folder.files.iter().map(|f| f.id.as_str()).collect();
    assert_eq!(ids, vec!["B", "aaaa", "aaaa1111", "bbbb2222", "cccc3333"]);
}

#[test]
fn empty_folder_reads_then_fails_at_link_build() {
    let folder = read_folder_content(content(status("ok"), Some(root("e", None, Some("folder"), vec![])))).unwrap();
    assert!(folder.files.is_empty());
    assert!(matches!(
        build_extract_links_response(folder, None),
        Err(PluginError::EmptyFolder)
    ));
}
