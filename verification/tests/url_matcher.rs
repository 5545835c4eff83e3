use vortex_mod_gofile::url_matcher::{classify_url, extract_ids, synthesise_file_url, UrlKind};

#[test]
fn classify_url_recognises_canonical_folder() {
    assert_eq!(classify_url("https://gofile.io/d/abc123"), UrlKind::Folder);
}

#[test]
fn classify_url_recognises_www_folder() {
    assert_eq!(classify_url("https://www.gofile.io/d/abc123def"), UrlKind::Folder);
}

#[test]
fn classify_url_recognises_http_folder() {
    assert_eq!(classify_url("http://gofile.io/d/abc123"), UrlKind::Folder);
}

#[test]
fn classify_url_recognises_folder_with_trailing_slash() {
    assert_eq!(classify_url("https://gofile.io/d/Abc123XYZ/"), UrlKind::Folder);
}

#[test]
fn classify_url_recognises_uuid_file() {
    assert_eq!(
        classify_url("https://gofile.io/d/abc123/xxxxxxxx-xxxx-xxxx-xxxx-xxxxxxxxxxxx"),
        UrlKind::File
    );
}

#[test]
fn classify_url_recognises_underscored_file() {
    assert_eq!(classify_url("https://gofile.io/d/abc123/file_id_42"), UrlKind::File);
}

#[test]
fn classify_url_rejects_root() {
    assert_eq!(classify_url("https://gofile.io/"), UrlKind::Unknown);
}

#[test]
fn classify_url_rejects_api_path() {
    assert_eq!(classify_url("https://gofile.io/api/getContent"), UrlKind::Unknown);
}

#[test]
fn classify_url_rejects_other_host() {
    assert_eq!(classify_url("https://example.com/d/abc123"), UrlKind::Unknown);
}

#[test]
fn classify_url_rejects_ftp() {
    assert_eq!(classify_url("ftp://gofile.io/d/abc123"), UrlKind::Unknown);
}

#[test]
fn classify_url_rejects_non_url() {
    assert_eq!(classify_url("not a url"), UrlKind::Unknown);
}

#[test]
fn classify_handles_query_and_fragment() {
    assert_eq!(
        classify_url("https://gofile.io/d/abc123?foo=bar#x"),
        UrlKind::Folder
    );
}

#[test]
fn classify_rejects_short_folder_id() {
    assert_eq!(
        classify_url("https://gofile.io/d/abc"),
        UrlKind::Unknown,
        "Gofile content ids are 6+ alphanumerics; shorter shapes must not match"
    );
}

#[test]
fn classify_rejects_special_chars_in_folder_id() {
    assert_eq!(
        classify_url("https://gofile.io/d/abc-123"),
        UrlKind::Unknown
    );
}

#[test]
fn extract_ids_from_folder_returns_none_for_file() {
    let (folder, file) = extract_ids("https://gofile.io/d/abc123def").unwrap();
    assert_eq!(folder, "abc123def");
    assert!(file.is_none());
}

#[test]
fn extract_ids_from_synthesised_file_returns_both() {
    let (folder, file) = extract_ids("https://gofile.io/d/abc123/uuid_42").unwrap();
    assert_eq!(folder, "abc123");
    assert_eq!(file.as_deref(), Some("uuid_42"));
}

#[test]
fn extract_ids_strips_trailing_slash() {
    let (folder, file) = extract_ids("https://gofile.io/d/abc123/").unwrap();
    assert_eq!(folder, "abc123");
    assert!(file.is_none());
}

#[test]
fn extract_ids_handles_query() {
    let (folder, file) = extract_ids("https://gofile.io/d/abc123?download").unwrap();
    assert_eq!(folder, "abc123");
    assert!(file.is_none());
}

#[test]
fn extract_ids_other_host_returns_none() {
    assert!(extract_ids("https://example.com/d/abc123").is_none());
}

#[test]
fn synthesise_file_url_round_trips() {
    let url = synthesise_file_url("folder42", "file_uuid");
    let (folder, file) = extract_ids(&url).unwrap();
    assert_eq!(folder, "folder42");
    assert_eq!(file.as_deref(), Some("file_uuid"));
}

// ── Further shapes ───────────────────────────────────────────────────────────

#[test]
fn synthesise_file_url_exact_text() {
    assert_eq!(
        synthesise_file_url("folder1", "f1"),
        "https://gofile.io/d/folder1/f1"
    );
}

#[test]
fn synthesised_url_classifies_as_file() {
    let url = synthesise_file_url("FOLDER1", "cccc3333");
    assert_eq!(classify_url(&url), UrlKind::File);
}

#[test]
fn classify_ignores_host_case_scheme_case_port_and_userinfo() {
    assert_eq!(classify_url("HTTPS://GoFile.IO/d/abc123"), UrlKind::Folder);
    assert_eq!(classify_url("https://gofile.io:443/d/abc123"), UrlKind::Folder);
    assert_eq!(classify_url("https://user:pw@www.gofile.io/d/abc123"), UrlKind::Folder);
}

#[test]
fn classify_rejects_lookalike_hosts() {
    assert_eq!(classify_url("https://gofile.io.evil.com/d/abc123"), UrlKind::Unknown);
    assert_eq!(classify_url("https://evil.com@/d/abc123"), UrlKind::Unknown);
    assert_eq!(classify_url("https://[::1]/d/abc123"), UrlKind::Unknown);
    assert_eq!(classify_url("https://gofile.io"), UrlKind::Unknown);
}

#[test]
fn classify_rejects_bad_file_ids_and_extra_segments() {
    assert_eq!(classify_url("https://gofile.io/d/abc123/short"), UrlKind::Unknown);
    assert_eq!(classify_url("https://gofile.io/d/abc123/file.txt"), UrlKind::Unknown);
    assert_eq!(classify_url("https://gofile.io/d/abc123/file42/more"), UrlKind::Unknown);
    assert_eq!(classify_url("https://gofile.io/d/abc123//file42"), UrlKind::Unknown);
}

#[test]
fn classify_folder_with_fragment_then_slash_in_query() {
    assert_eq!(classify_url("https://gofile.io/d/abc123///#frag?x/y"), UrlKind::Folder);
    assert_eq!(classify_url("https://gofile.io/d/abc123?a=b/c#d"), UrlKind::Folder);
}

#[test]
fn extract_ids_of_file_url_with_query() {
    let (folder, file) = extract_ids("https://gofile.io/d/abc123/file_42?dl=1").unwrap();
    assert_eq!(folder, "abc123");
    assert_eq!(file.as_deref(), Some("file_42"));
}

#[test]
fn extract_ids_rejects_unicode_ids() {
    assert!(extract_ids("https://gofile.io/d/abcdéf").is_none());
}
