use vortex_mod_gofile::api_client::{GofileFile, GofileFolder};
use vortex_mod_gofile::error::PluginError;
use vortex_mod_gofile::url_matcher::UrlKind;
use vortex_mod_gofile::{
    build_extract_links_response, ensure_known_url, finish_extract_links,
    finish_resolve_stream_url, handle_can_handle, handle_supports_playlist, pick_direct_url,
    pick_single_file_url, plan_lookup,
};

fn sample_folder() -> GofileFolder {
    GofileFolder {
        id: "folder1".into(),
        name: Some("Holiday".into()),
        files: vec![
            GofileFile {
                id: "f1".into(),
                name: "a.zip".into(),
                size: 42,
                direct_url: "https://store-eu1.gofile.io/download/f1/a.zip".into(),
                mimetype: Some("application/zip".into()),
            },
            GofileFile {
                id: "f2".into(),
                name: "b.txt".into(),
                size: 7,
                direct_url: "https://store-eu1.gofile.io/download/f2/b.txt".into(),
                mimetype: Some("text/plain".into()),
            },
        ],
    }
}

fn single_file_folder() -> GofileFolder {
    GofileFolder {
        id: "folderS".into(),
        name: None,
        files: vec![GofileFile {
            id: "only".into(),
            name: "only.bin".into(),
            size: 1024,
            direct_url: "https://store-eu1.gofile.io/download/only/only.bin".into(),
            mimetype: None,
        }],
    }
}

#[test]
fn can_handle_recognises_folder_url() {
    assert_eq!(handle_can_handle("https://gofile.io/d/abc123"), "true");
}

#[test]
fn can_handle_recognises_synthesised_file_url() {
    assert_eq!(
        handle_can_handle("https://gofile.io/d/abc123/file42"),
        "true"
    );
}

#[test]
fn can_handle_rejects_unrelated() {
    assert_eq!(handle_can_handle("https://example.com/d/abc123"), "false");
}

#[test]
fn supports_playlist_true_for_folder_only() {
    assert_eq!(
        handle_supports_playlist("https://gofile.io/d/abc123"),
        "true"
    );
    assert_eq!(
        handle_supports_playlist("https://gofile.io/d/abc123/file42"),
        "false"
    );
}

#[test]
fn ensure_known_url_classifies_folder_and_file() {
    assert_eq!(
        ensure_known_url("https://gofile.io/d/abc123").unwrap(),
        UrlKind::Folder
    );
    assert_eq!(
        ensure_known_url("https://gofile.io/d/abc123/file42").unwrap(),
        UrlKind::File
    );
}

#[test]
fn ensure_known_url_rejects_unrelated() {
    assert!(matches!(
        ensure_known_url("https://example.com/d/abc123"),
        Err(PluginError::UnsupportedUrl(_))
    ));
}

#[test]
fn build_extract_links_response_returns_all_files_for_folder_url() {
    let r = build_extract_links_response(sample_folder(), None).unwrap();
    assert_eq!(r.kind, "folder");
    assert_eq!(r.folder_id.as_deref(), Some("folder1"));
    assert_eq!(r.folder_name.as_deref(), Some("Holiday"));
    assert_eq!(r.files.len(), 2);

    let f1 = &r.files[0];
    assert_eq!(f1.id, "f1");
    assert_eq!(f1.url, "https://gofile.io/d/folder1/f1");
    assert_eq!(f1.filename.as_deref(), Some("a.zip"));
    assert_eq!(f1.size_bytes, Some(42));
    assert_eq!(f1.mime_type.as_deref(), Some("application/zip"));
    assert_eq!(
        f1.direct_url,
        "https://store-eu1.gofile.io/download/f1/a.zip"
    );
    assert!(f1.resumable);
}

#[test]
fn build_extract_links_response_filters_to_single_file_when_id_given() {
    let r = build_extract_links_response(sample_folder(), Some("f2")).unwrap();
    assert_eq!(r.kind, "file", "single-result responses must use kind=file");
    assert_eq!(r.files.len(), 1);
    assert_eq!(r.files[0].id, "f2");
}

#[test]
fn build_extract_links_response_uses_kind_file_for_single_file_folder() {
    let r = build_extract_links_response(single_file_folder(), None).unwrap();
    assert_eq!(r.kind, "file");
    assert_eq!(r.files.len(), 1);
}

#[test]
fn build_extract_links_response_errors_on_unknown_file_id() {
    assert!(matches!(
        build_extract_links_response(sample_folder(), Some("missing")),
        Err(PluginError::FileNotInFolder(_))
    ));
}

#[test]
fn build_extract_links_response_errors_on_empty_folder() {
    let empty = GofileFolder {
        id: "e".into(),
        name: None,
        files: vec![],
    };
    assert!(matches!(
        build_extract_links_response(empty, None),
        Err(PluginError::EmptyFolder)
    ));
}

#[test]
fn pick_direct_url_returns_matching_file() {
    assert_eq!(
        pick_direct_url(&sample_folder(), "f2").unwrap(),
        "https://store-eu1.gofile.io/download/f2/b.txt"
    );
}

#[test]
fn pick_direct_url_errors_on_unknown_id() {
    assert!(matches!(
        pick_direct_url(&sample_folder(), "ghost"),
        Err(PluginError::FileNotInFolder(_))
    ));
}

#[test]
fn pick_single_file_url_works_for_one_file_folder() {
    assert_eq!(
        pick_single_file_url(&single_file_folder()).unwrap(),
        "https://store-eu1.gofile.io/download/only/only.bin"
    );
}

#[test]
fn pick_single_file_url_errors_for_multi_file_folder() {
    assert!(matches!(
        pick_single_file_url(&sample_folder()),
        Err(PluginError::ApiError(_))
    ));
}

#[test]
fn pick_single_file_url_errors_for_empty_folder() {
    let empty = GofileFolder {
        id: "e".into(),
        name: None,
        files: vec![],
    };
    assert!(matches!(
        pick_single_file_url(&empty),
        Err(PluginError::EmptyFolder)
    ));
}

// ── Further cases ────────────────────────────────────────────────────────────

#[test]
fn pick_single_file_url_message_names_the_count() {
    match pick_single_file_url(&sample_folder()) {
        Err(PluginError::ApiError(m)) => assert_eq!(
            m,
            "folder has 2 files; resolve_stream_url needs the per-file URL shape \
             (https://gofile.io/d/<folder>/<file>) to disambiguate"
        ),
        other => panic!("unexpected: {other:?}"),
    }
}

#[test]
fn file_not_in_folder_carries_the_id() {
    match build_extract_links_response(sample_folder(), Some("missing")) {
        Err(PluginError::FileNotInFolder(id)) => assert_eq!(id, "missing"),
        other => panic!("unexpected: {other:?}"),
    }
    match pick_direct_url(&sample_folder(), "ghost") {
        Err(PluginError::FileNotInFolder(id)) => assert_eq!(id, "ghost"),
        other => panic!("unexpected: {other:?}"),
    }
}

#[test]
fn unsupported_url_carries_the_url() {
    match ensure_known_url("https://example.com/d/abc123") {
        Err(PluginError::UnsupportedUrl(u)) => assert_eq!(u, "https://example.com/d/abc123"),
        other => panic!("unexpected: {other:?}"),
    }
}

#[test]
fn pick_direct_url_takes_first_of_duplicate_ids() {
    let mut folder = sample_folder();
    folder.files[1].id = "f1".into();
    assert_eq!(
        pick_direct_url(&folder, "f1").unwrap(),
        "https://store-eu1.gofile.io/download/f1/a.zip"
    );
}

#[test]
fn listed_links_resolve_back_to_their_direct_urls() {
    let folder = GofileFolder {
        id: "FOLDER1".into(),
        name: Some("Holiday Photos".into()),
        files: vec![
            GofileFile {
                id: "aaaa1111".into(),
                name: "beach.jpg".into(),
                size: 2_048_000,
                direct_url: "https://store-eu1.gofile.io/download/aaaa1111/beach.jpg".into(),
                mimetype: Some("image/jpeg".into()),
            },
            GofileFile {
                id: "cccc3333".into(),
                name: "video.mp4".into(),
                size: 52_428_800,
                direct_url: "https://store-eu1.gofile.io/download/cccc3333/video.mp4".into(),
                mimetype: Some("video/mp4".into()),
            },
        ],
    };
    let resp = build_extract_links_response(folder.clone(), None).unwrap();
    for link in &resp.files {
        let plan = plan_lookup(&link.url).unwrap();
        assert_eq!(plan.kind, UrlKind::File);
        assert_eq!(plan.folder_id, "FOLDER1");
        assert_eq!(finish_resolve_stream_url(&plan, &folder).unwrap(), link.direct_url);
    }
}

#[test]
fn per_file_url_extracts_only_that_file() {
    let folder = GofileFolder {
        id: "folder1".into(),
        name: None,
        files: vec![
            GofileFile {
                id: "file111".into(),
                name: "a".into(),
                size: 1,
                direct_url: "https://x/a".into(),
                mimetype: None,
            },
            GofileFile {
                id: "file222".into(),
                name: "b".into(),
                size: 2,
                direct_url: "https://x/b".into(),
                mimetype: None,
            },
        ],
    };
    let plan = plan_lookup("https://gofile.io/d/folder1/file222").unwrap();
    let resp = finish_extract_links(&plan, folder.clone()).unwrap();
    assert_eq!(resp.kind, "file");
    assert_eq!(resp.files.len(), 1);
    assert_eq!(resp.files[0].id, "file222");
    assert_eq!(resp.files[0].url, "https://gofile.io/d/folder1/file222");

    let folder_plan = plan_lookup("https://gofile.io/d/folder1").unwrap();
    let all = finish_extract_links(&folder_plan, folder.clone()).unwrap();
    assert_eq!(all.kind, "folder");
    assert_eq!(all.files.len(), 2);
    assert!(matches!(
        finish_resolve_stream_url(&folder_plan, &folder),
        Err(PluginError::ApiError(_))
    ));
}

#[test]
fn plan_lookup_rejects_unknown_urls() {
    match plan_lookup("https://example.com/d/abc123") {
        Err(PluginError::UnsupportedUrl(u)) => assert_eq!(u, "https://example.com/d/abc123"),
        other => panic!("unexpected: {other:?}"),
    }
}

#[test]
fn resolve_folder_url_with_one_file() {
    let plan = plan_lookup("https://gofile.io/d/folderS").unwrap();
    assert_eq!(plan.kind, UrlKind::Folder);
    assert_eq!(plan.file_id, None);
    assert_eq!(
        finish_resolve_stream_url(&plan, &single_file_folder()).unwrap(),
        "https://store-eu1.gofile.io/download/only/only.bin"
    );
}
