use vortex_mod_gofile::api_client::{
    AccountData, ContentChild, ContentRoot, StatusEnvelope,
};
use vortex_mod_gofile::error::PluginError;
use vortex_mod_gofile::{
    folder_fetch_step, start_folder_fetch, FetchAction, FetchReply, FetchStage,
};

fn token_reply(token: &str) -> FetchReply {
    FetchReply::Account(StatusEnvelope {
        status: Some("ok".into()),
        data: Some(AccountData { token: Some(token.into()) }),
    })
}

fn folder_reply() -> FetchReply {
    FetchReply::Content(StatusEnvelope {
        status: Some("ok".into()),
        data: Some(ContentRoot {
            id: Some("abc123".into()),
            name: Some("Solo".into()),
            kind: Some("folder".into()),
            contents: vec![ContentChild {
                id: Some("file777".into()),
                name: Some("hello.bin".into()),
                kind: Some("file".into()),
                size: Some(17),
                link: Some("https://store-eu1.gofile.io/download/file777/hello.bin".into()),
                mimetype: None,
            }],
        }),
    })
}

#[test]
fn folder_lookup_sends_create_account_then_get_content() {
    let (fetch, action) = start_folder_fetch("abc123".into());
    assert_eq!(fetch.stage, FetchStage::AwaitingToken);
    match action {
        FetchAction::Send(req) => assert_eq!(req.url, "https://api.gofile.io/createAccount"),
        other => panic!("unexpected: {other:?}"),
    }

    let (fetch, action) = folder_fetch_step(fetch, token_reply("tok+42"));
    assert_eq!(fetch.stage, FetchStage::AwaitingContent);
    match action {
        FetchAction::Send(req) => assert_eq!(
            req.url,
            "https://api.gofile.io/getContent?contentId=abc123&token=tok%2B42"
        ),
        other => panic!("unexpected: {other:?}"),
    }

    let (fetch, action) = folder_fetch_step(fetch, folder_reply());
    assert_eq!(fetch.stage, FetchStage::Done);
    match action {
        FetchAction::Finish(folder) => {
            assert_eq!(folder.id, "abc123");
            assert_eq!(folder.files.len(), 1);
            assert_eq!(folder.files[0].size, 17);
        }
        other => panic!("unexpected: {other:?}"),
    }
}

#[test]
fn folder_lookup_stops_on_token_error() {
    let (fetch, _) = start_folder_fetch("abc123".into());
    let reply = FetchReply::Account(StatusEnvelope {
        status: Some("error-rateLimit".into()),
        data: None,
    });
    let (fetch, action) = folder_fetch_step(fetch, reply);
    assert_eq!(fetch.stage, FetchStage::Done);
    assert!(matches!(action, FetchAction::Fail(PluginError::ApiError(_))));
}

#[test]
fn folder_lookup_stops_on_failure_and_offline_folder() {
    let (fetch, _) = start_folder_fetch("abc123".into());
    let (done, action) =
        folder_fetch_step(fetch, FetchReply::Failure(PluginError::HostResponse("bad".into())));
    assert_eq!(done.stage, FetchStage::Done);
    assert!(matches!(action, FetchAction::Fail(PluginError::HostResponse(_))));

    let (fetch, _) = start_folder_fetch("abc123".into());
    let (fetch, _) = folder_fetch_step(fetch, token_reply("tok"));
    let offline = FetchReply::Content(StatusEnvelope {
        status: Some("error-notFound".into()),
        data: None,
    });
    let (fetch, action) = folder_fetch_step(fetch, offline);
    assert_eq!(fetch.stage, FetchStage::Done);
    assert!(matches!(action, FetchAction::Fail(PluginError::Offline(_))));
}
