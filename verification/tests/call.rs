use drive_mirror::call::{Call, CallAction, CallEvent, CallKind, Phase};
use drive_mirror::credential::CredentialStore;
use drive_mirror::error::UploadError;

fn reply(status: u16, body: &str) -> CallEvent {
    CallEvent::Reply { status, body: body.to_string() }
}

#[test]
fn call_is_sent_with_the_current_token() {
    let store = CredentialStore::new("tok".to_string());
    let (call, action) = Call::begin(CallKind::Upload, &store);
    assert_eq!(call, Call { kind: CallKind::Upload, phase: Phase::Sent });
    assert_eq!(action, CallAction::Send { token: "tok".to_string() });
}

#[test]
fn created_folder_ends_the_call_with_its_id() {
    let mut store = CredentialStore::new("tok".to_string());
    let (mut call, _) = Call::begin(CallKind::CreateFolder, &store);
    let action = call.on_event(&mut store, reply(200, "{\"id\": \"F1\"}"));
    assert_eq!(action, Some(CallAction::Done(Ok(Some("F1".to_string())))));
    assert_eq!(call.phase, Phase::Over);
    assert_eq!(store.read(), "tok");
}

#[test]
fn upload_success_carries_nothing() {
    let mut store = CredentialStore::new("tok".to_string());
    let (mut call, _) = Call::begin(CallKind::Upload, &store);
    let action = call.on_event(&mut store, reply(200, "{\"id\": \"F1\"}"));
    assert_eq!(action, Some(CallAction::Done(Ok(None))));
}

#[test]
fn rejected_call_refreshes_exactly_once() {
    for kind in [CallKind::CreateFolder, CallKind::Upload] {
        let mut store = CredentialStore::new("expired".to_string());
        let (mut call, first) = Call::begin(kind, &store);
        assert_eq!(first, CallAction::Send { token: "expired".to_string() });

        let mut refreshes = 0;
        let mut sends = 1;
        let mut action = call.on_event(&mut store, reply(401, "denied"));
        let result = loop {
            match action {
                Some(CallAction::Refresh) => {
                    refreshes += 1;
                    // the store changes only when the exchange is over
                    assert_eq!(store.read(), "expired");
                    action = call.on_event(&mut store, reply(200, "{\"access_token\": \"fresh\"}"));
                }
                Some(CallAction::Send { .. }) => {
                    sends += 1;
                    action = call.on_event(&mut store, reply(200, "{}"));
                }
                Some(CallAction::Done(result)) => break result,
                None => panic!("the call ended without a result"),
            }
        };
        assert_eq!(refreshes, 1);
        assert_eq!(sends, 1);
        assert_eq!(result, Err(UploadError::RetryNeeded));
        assert_eq!(store.read(), "fresh");

        let (_, next) = Call::begin(kind, &store);
        assert_eq!(next, CallAction::Send { token: "fresh".to_string() });
    }
}

#[test]
fn failed_refresh_keeps_the_token_and_reports_auth() {
    let mut store = CredentialStore::new("expired".to_string());
    let (mut call, _) = Call::begin(CallKind::Upload, &store);
    assert_eq!(call.on_event(&mut store, reply(401, "")), Some(CallAction::Refresh));
    assert_eq!(call.phase, Phase::Refreshing);
    let action = call.on_event(&mut store, reply(400, "{\"error\": \"invalid_grant\"}"));
    assert_eq!(action, Some(CallAction::Done(Err(UploadError::Auth))));
    assert_eq!(store.read(), "expired");
}

#[test]
fn refresh_without_reply_reports_auth() {
    let mut store = CredentialStore::new("expired".to_string());
    let (mut call, _) = Call::begin(CallKind::CreateFolder, &store);
    assert_eq!(call.on_event(&mut store, reply(401, "")), Some(CallAction::Refresh));
    let action = call.on_event(&mut store, CallEvent::Failed(UploadError::LocalIo));
    assert_eq!(action, Some(CallAction::Done(Err(UploadError::Auth))));
    assert_eq!(store.read(), "expired");
}

#[test]
fn refresh_reply_without_token_reports_auth() {
    let mut store = CredentialStore::new("expired".to_string());
    let (mut call, _) = Call::begin(CallKind::CreateFolder, &store);
    assert_eq!(call.on_event(&mut store, reply(401, "")), Some(CallAction::Refresh));
    let action = call.on_event(&mut store, reply(200, "{\"id\": \"not a token\"}"));
    assert_eq!(action, Some(CallAction::Done(Err(UploadError::Auth))));
    assert_eq!(store.read(), "expired");
}

#[test]
fn other_status_ends_the_call_without_refresh() {
    let mut store = CredentialStore::new("tok".to_string());
    let (mut call, _) = Call::begin(CallKind::Upload, &store);
    let action = call.on_event(&mut store, reply(500, "boom"));
    assert_eq!(
        action,
        Some(CallAction::Done(Err(UploadError::RemoteApi { status: 500, body: "boom".to_string() })))
    );
    assert_eq!(store.read(), "tok");
}

#[test]
fn folder_reply_without_id_is_malformed() {
    let mut store = CredentialStore::new("tok".to_string());
    let (mut call, _) = Call::begin(CallKind::CreateFolder, &store);
    let action = call.on_event(&mut store, reply(200, "{\"name\": \"b\"}"));
    assert_eq!(action, Some(CallAction::Done(Err(UploadError::MalformedResponse))));
}

#[test]
fn unreadable_file_fails_the_call() {
    let mut store = CredentialStore::new("tok".to_string());
    let (mut call, _) = Call::begin(CallKind::Upload, &store);
    let action = call.on_event(&mut store, CallEvent::Failed(UploadError::LocalIo));
    assert_eq!(action, Some(CallAction::Done(Err(UploadError::LocalIo))));
    assert_eq!(call.phase, Phase::Over);
}

#[test]
fn finished_call_takes_no_more_events() {
    let mut store = CredentialStore::new("tok".to_string());
    let (mut call, _) = Call::begin(CallKind::Upload, &store);
    assert!(call.on_event(&mut store, reply(204, "")).is_some());
    assert_eq!(call.on_event(&mut store, reply(401, "")), None);
    assert_eq!(call.on_event(&mut store, reply(200, "{\"access_token\": \"x\"}")), None);
    assert_eq!(store.read(), "tok");
    assert_eq!(call.phase, Phase::Over);
}
