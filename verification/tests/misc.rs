use patcher::config::{CLASSIC_STYLE, DEFAULT_SERVERLIST_URL, MODERN_STYLE};
use patcher::{
    get_etag, get_fixed_endpoints, Endpoint, ErrorKind, Notice, PatchError, Phase, ProgressEvent,
    ETAG_FILE, PACING_SECONDS, STAGING_DIR,
};

const ALL_ERRORS: [PatchError; 15] = [
    PatchError::CreateStaging,
    PatchError::Manifest,
    PatchError::Request,
    PatchError::Status,
    PatchError::StagedParent,
    PatchError::CreateStagedParent,
    PatchError::OpenStaged,
    PatchError::ReadChunk,
    PatchError::WriteChunk,
    PatchError::TargetParent,
    PatchError::CreateTargetParent,
    PatchError::MoveFile,
    PatchError::OpenMarker,
    PatchError::WriteMarker,
    PatchError::RemoveStaging,
];

#[test]
fn fixed_endpoints_hold_localhost() {
    let endpoints = get_fixed_endpoints();
    assert_eq!(
        endpoints,
        vec![Endpoint { name: "Localhost".to_string(), host: "localhost".to_string(), is_remote: true }]
    );
}

#[test]
fn default_endpoint_is_empty_and_local() {
    let endpoint = Endpoint::default();
    assert_eq!(endpoint.name, "");
    assert_eq!(endpoint.host, "");
    assert!(!endpoint.is_remote);
}

#[test]
fn style_constants() {
    assert_eq!(CLASSIC_STYLE, 0);
    assert_eq!(MODERN_STYLE, 1);
    assert!(DEFAULT_SERVERLIST_URL.starts_with("https://"));
    assert!(DEFAULT_SERVERLIST_URL.ends_with("/serverlist.json"));
}

#[test]
fn fixed_names() {
    assert_eq!(ETAG_FILE, "patcher.etag");
    assert_eq!(STAGING_DIR, "tmp");
    assert_eq!(PACING_SECONDS, 1);
}

#[test]
fn marker_of_a_tree_never_patched_is_empty() {
    assert_eq!(get_etag(None), "");
}

#[test]
fn marker_is_what_was_stored() {
    assert_eq!(get_etag(Some("W/\"5e1-abc\"".to_string())), "W/\"5e1-abc\"");
    assert_eq!(get_etag(Some(String::new())), "");
    assert_eq!(get_etag(Some(" v2 \n".to_string())), " v2 \n");
}

#[test]
fn phases_are_numbered_in_order() {
    assert_eq!(Phase::Checking.code(), 0);
    assert_eq!(Phase::Downloading.code(), 1);
    assert_eq!(Phase::Patching.code(), 2);
    assert_eq!(Phase::Done.code(), 3);
    assert_eq!(Phase::Error.code(), 4);
}

#[test]
fn plain_events_count_nothing() {
    assert_eq!(
        ProgressEvent::plain(Phase::Patching),
        ProgressEvent { total: 0, current: 0, state: Phase::Patching }
    );
}

#[test]
fn downloading_events_count_files() {
    assert_eq!(
        ProgressEvent::downloading(7, 3),
        ProgressEvent { total: 7, current: 3, state: Phase::Downloading }
    );
}

#[test]
fn failure_notice_is_an_error_event_with_a_message() {
    let notice = Notice::Failure(PatchError::MoveFile);
    assert_eq!(notice.event(), ProgressEvent { total: 0, current: 0, state: Phase::Error });
    assert_eq!(notice.message(), Some("Failed to move patched file to game folder".to_string()));
}

#[test]
fn progress_notice_has_no_message() {
    let notice = Notice::Progress(ProgressEvent::downloading(2, 1));
    assert_eq!(notice.event(), ProgressEvent { total: 2, current: 1, state: Phase::Downloading });
    assert_eq!(notice.message(), None);
}

#[test]
fn error_kinds() {
    let expected = [
        ErrorKind::Io,
        ErrorKind::Manifest,
        ErrorKind::Transport,
        ErrorKind::Transport,
        ErrorKind::Io,
        ErrorKind::Io,
        ErrorKind::Io,
        ErrorKind::Transport,
        ErrorKind::Io,
        ErrorKind::Io,
        ErrorKind::Io,
        ErrorKind::Io,
        ErrorKind::Io,
        ErrorKind::Io,
        ErrorKind::Io,
    ];
    for (error, kind) in ALL_ERRORS.iter().zip(expected.iter()) {
        assert_eq!(error.kind(), *kind);
    }
}

#[test]
fn error_messages() {
    let expected = [
        "Failed to create temp patcher directory",
        "Failed to parse patcher server response",
        "Patch server request failed",
        "Patch server answered with an error status",
        "Failed to get temp file parent",
        "Failed to create temp file parent",
        "Failed to open temp file",
        "Failed to read patcher response chunk",
        "Failed to write patcher response chunk to file",
        "Failed to get target file parent",
        "Failed to create target file parent",
        "Failed to move patched file to game folder",
        "Failed to open patcher etag file",
        "Failed to write to patcher etag file",
        "Failed to delete temp patcher directory",
    ];
    for (error, message) in ALL_ERRORS.iter().zip(expected.iter()) {
        assert_eq!(error.message(), *message);
    }
}
