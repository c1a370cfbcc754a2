use http::Uri;
use ingest_core::ingestion::ingestion_svc::{
    ack, Action, IngestRecord, IngestResponse, Payload, ResponsePayload, State, WindowUpdate,
};
use ingest_core::ingestion::{
    is_ingest_path, route, strip_base, Route, INGEST_BASE, INGEST_MOUNT_PREFIX,
};

/// The URI under which the Connect service sees a request, if it does.
fn rewritten(uri: &str) -> Option<String> {
    match route(&uri.parse::<Uri>().unwrap()) {
        Route::Connect(uri) => Some(uri.to_string()),
        Route::Main => None,
    }
}

#[test]
fn ingest_requests_are_rewritten() {
    assert_eq!(
        rewritten("/restate/restate.ingestion.IngestionSvc/Ingest").unwrap(),
        "/restate.ingestion.IngestionSvc/Ingest"
    );
    assert_eq!(
        rewritten("/restate/restate.ingestion.IngestionSvc/").unwrap(),
        "/restate.ingestion.IngestionSvc/"
    );
    // The query stays.
    assert_eq!(
        rewritten("/restate/restate.ingestion.IngestionSvc/Ingest?a=/b&c={d}").unwrap(),
        "/restate.ingestion.IngestionSvc/Ingest?a=/b&c={d}"
    );
    // So do the scheme and the authority.
    assert_eq!(
        rewritten("https://example.com:8080/restate/restate.ingestion.IngestionSvc/Ingest?q")
            .unwrap(),
        "https://example.com:8080/restate.ingestion.IngestionSvc/Ingest?q"
    );
    // Only the first base is stripped.
    assert_eq!(
        rewritten("/restate/restate.ingestion.IngestionSvc/restate/x").unwrap(),
        "/restate.ingestion.IngestionSvc/restate/x"
    );
}

#[test]
fn other_requests_are_left_alone() {
    for uri in [
        "/",
        "*",
        "/restate",
        "/restate/health",
        "/restate/restate.ingestion.IngestionSvc",
        "/restate.ingestion.IngestionSvc/Ingest",
        "/Restate/restate.ingestion.IngestionSvc/Ingest",
        "/x?/restate/restate.ingestion.IngestionSvc/Ingest",
        "http://example.com?/restate/restate.ingestion.IngestionSvc/Ingest",
        "example.com:80",
    ] {
        assert!(rewritten(uri).is_none());
    }
}

#[test]
fn paths_are_told_apart_by_their_prefix() {
    assert_eq!(INGEST_BASE, "/restate");
    assert!(INGEST_MOUNT_PREFIX.starts_with(INGEST_BASE));
    assert!(is_ingest_path(INGEST_MOUNT_PREFIX));
    assert!(is_ingest_path("/restate/restate.ingestion.IngestionSvc/\u{e9}"));
    assert!(!is_ingest_path("/restate/restate.ingestion.IngestionSv"));
    assert!(!is_ingest_path(""));
    assert_eq!(strip_base("/restate/a/\u{e9}?b"), "/a/\u{e9}?b");
    assert_eq!(strip_base("/restate"), "");
}

#[test]
fn acknowledgements_carry_the_offset() {
    assert_eq!(
        ack(42),
        IngestResponse {
            last_committed: Some(42),
            response: Some(ResponsePayload::WindowUpdate(WindowUpdate {})),
        }
    );
}

#[test]
fn a_stream_of_requests_is_answered() {
    let mut state: State<&str> = State::new();
    assert_eq!(state.settings, None);

    let record = |offset| Some(Ok(Some(Payload::Record(IngestRecord { offset }))));

    // A record needs no settings.
    assert!(matches!(
        state.ingest::<u8>(record(7)),
        Action::Reply(Ok(response)) if response == ack(7)
    ));
    // Settings are not acknowledged.
    assert!(matches!(
        state.ingest::<u8>(Some(Ok(Some(Payload::Settings("one"))))),
        Action::Continue
    ));
    assert_eq!(state.settings, Some("one"));
    // Later settings replace the earlier ones.
    assert!(matches!(
        state.ingest::<u8>(Some(Ok(Some(Payload::Settings("two"))))),
        Action::Continue
    ));
    assert_eq!(state.settings, Some("two"));
    // An empty request is ignored.
    assert!(matches!(
        state.ingest::<u8>(Some(Ok(None))),
        Action::Continue
    ));
    // An error is passed on, and the stream goes on.
    assert!(matches!(
        state.ingest::<u8>(Some(Err(3))),
        Action::Reply(Err(3))
    ));
    assert!(matches!(
        state.ingest::<u8>(record(8)),
        Action::Reply(Ok(response)) if response.last_committed == Some(8)
    ));
    assert_eq!(state.settings, Some("two"));
    assert!(matches!(state.ingest::<u8>(None), Action::Finish));
}
