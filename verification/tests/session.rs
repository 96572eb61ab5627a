use patch_gateway::catalog::ResolvedFile;
use patch_gateway::protocol::{
    GatewayNoticeRequest, GatewayNoticeResponse, IdentityInformation, KeepAlive, PatchError,
    PatchFile, PatchProtocol, PatchRequest, PatchResponse, PatchResult, Reply,
};
use patch_gateway::provider::{PatchFileserver, PatchProvider};
use patch_gateway::session::{
    handle_message, handle_patch_request, up_to_date, update_response, MeasuredFile, Session,
    SessionAction, SessionEvent, SessionState, DOWNLOAD_PORT, GATEWAY_LOCALITY,
};

fn paths(files: &[&str]) -> Vec<String> {
    files.iter().map(|f| f.to_string()).collect()
}

fn provider() -> PatchProvider {
    let server = PatchFileserver::new(
        "10.0.0.7".to_string(),
        "files.example".to_string(),
        "/patches".to_string(),
    );
    let mut provider = PatchProvider::new("./patches".to_string(), server);
    provider.add_patch(1, paths(&["a.txt"]));
    provider.add_patch(2, paths(&["a.txt", "b.txt"]));
    provider.add_patch(3, paths(&["b.txt"]));
    provider.add_patch(5, paths(&["Data/c.pk2"]));
    provider
}

fn request(version: u32) -> PatchRequest {
    PatchRequest { content: 9, module: "SR_Client".to_string(), version }
}

fn resolved(file: &str, source_version: u16) -> ResolvedFile {
    ResolvedFile { file: file.to_string(), source_version }
}

fn serving(target_version: u16) -> Session {
    let mut session = Session::new(target_version);
    let action = session.on_event(&provider(), SessionEvent::HandshakeCompleted);
    assert_eq!(action, SessionAction::Listen);
    session
}

fn up_to_date_reply() -> SessionAction {
    SessionAction::Send(Reply::Patch(PatchResponse {
        result: PatchResult::UpToDate { unknown: 0 },
    }))
}

#[test]
fn client_at_the_target_version_is_up_to_date() {
    let mut session = serving(5);
    let message = PatchProtocol::PatchRequest(request(5));
    let action = session.on_event(&provider(), SessionEvent::Received(message));
    assert_eq!(action, up_to_date_reply());
    assert_eq!(session.state(), SessionState::Serving);
}

#[test]
fn every_target_answers_its_own_version_with_up_to_date() {
    let provider = provider();
    let empty = PatchProvider::new(
        "p".to_string(),
        PatchFileserver::new("i".to_string(), "h".to_string(), "b".to_string()),
    );
    for target in [0u16, 1, 2, 3, 4, 5, 6, 1000, 65535] {
        let action = handle_patch_request(&provider, target, &request(target as u32));
        assert_eq!(action, up_to_date_reply());
        let action = handle_patch_request(&empty, target, &request(target as u32));
        assert_eq!(action, up_to_date_reply());
    }
    assert_eq!(up_to_date(), PatchResponse { result: PatchResult::UpToDate { unknown: 0 } });
}

#[test]
fn client_behind_the_target_is_told_what_to_measure() {
    let action = handle_patch_request(&provider(), 3, &request(1));
    assert_eq!(
        action,
        SessionAction::Measure(vec![resolved("a.txt", 2), resolved("b.txt", 3)])
    );
}

#[test]
fn client_ahead_of_the_target_is_told_what_to_revert() {
    let action = handle_patch_request(&provider(), 1, &request(3));
    assert_eq!(action, SessionAction::Measure(vec![resolved("a.txt", 1)]));
}

#[test]
fn reported_version_is_cut_to_sixteen_bits() {
    let action = handle_patch_request(&provider(), 3, &request(65536 + 1));
    assert_eq!(
        action,
        SessionAction::Measure(vec![resolved("a.txt", 2), resolved("b.txt", 3)])
    );
    let action = handle_patch_request(&provider(), 5, &request(65536 + 5));
    assert_eq!(action, SessionAction::Measure(Vec::new()));
}

#[test]
fn keep_alive_is_not_answered() {
    let action = handle_message(&provider(), 3, &PatchProtocol::KeepAlive(KeepAlive));
    assert_eq!(action, SessionAction::Listen);
}

#[test]
fn identity_is_answered_with_the_gateways_own() {
    let asked = IdentityInformation { module_name: "SR_Client".to_string(), locality: 0 };
    let action = handle_message(&provider(), 3, &PatchProtocol::IdentityInformation(asked));
    assert_eq!(
        action,
        SessionAction::Send(Reply::Identity(IdentityInformation {
            module_name: "GatewayServer".to_string(),
            locality: 0x12,
        }))
    );
    assert_eq!(GATEWAY_LOCALITY, 0x12);
}

#[test]
fn notices_are_answered_with_an_empty_list() {
    let asked = GatewayNoticeRequest { unknown: 4 };
    let action = handle_message(&provider(), 3, &PatchProtocol::GatewayNoticeRequest(asked));
    assert_eq!(
        action,
        SessionAction::Send(Reply::Notices(GatewayNoticeResponse { notices: Vec::new() }))
    );
}

#[test]
fn update_lists_every_file_with_id_name_path_size_and_archive_mark() {
    let provider = provider();
    let files = vec![
        MeasuredFile { file: resolved("a.txt", 2), size: 10 },
        MeasuredFile { file: resolved("Data/c.pk2", 5), size: 4_000_000_000 },
        MeasuredFile { file: resolved("x/y/z", 65535), size: 0 },
    ];
    let response = update_response(provider.fileserver(), 5, &files);
    let expected = PatchResponse {
        result: PatchResult::Problem {
            error: PatchError::Update {
                server_ip: "10.0.0.7".to_string(),
                server_port: 80,
                current_version: 5,
                patch_files: vec![
                    PatchFile {
                        file_id: 0,
                        filename: "a.txt".to_string(),
                        file_path: "/patches/2/a.txt".to_string(),
                        size: 10,
                        in_pk2: false,
                    },
                    PatchFile {
                        file_id: 1,
                        filename: "c.pk2".to_string(),
                        file_path: "/patches/5/Data/c.pk2".to_string(),
                        size: 4_000_000_000,
                        in_pk2: true,
                    },
                    PatchFile {
                        file_id: 2,
                        filename: "z".to_string(),
                        file_path: "/patches/65535/x/y/z".to_string(),
                        size: 0,
                        in_pk2: true,
                    },
                ],
                http_server: "files.example".to_string(),
            },
        },
    };
    assert_eq!(response, expected);
    assert_eq!(DOWNLOAD_PORT, 80);
}

#[test]
fn update_without_files_is_still_an_update() {
    let server = PatchFileserver::new("1.2.3.4".to_string(), "h".to_string(), "".to_string());
    let response = update_response(&server, 65535, &Vec::new());
    assert_eq!(
        response,
        PatchResponse {
            result: PatchResult::Problem {
                error: PatchError::Update {
                    server_ip: "1.2.3.4".to_string(),
                    server_port: 80,
                    current_version: 65535,
                    patch_files: Vec::new(),
                    http_server: "h".to_string(),
                },
            },
        }
    );
}

#[test]
fn session_starts_with_the_handshake() {
    let session = Session::new(7);
    assert_eq!(session.state(), SessionState::Handshaking);
    assert_eq!(session.target_version(), 7);
}

#[test]
fn completed_handshake_starts_the_service() {
    let mut session = Session::new(7);
    let action = session.on_event(&provider(), SessionEvent::HandshakeCompleted);
    assert_eq!(action, SessionAction::Listen);
    assert_eq!(session.state(), SessionState::Serving);
    assert_eq!(session.target_version(), 7);
}

#[test]
fn failed_handshake_closes_the_session() {
    let mut session = Session::new(7);
    assert_eq!(session.on_event(&provider(), SessionEvent::HandshakeFailed), SessionAction::Close);
    assert_eq!(session.state(), SessionState::Closed);
}

#[test]
fn anything_but_its_completion_ends_a_handshake() {
    let events = vec![
        SessionEvent::HandshakeFailed,
        SessionEvent::Received(PatchProtocol::KeepAlive(KeepAlive)),
        SessionEvent::StreamEnded,
        SessionEvent::Cancelled,
    ];
    for event in events {
        let mut session = Session::new(1);
        assert_eq!(session.on_event(&provider(), event), SessionAction::Close);
        assert_eq!(session.state(), SessionState::Closed);
    }
}

#[test]
fn messages_are_served_one_after_the_other() {
    let provider = provider();
    let mut session = serving(3);
    let keep_alive = SessionEvent::Received(PatchProtocol::KeepAlive(KeepAlive));
    assert_eq!(session.on_event(&provider, keep_alive), SessionAction::Listen);
    assert_eq!(session.state(), SessionState::Serving);
    let behind = SessionEvent::Received(PatchProtocol::PatchRequest(request(2)));
    assert_eq!(
        session.on_event(&provider, behind),
        SessionAction::Measure(vec![resolved("b.txt", 3)])
    );
    assert_eq!(session.state(), SessionState::Serving);
    let current = SessionEvent::Received(PatchProtocol::PatchRequest(request(3)));
    assert_eq!(session.on_event(&provider, current), up_to_date_reply());
    assert_eq!(session.state(), SessionState::Serving);
}

#[test]
fn end_of_stream_closes_a_serving_session() {
    let mut session = serving(3);
    assert_eq!(session.on_event(&provider(), SessionEvent::StreamEnded), SessionAction::Close);
    assert_eq!(session.state(), SessionState::Closed);
}

#[test]
fn handshake_events_close_a_serving_session() {
    for event in [SessionEvent::HandshakeCompleted, SessionEvent::HandshakeFailed] {
        let mut session = serving(3);
        assert_eq!(session.on_event(&provider(), event), SessionAction::Close);
        assert_eq!(session.state(), SessionState::Closed);
    }
}

#[test]
fn closed_session_stays_closed() {
    let provider = provider();
    let mut session = serving(3);
    session.on_event(&provider, SessionEvent::Cancelled);
    let events = vec![
        SessionEvent::HandshakeCompleted,
        SessionEvent::HandshakeFailed,
        SessionEvent::Received(PatchProtocol::PatchRequest(request(3))),
        SessionEvent::Received(PatchProtocol::KeepAlive(KeepAlive)),
        SessionEvent::StreamEnded,
        SessionEvent::Cancelled,
    ];
    for event in events {
        assert_eq!(session.on_event(&provider, event), SessionAction::Close);
        assert_eq!(session.state(), SessionState::Closed);
        assert_eq!(session.target_version(), 3);
    }
}

#[test]
fn cancellation_ends_every_waiting_session() {
    let provider = provider();
    let mut sessions = vec![serving(1), serving(3), serving(3)];
    for session in sessions.iter() {
        assert_eq!(session.state(), SessionState::Serving);
    }
    for session in sessions.iter_mut() {
        assert_eq!(session.on_event(&provider, SessionEvent::Cancelled), SessionAction::Close);
    }
    for session in sessions.iter() {
        assert_eq!(session.state(), SessionState::Closed);
    }
}
