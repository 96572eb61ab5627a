//! One client connection: what the gateway does at each step of its life.
//!
//! A session starts with the handshake that secures the transport, then
//! serves the client's messages in the order in which they arrive, and is
//! closed when the stream ends, a message cannot be decoded or the session is
//! cancelled. The functions here decide; the caller performs what they
//! decide and reports what happened next.

use crate::catalog::{resolution, resolved_of, PatchModel, ResolvedFile, ResolvedModel};
use crate::protocol::{
    patch_files_of, GatewayNoticeResponse, IdentityInformation, PatchError, PatchFile,
    PatchFileModel, PatchProtocol, PatchRequest, PatchResponse, PatchResult, Reply,
};
use crate::provider::{PatchFileserver, PatchProvider};
use crate::text::{
    download_path, download_path_of, file_name, file_name_of, has_directory, in_directory,
};
use vstd::prelude::*;
use vstd::string::*;

verus! {

/// The port of the download host that clients are sent to.
pub const DOWNLOAD_PORT: u16 = 80;

/// The locality that the gateway reports of itself.
pub const GATEWAY_LOCALITY: u8 = 0x12;

/// The module name that the gateway reports of itself.
pub open spec fn gateway_name() -> Seq<char> {
    "GatewayServer"@
}

/// Where a session stands.
#[derive(Clone, Copy, Debug, PartialEq, Eq, Structural)]
pub enum SessionState {
    /// The transport is being secured.
    Handshaking,
    /// Messages are read and answered.
    Serving,
    /// The connection is given up. Nothing follows.
    Closed,
}

/// What happened on a session's connection.
#[derive(Clone, Debug, PartialEq, Eq)]
pub enum SessionEvent {
    /// The handshake has secured the transport.
    HandshakeCompleted,
    /// The handshake has failed.
    HandshakeFailed,
    /// The next message of the client has been decoded.
    Received(PatchProtocol),
    /// The stream has ended, or what came could not be decoded.
    StreamEnded,
    /// The session's cancellation scope has fired.
    Cancelled,
}

/// What the caller does next on a session's connection.
#[derive(Clone, Debug, PartialEq, Eq)]
pub enum SessionAction {
    /// Wait for the next message or for cancellation, whichever comes first.
    Listen,
    /// Send this message, then wait as for `Listen`.
    Send(Reply),
    /// Look up the size of each of these files in the patch directory, let
    /// [`update_response`] build the answer, send it, then wait as for `Listen`.
    Measure(Vec<ResolvedFile>),
    /// Tear the connection down.
    Close,
}

/// A file that a client must install, with its size in bytes.
#[derive(Clone, Debug, PartialEq, Eq)]
pub struct MeasuredFile {
    pub file: ResolvedFile,
    pub size: u32,
}

/// What contracts see of a [`MeasuredFile`].
pub struct MeasuredModel {
    pub file: ResolvedModel,
    pub size: u32,
}

impl View for MeasuredFile {
    type V = MeasuredModel;

    open spec fn view(&self) -> MeasuredModel {
        MeasuredModel { file: self.file@, size: self.size }
    }
}

/// The models of a list of measured files, in the same order.
pub open spec fn measured_of(files: Seq<MeasuredFile>) -> Seq<MeasuredModel> {
    Seq::new(files.len(), |i: int| files[i]@)
}

/// The version that a client's request reports, cut to the width of a
/// catalog version: its low 16 bits.
pub open spec fn reported_version(version: u32) -> u16 {
    (version % 0x1_0000) as u16
}

/// The entry of an update for the file at position `index` of the files to install.
///
/// Its identifier is the position, cut to 32 bits; its name is the bare file
/// name; its path is where the download host serves it; and it is marked as
/// lying in an archive exactly when its relative path names a directory.
pub open spec fn update_entry(
    base_path: Seq<char>,
    index: int,
    file: MeasuredModel,
) -> PatchFileModel {
    PatchFileModel {
        file_id: (index % 0x1_0000_0000) as u32,
        filename: file_name_of(file.file.file),
        file_path: download_path_of(base_path, file.file.source_version, file.file.file),
        size: file.size,
        in_pk2: has_directory(file.file.file),
    }
}

/// The entries of an update, one per file to install and in the same order.
pub open spec fn update_entries(base_path: Seq<char>, files: Seq<MeasuredModel>) -> Seq<
    PatchFileModel,
> {
    Seq::new(files.len(), |i: int| update_entry(base_path, i, files[i]))
}

/// True when `action` is what a serving session for `target` does on `message`.
///
/// A keep-alive is not answered. A request for the identity is answered with
/// the gateway's own, a request for the notices with an empty list. A patch
/// request from a client that has the target version is answered with "up to
/// date"; from any other client it asks for the sizes of the files that the
/// client needs to reach the target.
pub open spec fn answers(
    catalog: Seq<PatchModel>,
    target: u16,
    message: PatchProtocol,
    action: SessionAction,
) -> bool {
    match message {
        PatchProtocol::KeepAlive(_) => action is Listen,
        PatchProtocol::IdentityInformation(_) => {
            &&& action matches SessionAction::Send(Reply::Identity(identity))
            &&& identity.module_name@ == gateway_name()
            &&& identity.locality == GATEWAY_LOCALITY
        },
        PatchProtocol::GatewayNoticeRequest(_) => {
            &&& action matches SessionAction::Send(Reply::Notices(response))
            &&& response.notices@.len() == 0
        },
        PatchProtocol::PatchRequest(request) => if request.version == target {
            action == SessionAction::Send(
                Reply::Patch(PatchResponse { result: PatchResult::UpToDate { unknown: 0 } }),
            )
        } else {
            &&& action matches SessionAction::Measure(files)
            &&& resolved_of(files@) == resolution(
                catalog,
                reported_version(request.version),
                target,
            )
        },
    }
}

/// The state that follows `state` on `event`.
///
/// The handshake leads to serving when it completes; a message leaves a
/// serving session serving; anything else closes the session, and a closed
/// session stays closed.
pub open spec fn next_state(state: SessionState, event: SessionEvent) -> SessionState {
    match (state, event) {
        (SessionState::Handshaking, SessionEvent::HandshakeCompleted) => SessionState::Serving,
        (SessionState::Serving, SessionEvent::Received(_)) => SessionState::Serving,
        _ => SessionState::Closed,
    }
}

/// The state of a session that started in `state` after `events`, in their order.
pub open spec fn session_after(state: SessionState, events: Seq<SessionEvent>) -> SessionState
    decreases events.len(),
{
    if events.len() == 0 {
        state
    } else {
        next_state(session_after(state, events.drop_last()), events.last())
    }
}

/// Cancellation closes a session, whatever its state.
pub proof fn cancellation_closes_every_session(state: SessionState)
    ensures
        next_state(state, SessionEvent::Cancelled) == SessionState::Closed,
{
}

/// A closed session stays closed, whatever happens later.
pub proof fn closed_session_stays_closed(events: Seq<SessionEvent>)
    ensures
        session_after(SessionState::Closed, events) == SessionState::Closed,
    decreases events.len(),
{
    if events.len() > 0 {
        closed_session_stays_closed(events.drop_last());
    }
}

/// True when `response` tells a client to download `files` from `server` to reach `target`.
pub open spec fn is_update(
    response: PatchResponse,
    server: crate::provider::FileserverModel,
    target: u16,
    files: Seq<MeasuredModel>,
) -> bool {
    &&& response.result matches PatchResult::Problem {
        error: PatchError::Update {
            server_ip,
            server_port,
            current_version,
            patch_files,
            http_server,
        },
    }
    &&& server_ip@ == server.ip
    &&& server_port == DOWNLOAD_PORT
    &&& current_version == target
    &&& patch_files_of(patch_files@) == update_entries(server.base_path, files)
    &&& http_server@ == server.host
}

/// The answer to a client that has the target version.
pub fn up_to_date() -> (response: PatchResponse)
    ensures
        response == (PatchResponse { result: PatchResult::UpToDate { unknown: 0 } }),
{
    PatchResponse { result: PatchResult::UpToDate { unknown: 0 } }
}

/// What a serving session for `target_version` does on a patch request.
pub fn handle_patch_request(
    provider: &PatchProvider,
    target_version: u16,
    request: &PatchRequest,
) -> (action: SessionAction)
    ensures
        answers(
            provider.catalog(),
            target_version,
            PatchProtocol::PatchRequest(*request),
            action,
        ),
        request.version == target_version ==> action == SessionAction::Send(
            Reply::Patch(PatchResponse { result: PatchResult::UpToDate { unknown: 0 } }),
        ),
{
    if request.version == target_version as u32 {
        SessionAction::Send(Reply::Patch(up_to_date()))
    } else {
        let current: u16 = (request.version % 0x1_0000) as u16;
        SessionAction::Measure(provider.collect_necessary_files(current, target_version))
    }
}

/// What a serving session for `target_version` does on a message.
pub fn handle_message(
    provider: &PatchProvider,
    target_version: u16,
    message: &PatchProtocol,
) -> (action: SessionAction)
    ensures
        answers(provider.catalog(), target_version, *message, action),
{
    match message {
        PatchProtocol::KeepAlive(_) => SessionAction::Listen,
        PatchProtocol::PatchRequest(request) => handle_patch_request(
            provider,
            target_version,
            request,
        ),
        PatchProtocol::IdentityInformation(_) => SessionAction::Send(
            Reply::Identity(
                IdentityInformation {
                    module_name: "GatewayServer".to_owned(),
                    locality: GATEWAY_LOCALITY,
                },
            ),
        ),
        PatchProtocol::GatewayNoticeRequest(_) => SessionAction::Send(
            Reply::Notices(GatewayNoticeResponse { notices: Vec::new() }),
        ),
    }
}

/// The answer that tells a client to download `files`, whose sizes have been
/// looked up, from `fileserver` in order to reach `target_version`.
pub fn update_response(
    fileserver: &PatchFileserver,
    target_version: u16,
    files: &Vec<MeasuredFile>,
) -> (response: PatchResponse)
    ensures
        is_update(response, fileserver@, target_version, measured_of(files@)),
{
    let ghost base = fileserver@.base_path;
    let mut patch_files: Vec<PatchFile> = Vec::new();
    let mut i: usize = 0;
    while i < files.len()
        invariant
            i <= files.len(),
            base == fileserver@.base_path,
            patch_files@.len() == i,
            forall|k: int|
                0 <= k < i ==> (#[trigger] patch_files@[k])@ == update_entry(
                    base,
                    k,
                    measured_of(files@)[k],
                ),
        decreases files.len() - i,
    {
        let measured: &MeasuredFile = &files[i];
        let path: &str = measured.file.file.as_str();
        let entry = PatchFile {
            file_id: (i as u64 % 0x1_0000_0000) as u32,
            filename: file_name(path),
            file_path: download_path(
                fileserver.base_path(),
                measured.file.source_version,
                path,
            ),
            size: measured.size,
            in_pk2: in_directory(path),
        };
        patch_files.push(entry);
        i += 1;
    }
    assert(patch_files_of(patch_files@) =~= update_entries(base, measured_of(files@)));
    PatchResponse {
        result: PatchResult::Problem {
            error: PatchError::Update {
                server_ip: fileserver.ip().to_owned(),
                server_port: DOWNLOAD_PORT,
                current_version: target_version as u32,
                patch_files,
                http_server: fileserver.host().to_owned(),
            },
        },
    }
}

/// The decisions of one client connection to the endpoint of one target version.
pub struct Session {
    target_version: u16,
    state: SessionState,
}

impl Session {
    /// The version that the session's endpoint stands for.
    pub closed spec fn target(&self) -> u16 {
        self.target_version
    }

    /// Where the session stands.
    pub closed spec fn current(&self) -> SessionState {
        self.state
    }

    /// A session for a connection that the endpoint of `target_version` has
    /// accepted, before its handshake.
    pub fn new(target_version: u16) -> (session: Session)
        ensures
            session.target() == target_version,
            session.current() == SessionState::Handshaking,
    {
        Session { target_version, state: SessionState::Handshaking }
    }

    /// The version that the session's endpoint stands for.
    pub fn target_version(&self) -> (version: u16)
        ensures
            version == self.target(),
    {
        self.target_version
    }

    /// Where the session stands.
    pub fn state(&self) -> (state: SessionState)
        ensures
            state == self.current(),
    {
        self.state
    }

    /// Takes note of what happened on the connection and says what to do next.
    ///
    /// While the transport is secured, its completion starts the service.
    /// While serving, each message is answered as [`answers`] says. Every
    /// other event, cancellation among them, closes the session, whatever
    /// its state, and a closed session asks for nothing but to be torn down.
    pub fn on_event(&mut self, provider: &PatchProvider, event: SessionEvent) -> (action:
        SessionAction)
        ensures
            final(self).target() == old(self).target(),
            final(self).current() == next_state(old(self).current(), event),
            match (old(self).current(), event) {
                (SessionState::Handshaking, SessionEvent::HandshakeCompleted) => action is Listen,
                (SessionState::Serving, SessionEvent::Received(message)) => answers(
                    provider.catalog(),
                    old(self).target(),
                    message,
                    action,
                ),
                _ => action is Close,
            },
    {
        match self.state {
            SessionState::Handshaking => match event {
                SessionEvent::HandshakeCompleted => {
                    self.state = SessionState::Serving;
                    SessionAction::Listen
                },
                _ => {
                    self.state = SessionState::Closed;
                    SessionAction::Close
                },
            },
            SessionState::Serving => match event {
                SessionEvent::Received(message) => handle_message(
                    provider,
                    self.target_version,
                    &message,
                ),
                _ => {
                    self.state = SessionState::Closed;
                    SessionAction::Close
                },
            },
            SessionState::Closed => SessionAction::Close,
        }
    }
}

} // verus!
