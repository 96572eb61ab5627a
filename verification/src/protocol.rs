//! The messages that a client and the gateway exchange.
//!
//! The records here are plain values. How they are laid out in bytes is the
//! business of the packet codec; what the codec needs from this side, the
//! opcode of each message and the tag of each variant, is given here.

use vstd::prelude::*;

verus! {

/// A liveness signal, sent by either side. It carries nothing and is never answered.
#[derive(Clone, Copy, Debug, PartialEq, Eq)]
pub struct KeepAlive;

/// Who a peer is. A client sends it to ask, the gateway answers with its own.
#[derive(Clone, Debug, PartialEq, Eq)]
pub struct IdentityInformation {
    pub module_name: String,
    pub locality: u8,
}

/// A client's request for the gateway's notices.
#[derive(Clone, Debug, PartialEq, Eq)]
pub struct GatewayNoticeRequest {
    pub unknown: u8,
}

/// The gateway's notices, as a list that is sent with its length in front.
#[derive(Clone, Debug, PartialEq, Eq)]
pub struct GatewayNoticeResponse {
    pub notices: Vec<GatewayNotice>,
}

/// One notice. `published` is a point in time in UTC, counted in milliseconds
/// from the start of 1970.
#[derive(Clone, Debug, PartialEq, Eq)]
pub struct GatewayNotice {
    pub subject: String,
    pub article: String,
    pub published: i64,
}

/// A client's request to be told what it must download; `version` is the
/// version the client has.
#[derive(Clone, Debug, PartialEq, Eq)]
pub struct PatchRequest {
    pub content: u8,
    pub module: String,
    pub version: u32,
}

/// The gateway's answer to a [`PatchRequest`].
#[derive(Clone, Debug, PartialEq, Eq)]
pub struct PatchResponse {
    pub result: PatchResult,
}

/// Whether the client is up to date.
#[derive(Clone, Debug, PartialEq, Eq)]
pub enum PatchResult {
    UpToDate { unknown: u8 },
    Problem { error: PatchError },
}

/// Why the client is not up to date. All of these are ordinary answers.
#[derive(Clone, Debug, PartialEq, Eq)]
pub enum PatchError {
    InvalidVersion,
    /// The client must download `patch_files`, which are sent one after the
    /// other, each followed by a mark that tells whether another follows.
    Update {
        server_ip: String,
        server_port: u16,
        current_version: u32,
        patch_files: Vec<PatchFile>,
        http_server: String,
    },
    Offline,
    InvalidClient,
    PatchDisabled,
}

/// One file of an update.
#[derive(Clone, Debug, PartialEq, Eq)]
pub struct PatchFile {
    pub file_id: u32,
    pub filename: String,
    pub file_path: String,
    pub size: u32,
    pub in_pk2: bool,
}

/// What contracts see of a [`PatchFile`].
pub struct PatchFileModel {
    pub file_id: u32,
    pub filename: Seq<char>,
    pub file_path: Seq<char>,
    pub size: u32,
    pub in_pk2: bool,
}

impl View for PatchFile {
    type V = PatchFileModel;

    open spec fn view(&self) -> PatchFileModel {
        PatchFileModel {
            file_id: self.file_id,
            filename: self.filename@,
            file_path: self.file_path@,
            size: self.size,
            in_pk2: self.in_pk2,
        }
    }
}

/// The models of a list of patch files, in the same order.
pub open spec fn patch_files_of(files: Seq<PatchFile>) -> Seq<PatchFileModel> {
    Seq::new(files.len(), |i: int| files[i]@)
}

/// A message that the gateway accepts from a client.
#[derive(Clone, Debug, PartialEq, Eq)]
pub enum PatchProtocol {
    KeepAlive(KeepAlive),
    PatchRequest(PatchRequest),
    IdentityInformation(IdentityInformation),
    GatewayNoticeRequest(GatewayNoticeRequest),
}

/// A message that the gateway sends to a client.
#[derive(Clone, Debug, PartialEq, Eq)]
pub enum Reply {
    Identity(IdentityInformation),
    Notices(GatewayNoticeResponse),
    Patch(PatchResponse),
}

/// The opcode of a keep-alive.
pub const KEEP_ALIVE: u16 = 0x2002;

/// The opcode of an identity record, asked for or given.
pub const IDENTITY_INFORMATION: u16 = 0x2001;

/// The opcode of a request for the notices.
pub const GATEWAY_NOTICE_REQUEST: u16 = 0x6104;

/// The opcode of the notices.
pub const GATEWAY_NOTICE_RESPONSE: u16 = 0xA104;

/// The opcode of a patch request.
pub const PATCH_REQUEST: u16 = 0x6100;

/// The opcode of the answer to a patch request.
pub const PATCH_RESPONSE: u16 = 0xA100;

impl PatchProtocol {
    /// The opcode under which this message travels.
    pub fn opcode(&self) -> (opcode: u16)
        ensures
            opcode == match self {
                PatchProtocol::KeepAlive(_) => KEEP_ALIVE,
                PatchProtocol::PatchRequest(_) => PATCH_REQUEST,
                PatchProtocol::IdentityInformation(_) => IDENTITY_INFORMATION,
                PatchProtocol::GatewayNoticeRequest(_) => GATEWAY_NOTICE_REQUEST,
            },
    {
        match self {
            PatchProtocol::KeepAlive(_) => KEEP_ALIVE,
            PatchProtocol::PatchRequest(_) => PATCH_REQUEST,
            PatchProtocol::IdentityInformation(_) => IDENTITY_INFORMATION,
            PatchProtocol::GatewayNoticeRequest(_) => GATEWAY_NOTICE_REQUEST,
        }
    }
}

impl Reply {
    /// The opcode under which this message travels.
    pub fn opcode(&self) -> (opcode: u16)
        ensures
            opcode == match self {
                Reply::Identity(_) => IDENTITY_INFORMATION,
                Reply::Notices(_) => GATEWAY_NOTICE_RESPONSE,
                Reply::Patch(_) => PATCH_RESPONSE,
            },
    {
        match self {
            Reply::Identity(_) => IDENTITY_INFORMATION,
            Reply::Notices(_) => GATEWAY_NOTICE_RESPONSE,
            Reply::Patch(_) => PATCH_RESPONSE,
        }
    }
}

impl PatchResult {
    /// The number that marks this variant on the wire.
    pub fn tag(&self) -> (tag: u8)
        ensures
            tag == match self {
                PatchResult::UpToDate { .. } => 1u8,
                PatchResult::Problem { .. } => 2u8,
            },
    {
        match self {
            PatchResult::UpToDate { .. } => 1,
            PatchResult::Problem { .. } => 2,
        }
    }
}

impl PatchError {
    /// The number that marks this variant on the wire.
    pub fn tag(&self) -> (tag: u8)
        ensures
            tag == match self {
                PatchError::InvalidVersion => 1u8,
                PatchError::Update { .. } => 2u8,
                PatchError::Offline => 3u8,
                PatchError::InvalidClient => 4u8,
                PatchError::PatchDisabled => 5u8,
            },
    {
        match self {
            PatchError::InvalidVersion => 1,
            PatchError::Update { .. } => 2,
            PatchError::Offline => 3,
            PatchError::InvalidClient => 4,
            PatchError::PatchDisabled => 5,
        }
    }
}

} // verus!
