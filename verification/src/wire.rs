//! Codes and messages that two devices exchange about an offer.
use vstd::prelude::*;

use crate::ids::{ActivationId, OfferId};
use crate::offer::OfferDescriptor;

verus! {

pub const V2_PROTOCOL_VERSION: u16 = 2;
/// The most live cards that one device keeps.
pub const V2_MAX_LIVE_ENTRIES: u32 = 10;
/// The most payloads that an origin sends at a time.
pub const V2_MAX_ACTIVE_PAYLOAD_STREAMS: u32 = 2;
/// The most connections that a listener serves at a time.
pub const V2_MAX_INBOUND_HANDLERS: u32 = 16;

/// Bounds of the second protocol version.
#[derive(Debug, Clone, Copy, PartialEq, Eq, Structural)]
pub struct V2Limits {
    pub max_file_bytes: u64,
    pub max_transfer_bytes: u64,
    pub max_manifest_entries: u32,
    pub max_manifest_bytes: usize,
    pub max_relative_path_bytes: usize,
    pub max_component_bytes: usize,
    pub stream_buffer_bytes: usize,
}

/// Why an origin refuses a fetch.
#[derive(Debug, Clone, Copy, PartialEq, Eq, Structural)]
pub enum FetchRefusalCode {
    UnknownOffer,
    NotAnnouncedToRequester,
    SourceUnavailable,
    SourceChanged,
    Busy,
    Malformed,
    Unsupported,
}

/// How a receiver answers the header of a fetch.
#[derive(Debug, Clone, Copy, PartialEq, Eq, Structural)]
pub enum FetchAdmissionCode {
    Accepted,
    Cancelled,
    RefusedBusy,
    InvalidManifest,
    TooLarge,
    InsufficientSpace,
    DestinationUnavailable,
    AllocationFailed,
    UnsupportedMode,
}

/// Why an origin breaks off a payload.
#[derive(Debug, Clone, Copy, PartialEq, Eq, Structural)]
pub enum FetchAbortCode {
    Cancelled,
    SourceUnavailable,
    SourceChanged,
    InternalError,
}

/// How a fetch ended at the receiver.
#[derive(Debug, Clone, Copy, PartialEq, Eq, Structural)]
pub enum FetchReceiptCode {
    Completed,
    Cancelled,
    UncertainNoReplay,
    VerificationFailed,
    ClipboardFailed,
    ConnectionLost,
    InternalError,
}

/// What a manifest entry stands for.
#[derive(Debug, Clone, Copy, PartialEq, Eq, Structural)]
pub enum FileEntryKind {
    File,
    Directory,
}

impl FetchAdmissionCode {
    /// The name of the code.
    pub open spec fn name_text(self) -> Seq<char> {
        match self {
            FetchAdmissionCode::Accepted => "Accepted"@,
            FetchAdmissionCode::Cancelled => "Cancelled"@,
            FetchAdmissionCode::RefusedBusy => "RefusedBusy"@,
            FetchAdmissionCode::InvalidManifest => "InvalidManifest"@,
            FetchAdmissionCode::TooLarge => "TooLarge"@,
            FetchAdmissionCode::InsufficientSpace => "InsufficientSpace"@,
            FetchAdmissionCode::DestinationUnavailable => "DestinationUnavailable"@,
            FetchAdmissionCode::AllocationFailed => "AllocationFailed"@,
            FetchAdmissionCode::UnsupportedMode => "UnsupportedMode"@,
        }
    }

    /// The name of the code.
    pub fn name(self) -> (r: &'static str)
        ensures
            r@ == self.name_text(),
    {
        match self {
            FetchAdmissionCode::Accepted => "Accepted",
            FetchAdmissionCode::Cancelled => "Cancelled",
            FetchAdmissionCode::RefusedBusy => "RefusedBusy",
            FetchAdmissionCode::InvalidManifest => "InvalidManifest",
            FetchAdmissionCode::TooLarge => "TooLarge",
            FetchAdmissionCode::InsufficientSpace => "InsufficientSpace",
            FetchAdmissionCode::DestinationUnavailable => "DestinationUnavailable",
            FetchAdmissionCode::AllocationFailed => "AllocationFailed",
            FetchAdmissionCode::UnsupportedMode => "UnsupportedMode",
        }
    }
}

/// One file or directory of an offered tree; a single file has an empty path.
#[derive(Debug)]
pub struct ManifestEntry {
    pub relative_path: String,
    pub kind: FileEntryKind,
    pub byte_len: u64,
}

/// A manifest entry with its path as characters.
pub ghost struct EntryView {
    pub relative_path: Seq<char>,
    pub kind: FileEntryKind,
    pub byte_len: u64,
}

impl View for ManifestEntry {
    type V = EntryView;

    open spec fn view(&self) -> EntryView {
        EntryView {
            relative_path: self.relative_path@,
            kind: self.kind,
            byte_len: self.byte_len,
        }
    }
}

impl Clone for ManifestEntry {
    fn clone(&self) -> (r: Self)
        ensures
            r@ == self@,
    {
        ManifestEntry {
            relative_path: self.relative_path.clone(),
            kind: self.kind,
            byte_len: self.byte_len,
        }
    }
}

/// The views of a list of manifest entries.
pub open spec fn entry_views(v: Seq<ManifestEntry>) -> Seq<EntryView> {
    Seq::new(v.len(), |i: int| v[i]@)
}

/// Announces the content that an origin is about to send.
#[derive(Debug)]
pub struct FetchHeader {
    pub request_id: ActivationId,
    pub offer_id: OfferId,
    pub descriptor: OfferDescriptor,
    pub manifest_entries: u32,
    pub manifest_encoded_bytes: u64,
    pub manifest_sha256: Option<Vec<u8>>,
    pub text_sha256: Option<Vec<u8>>,
}

/// Part of a manifest, from entry `first_index` on.
#[derive(Debug)]
pub struct ManifestChunk {
    pub request_id: ActivationId,
    pub first_index: u32,
    pub entries: Vec<ManifestEntry>,
}

/// Closes a manifest.
#[derive(Debug)]
pub struct ManifestEnd {
    pub request_id: ActivationId,
    pub entry_count: u32,
    pub file_count: u32,
    pub total_bytes: u64,
    pub manifest_sha256: Vec<u8>,
}

/// Refuses a fetch.
#[derive(Debug)]
pub struct FetchRefusal {
    pub request_id: ActivationId,
    pub offer_id: OfferId,
    pub code: FetchRefusalCode,
    pub active_streams: u32,
    pub max_active_streams: u32,
    pub detail: Option<String>,
}

/// Breaks off a payload.
#[derive(Debug, Clone, Copy, PartialEq, Eq, Structural)]
pub struct FetchAbort {
    pub request_id: ActivationId,
    pub code: FetchAbortCode,
    pub files_sent: u32,
    pub bytes_sent: u64,
}

/// Closes a text payload.
#[derive(Debug)]
pub struct TextEnd {
    pub request_id: ActivationId,
    pub sha256: Vec<u8>,
}

/// Opens the payload of one file.
#[derive(Debug, Clone, Copy, PartialEq, Eq, Structural)]
pub struct FileStart {
    pub request_id: ActivationId,
    pub entry_index: u32,
    pub byte_len: u64,
}

/// Closes the payload of one file.
#[derive(Debug)]
pub struct FileEnd {
    pub request_id: ActivationId,
    pub entry_index: u32,
    pub sha256: Vec<u8>,
}

/// Closes the payload of a fetch.
#[derive(Debug)]
pub struct FetchComplete {
    pub request_id: ActivationId,
    pub files_sent: u32,
    pub bytes_sent: u64,
    pub content_set_sha256: Vec<u8>,
}

/// The bytes of an optional digest.
pub open spec fn opt_bytes(o: Option<Vec<u8>>) -> Option<Seq<u8>> {
    match o {
        Some(v) => Some(v@),
        None => None,
    }
}

/// Whether two byte strings are equal.
pub fn same_bytes(a: &Vec<u8>, b: &Vec<u8>) -> (r: bool)
    ensures
        r == (a@ == b@),
{
    if a.len() != b.len() {
        return false;
    }
    let mut i: usize = 0;
    while i < a.len()
        invariant
            i <= a@.len(),
            a@.len() == b@.len(),
            forall|k: int| 0 <= k < i ==> a@[k] == b@[k],
        decreases a@.len() - i,
    {
        if a[i] != b[i] {
            return false;
        }
        i = i + 1;
    }
    assert(a@ =~= b@);
    true
}

} // verus!
