//! Activations, their journal and the clipboard cache index.
use vstd::prelude::*;

use crate::ids::{ActivationId, DeviceId, OfferId};
use crate::path::{opt_path, HostPath, PathView};
use crate::store::StoreError;

verus! {

/// How far an activation has come.
#[derive(Debug, Clone, Copy, PartialEq, Eq, Structural)]
pub enum ActivationState {
    Requested,
    Planning,
    Staging,
    Transferring,
    Verified,
    Publishing,
    ApplyingClipboard,
    Completed,
    Failed,
    Cancelled,
    UncertainNoReplay,
}

impl ActivationState {
    /// The side effect may already have happened, so it must not be replayed.
    pub open spec fn uncertain(self) -> bool {
        self is UncertainNoReplay || self is ApplyingClipboard
    }

    /// The side effect may already have happened.  Startup cleanup keeps such a
    /// journal row, so that no later activation replays it.
    #[must_use]
    pub fn is_uncertain_side_effect(self) -> (r: bool)
        ensures
            r == self.uncertain(),
    {
        matches!(self, ActivationState::UncertainNoReplay | ActivationState::ApplyingClipboard)
    }
}

/// What an activation does with the content.
#[derive(Debug, Clone, Copy, PartialEq, Eq, Structural)]
pub enum ActivationMode {
    Clipboard,
    Save,
}

/// The local action that authorizes one pull.
#[derive(Debug)]
pub struct FetchActivation {
    pub request_id: ActivationId,
    pub source_device: DeviceId,
    pub offer_id: OfferId,
    pub mode: ActivationMode,
    pub destination: Option<HostPath>,
}

/// An activation with its destination as characters.
pub ghost struct FetchActivationView {
    pub request_id: ActivationId,
    pub source_device: DeviceId,
    pub offer_id: OfferId,
    pub mode: ActivationMode,
    pub destination: Option<PathView>,
}

impl View for FetchActivation {
    type V = FetchActivationView;

    open spec fn view(&self) -> FetchActivationView {
        FetchActivationView {
            request_id: self.request_id,
            source_device: self.source_device,
            offer_id: self.offer_id,
            mode: self.mode,
            destination: opt_path(self.destination),
        }
    }
}

impl FetchActivation {
    #[must_use]
    pub fn new(
        request_id: ActivationId,
        source_device: DeviceId,
        offer_id: OfferId,
        mode: ActivationMode,
        destination: Option<HostPath>,
    ) -> (r: Self)
        ensures
            r@ == (FetchActivationView {
                request_id,
                source_device,
                offer_id,
                mode,
                destination: opt_path(destination),
            }),
    {
        FetchActivation { request_id, source_device, offer_id, mode, destination }
    }
}

/// Who owns a staging directory.  The journal holds no content and nothing that
/// would let a transfer resume.
#[derive(Debug)]
pub struct ActivationJournalEntry {
    pub activation_id: ActivationId,
    pub source_device: DeviceId,
    pub offer_id: OfferId,
    pub mode: ActivationMode,
    pub staging_root: HostPath,
    pub state: ActivationState,
    pub reserved_entries: u32,
    pub reserved_bytes: u64,
}

impl ActivationJournalEntry {
    /// Checks that the staging directory is named by an absolute path.
    pub fn validate(&self) -> (r: Result<(), StoreError>)
        ensures
            r is Ok <==> self.staging_root.absolute,
            r is Err ==> r->Err_0@ == "staging root must be absolute"@,
    {
        if !self.staging_root.absolute {
            return Err(StoreError::new("staging root must be absolute"));
        }
        Ok(())
    }
}

#[derive(Debug, Clone, Copy, PartialEq, Eq, Structural)]
pub enum ClipboardCacheState {
    InFlight,
    Completed,
}

/// Where the content on the clipboard is kept.
#[derive(Debug)]
pub struct ClipboardCacheRecord {
    pub activation_id: ActivationId,
    pub state: ClipboardCacheState,
    pub payload_path: HostPath,
}

impl ClipboardCacheRecord {
    /// Checks that the content is named by an absolute path.
    pub fn validate(&self) -> (r: Result<(), StoreError>)
        ensures
            r is Ok <==> self.payload_path.absolute,
            r is Err ==> r->Err_0@ == "clipboard cache path must be absolute"@,
    {
        if !self.payload_path.absolute {
            return Err(StoreError::new("clipboard cache path must be absolute"));
        }
        Ok(())
    }
}

} // verus!
