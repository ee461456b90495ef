//! Records of offers, and what a store reports of them.
use vstd::prelude::*;

use crate::ids::{DeviceId, OfferId};
use crate::offer::{CardAvailability, OfferDescriptor};
use crate::source_plan::OfferSource;
use crate::text::{byte_len, byte_length, join2, opt_view};

verus! {

/// The most bytes that the detail of an attempt takes.
pub const MAX_OFFER_ATTEMPT_DETAIL_BYTES: usize = 256;

/// A store could not do what was asked.
#[derive(Debug)]
pub struct StoreError {
    message: String,
}

impl View for StoreError {
    type V = Seq<char>;

    closed spec fn view(&self) -> Seq<char> {
        self.message@
    }
}

impl StoreError {
    #[must_use]
    pub fn new(message: &str) -> (r: Self)
        ensures
            r@ == message@,
    {
        StoreError { message: message.to_owned() }
    }

    #[must_use]
    pub fn message(&self) -> (r: &str)
        ensures
            r@ == self@,
    {
        self.message.as_str()
    }

    /// The message shown for the error.
    #[must_use]
    pub fn describe(&self) -> (r: String)
        ensures
            r@ == "store error: "@ + self@,
    {
        join2("store error: ", self.message.as_str())
    }
}

/// How an attempt to fetch an offer ended.
#[derive(Debug, Clone, Copy, PartialEq, Eq, Structural)]
pub enum OfferAttemptCode {
    Completed,
    SourceUnavailable,
    SourceChanged,
    Busy,
    Cancelled,
    ClipboardFailed,
    VerificationFailed,
    UncertainNoReplay,
    Failed,
}

/// The last attempt to fetch an offer; `S` is the type of its detail.
#[derive(Debug)]
pub struct OfferAttemptStatus<S = String> {
    pub code: OfferAttemptCode,
    pub attempt_sequence: u64,
    pub files_processed: u32,
    pub bytes_processed: u64,
    pub detail: Option<S>,
}

impl View for OfferAttemptStatus<String> {
    type V = OfferAttemptStatus<Seq<char>>;

    open spec fn view(&self) -> OfferAttemptStatus<Seq<char>> {
        OfferAttemptStatus {
            code: self.code,
            attempt_sequence: self.attempt_sequence,
            files_processed: self.files_processed,
            bytes_processed: self.bytes_processed,
            detail: opt_view(self.detail),
        }
    }
}

/// Whether a detail is too long to be recorded.
pub open spec fn detail_too_large(detail: Option<Seq<char>>) -> bool {
    detail matches Some(d) && byte_len(d) > MAX_OFFER_ATTEMPT_DETAIL_BYTES
}

impl OfferAttemptStatus {
    /// A status with a bounded detail.
    pub fn new(
        code: OfferAttemptCode,
        attempt_sequence: u64,
        files_processed: u32,
        bytes_processed: u64,
        detail: Option<String>,
    ) -> (r: Result<Self, StoreError>)
        ensures
            r is Err <==> detail_too_large(opt_view(detail)),
            r matches Err(e) ==> e@ == "offer attempt detail is too large"@,
            r matches Ok(status) ==> status@ == (OfferAttemptStatus {
                code,
                attempt_sequence,
                files_processed,
                bytes_processed,
                detail: opt_view(detail),
            }),
    {
        if let Some(text) = &detail {
            if byte_length(text.as_str()) > MAX_OFFER_ATTEMPT_DETAIL_BYTES {
                return Err(StoreError::new("offer attempt detail is too large"));
            }
        }
        Ok(
            OfferAttemptStatus {
                code,
                attempt_sequence,
                files_processed,
                bytes_processed,
                detail,
            },
        )
    }
}

/// A card of the shelf: what a peer offers.
#[derive(Debug)]
pub struct OfferCardRecord {
    pub source_device: DeviceId,
    pub offer_id: OfferId,
    pub descriptor: OfferDescriptor,
    pub received_sequence: u64,
    pub availability: CardAvailability,
    pub last_attempt: Option<OfferAttemptStatus>,
}

/// A card that is to be stored.
#[derive(Debug)]
pub struct OfferCardInput {
    pub source_device: DeviceId,
    pub offer_id: OfferId,
    pub descriptor: OfferDescriptor,
    pub availability: CardAvailability,
}

impl OfferCardInput {
    #[must_use]
    pub fn new(
        source_device: DeviceId,
        offer_id: OfferId,
        descriptor: OfferDescriptor,
        availability: CardAvailability,
    ) -> (r: Self)
        ensures
            r.source_device == source_device,
            r.offer_id == offer_id,
            r.descriptor == descriptor,
            r.availability == availability,
    {
        OfferCardInput { source_device, offer_id, descriptor, availability }
    }

    /// Checks the descriptor of the card.
    pub fn validate(&self) -> (r: Result<(), StoreError>)
        ensures
            match self.descriptor@.check() {
                Ok(()) => r is Ok,
                Err(error) => r matches Err(e) && e@ == error.message(),
            },
    {
        match self.descriptor.validate() {
            Ok(()) => Ok(()),
            Err(error) => Err(StoreError::new(error.describe().as_str())),
        }
    }
}

/// What became of a card that was to be stored.
#[derive(Debug)]
pub struct OfferCardInsert {
    pub record: OfferCardRecord,
    pub inserted: bool,
    pub purged: u32,
}

/// An offer of this device.
#[derive(Debug)]
pub struct OfferSourceRecord {
    pub offer_id: OfferId,
    pub descriptor: OfferDescriptor,
    pub creation_sequence: u64,
    pub announced_to: Vec<DeviceId>,
    pub source: OfferSource,
}

/// An offer that is to be stored.
#[derive(Debug)]
pub struct OfferSourceInput {
    pub offer_id: OfferId,
    pub descriptor: OfferDescriptor,
    pub announced_to: Vec<DeviceId>,
    pub source: OfferSource,
}

impl OfferSourceInput {
    #[must_use]
    pub fn new(
        offer_id: OfferId,
        descriptor: OfferDescriptor,
        announced_to: Vec<DeviceId>,
        source: OfferSource,
    ) -> (r: Self)
        ensures
            r.offer_id == offer_id,
            r.descriptor == descriptor,
            r.announced_to == announced_to,
            r.source == source,
    {
        OfferSourceInput { offer_id, descriptor, announced_to, source }
    }

    /// Checks the descriptor of the offer, and then takes what the check of its
    /// source against the descriptor said.
    pub fn validate(&self, source_check: Result<(), String>) -> (r: Result<(), StoreError>)
        ensures
            match (self.descriptor@.check(), source_check) {
                (Err(error), _) => r matches Err(e) && e@ == error.message(),
                (Ok(()), Err(text)) => r matches Err(e) && e@ == text@,
                (Ok(()), Ok(())) => r is Ok,
            },
    {
        match self.descriptor.validate() {
            Err(error) => Err(StoreError::new(error.describe().as_str())),
            Ok(()) => match source_check {
                Err(text) => Err(StoreError::new(text.as_str())),
                Ok(()) => Ok(()),
            },
        }
    }
}

/// What became of an offer that was to be stored.
#[derive(Debug)]
pub struct OfferSourceInsert {
    pub record: OfferSourceRecord,
    pub inserted: bool,
    pub purged: u32,
}

/// What became of an offer that a peer does not want.
#[derive(Debug, Clone, Copy, PartialEq, Eq, Structural)]
pub struct OfferEligibilityUpdate {
    pub recipient_was_eligible: bool,
    pub offer_deleted: bool,
    pub remaining_recipients: u32,
}

/// Keeps the offers of this device.
pub trait OfferSourceStore {
    fn insert_offer_source(&mut self, input: OfferSourceInput) -> Result<
        OfferSourceInsert,
        StoreError,
    >;

    fn remove_explicit_refusal(&mut self, offer_id: OfferId, recipient: DeviceId) -> Result<
        OfferEligibilityUpdate,
        StoreError,
    >;

    fn get_offer_source(&self, offer_id: OfferId) -> Result<Option<OfferSourceRecord>, StoreError>;
}

/// Keeps the cards of the peers.
pub trait OfferCardStore {
    fn get_offer_card(&self, source_device: DeviceId, offer_id: OfferId) -> Result<
        Option<OfferCardRecord>,
        StoreError,
    >;

    fn read_offer_shelf(&self) -> Result<Vec<OfferCardRecord>, StoreError>;

    fn insert_offer_card(&mut self, input: OfferCardInput) -> Result<OfferCardInsert, StoreError>;
}

/// What startup cleanup did.
#[derive(Debug, Clone, Copy, PartialEq, Eq, Structural)]
pub struct CleanupReport {
    pub journaled_entries: u32,
    pub removed_entries: u32,
}

impl Default for CleanupReport {
    fn default() -> (r: Self)
        ensures
            r == (CleanupReport { journaled_entries: 0, removed_entries: 0 }),
    {
        CleanupReport { journaled_entries: 0, removed_entries: 0 }
    }
}

/// What a migration of an older store did.
#[derive(Debug, Clone, Copy, PartialEq, Eq, Structural)]
pub struct MigrationReport {
    pub v1_body_records_removed: u64,
    pub partials_directory_removed: bool,
    pub completion_markers_removed: u64,
}

impl Default for MigrationReport {
    fn default() -> (r: Self)
        ensures
            r == (MigrationReport {
                v1_body_records_removed: 0,
                partials_directory_removed: false,
                completion_markers_removed: 0,
            }),
    {
        MigrationReport {
            v1_body_records_removed: 0,
            partials_directory_removed: false,
            completion_markers_removed: 0,
        }
    }
}

} // verus!
