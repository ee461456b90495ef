//! One activation from admission to its side effect.
//!
//! The receiver is a machine: `action` says what to do next, and `handle` takes
//! the outcome.  Each way in which an activation can end is an `Ending`: what is
//! still owed to the journal, to the record of attempts and to the origin, in a
//! fixed order, before the result is reported.
use vstd::prelude::*;

use crate::activation::{
    ActivationJournalEntry, ActivationMode, ActivationState, FetchActivation, FetchActivationView,
};
use crate::failure::{safe, safe_detail, ReceiveFailure};
use crate::ids::{random_shape, ActivationId, DeviceId, OfferId};
use crate::manifest::{
    counts_of, header_answers, manifest_error, needs_filesystem_reservation, reservation_needed,
    validate_header, validate_manifest, HeaderView, Manifest, PlanCounts,
};
use crate::model::ContentKind;
use crate::net_error::NetError;
use crate::outcome::{classified, classify_activation_result, result_view, ActivationOutcome};
use crate::offer::{DescriptorView, OfferDescriptor};
use crate::path::{clone_opt_path, opt_path, HostPath, PathView};
use crate::payload::{
    begins, files_to_stage, staged_files, PayloadReceive, PayloadStep,
};
use crate::reservation::ReservationError;
use crate::side_effect::{side_start, SideEffect};
use crate::store::{OfferAttemptCode, StoreError};
use crate::text::{clone_opt, decimal, decimal_text, join2, join3, opt_view};
use crate::wire::{
    entry_views, EntryView, FetchAbortCode, FetchAdmissionCode, FetchHeader, FetchReceiptCode,
    FetchRefusalCode, ManifestEntry, V2Limits,
};

verus! {

/// An attempt to be recorded with the card; `S` is the type of its detail.
#[derive(Debug)]
pub struct Attempt<S = String> {
    pub code: OfferAttemptCode,
    pub files: u32,
    pub bytes: u64,
    pub detail: Option<S>,
}

/// A receipt to be sent to the origin; `S` is the type of its detail.
#[derive(Debug)]
pub struct ReceiptNote<S = String> {
    pub code: FetchReceiptCode,
    pub files: u32,
    pub bytes: u64,
    pub detail: Option<S>,
}

/// Whether staging is cleaned up; `S` is the type of the texts.
#[derive(Debug)]
pub enum Cleanup<S = String> {
    /// There is nothing to clean up here.
    Skip,
    /// A failure of the cleanup is the result.
    Plain,
    /// A failure of the cleanup is the result, behind this text.
    Explained(S),
}

/// What is owed before an activation is over, in this order: mark it uncertain,
/// clean up, answer the header, record the attempt, send a receipt, close the
/// stream, and report the error.
#[derive(Debug)]
pub struct Ending<S = String> {
    pub mark_uncertain: bool,
    pub cleanup: Cleanup<S>,
    pub admission: Option<FetchAdmissionCode>,
    pub admission_detail: Option<S>,
    pub attempt: Option<Attempt<S>>,
    pub receipt: Option<ReceiptNote<S>>,
    /// Whether a receipt that cannot be sent replaces the result.
    pub receipt_required: bool,
    pub shutdown: bool,
    /// The result; `None` is success.
    pub error: Option<NetError<S>>,
}

pub open spec fn attempt_view(a: Attempt) -> Attempt<Seq<char>> {
    Attempt { code: a.code, files: a.files, bytes: a.bytes, detail: opt_view(a.detail) }
}

pub open spec fn note_view(n: ReceiptNote) -> ReceiptNote<Seq<char>> {
    ReceiptNote { code: n.code, files: n.files, bytes: n.bytes, detail: opt_view(n.detail) }
}

pub open spec fn cleanup_view(c: Cleanup) -> Cleanup<Seq<char>> {
    match c {
        Cleanup::Skip => Cleanup::Skip,
        Cleanup::Plain => Cleanup::Plain,
        Cleanup::Explained(s) => Cleanup::Explained(s@),
    }
}

pub open spec fn error_view(e: Option<NetError>) -> Option<NetError<Seq<char>>> {
    match e {
        Some(e) => Some(e@),
        None => None,
    }
}

impl View for Ending<String> {
    type V = Ending<Seq<char>>;

    open spec fn view(&self) -> Ending<Seq<char>> {
        Ending {
            mark_uncertain: self.mark_uncertain,
            cleanup: cleanup_view(self.cleanup),
            admission: self.admission,
            admission_detail: opt_view(self.admission_detail),
            attempt: match self.attempt {
                Some(a) => Some(attempt_view(a)),
                None => None,
            },
            receipt: match self.receipt {
                Some(n) => Some(note_view(n)),
                None => None,
            },
            receipt_required: self.receipt_required,
            shutdown: self.shutdown,
            error: error_view(self.error),
        }
    }
}

/// The parts of an ending, in the order in which they are done.
#[derive(Debug, Clone, Copy, PartialEq, Eq, Structural)]
pub enum Stage {
    Mark,
    Cleanup,
    Admission,
    Attempt,
    Receipt,
    Shutdown,
    Guard,
    Done,
}

/// Where a receiver stands.
#[derive(Debug, Clone, Copy, PartialEq, Eq, Structural)]
pub enum Step {
    LoadingCard,
    ReadingHeader,
    ReadingManifest,
    CheckingUncertainty,
    EnsuringDestination,
    CheckingDestination,
    Reserving,
    Journaling,
    Preparing,
    InspectingStaging,
    Admitting,
    MarkingTransferring,
    Transferring,
    MarkingVerified,
    Publishing,
    Applying,
    ClearingStaging,
    MarkingCompleted,
    RecordingCompleted,
    RemovingJournal,
    Ending(Stage),
}

/// Who cleans the staging directory up if the activation just stops.
#[derive(Debug, Clone, Copy, PartialEq, Eq, Structural)]
pub enum Guard {
    /// There is no staging directory yet.
    Inactive,
    /// It is removed when the activation stops.
    Armed,
    /// It stays, for recovery to look at.
    Kept,
    /// It is gone.
    Disarmed,
}

/// How a side effect failed; `S` is the type of the texts.
#[derive(Debug)]
pub enum SideEffectFailure<S = String> {
    /// It did not happen.
    Terminal(NetError<S>),
    /// It may have happened.
    Uncertain(NetError<S>),
}

/// The outcome of an action.
#[allow(inconsistent_fields)]
#[derive(Debug)]
pub enum ReceiveEvent {
    CardLoaded(Result<Option<OfferDescriptor>, String>),
    HeaderRead(Result<FetchHeader, NetError>),
    ManifestRead(Result<Manifest, ReceiveFailure>),
    /// Whether a clipboard is known to be uncertain, and what the store says of it.
    UncertaintyRead { flagged: bool, stored: Result<bool, String> },
    Reserved(Result<(), ReservationError>),
    /// The outcome of a local operation, and whether the activation was cancelled by then.
    Local { result: Result<(), String>, cancelled: bool },
    Sent(Result<(), NetError>),
    Recorded(Result<(), NetError>),
    PayloadReceived { result: Result<(), ReceiveFailure>, cancelled: bool },
    Published(Result<(), NetError>),
    Applied(Result<(), SideEffectFailure>),
    CleanedUp(Result<(), NetError>),
    ShutDown,
    /// The guard has removed staging and journal entry, or failed to.
    GuardDropped { staging_failed: bool, journal_failed: bool },
}

/// What to do next; `S` is the type of the texts.
#[derive(Debug)]
pub enum ReceiveAction<S = String> {
    LoadCard,
    ReadHeader,
    ReadManifest,
    QueryUncertainty,
    EnsureDestination,
    RequireDestination,
    Reserve(u64),
    Journal,
    PrepareStaging,
    InspectStaging,
    WriteAdmission { code: FetchAdmissionCode, entries: u32, bytes: u64, detail: Option<S> },
    UpdateState(ActivationState),
    ReceivePayload,
    Publish,
    ApplySideEffect,
    ClearStaging,
    RemoveJournal,
    RecordAttempt(Attempt<S>),
    SendReceipt(ReceiptNote<S>),
    /// Remove staging and journal entry.
    CleanUp,
    Shutdown,
    /// Remove staging and journal entry on behalf of the guard.
    DropGuard,
    Finish,
}

/// What a transition asks of the state that activations share.
#[derive(Debug, Clone, Copy, PartialEq, Eq, Structural)]
pub struct Effects {
    /// Refuse every activation from now on, until recovery.
    pub block_cleanup: bool,
    /// Refuse clipboard activations from now on, until recovery.
    pub set_uncertain: bool,
    /// Give the reserved space back.
    pub release_permit: bool,
}

/// A receiver at work on one activation.
#[derive(Debug)]
pub struct Receive {
    pub activation: FetchActivation,
    pub limits: V2Limits,
    pub cache_root: HostPath,
    pub card: Option<OfferDescriptor>,
    pub header: Option<FetchHeader>,
    /// The entries of the manifest that was accepted.
    pub entries: Vec<ManifestEntry>,
    pub counts: PlanCounts,
    pub destination: Option<HostPath>,
    pub guard: Guard,
    pub permit: bool,
    /// Whether this activation has asked to refuse every other one.
    pub blocked: bool,
    pub step: Step,
    pub ending: Ending,
}

/// A receiver with its texts as sequences.
pub ghost struct ReceiveView {
    pub activation: FetchActivationView,
    pub limits: V2Limits,
    pub cache_root: PathView,
    pub card: Option<DescriptorView>,
    pub header: Option<HeaderView>,
    pub entries: Seq<EntryView>,
    pub counts: PlanCounts,
    pub destination: Option<PathView>,
    pub guard: Guard,
    pub permit: bool,
    pub blocked: bool,
    pub step: Step,
    pub ending: Ending<Seq<char>>,
}

impl View for Receive {
    type V = ReceiveView;

    open spec fn view(&self) -> ReceiveView {
        ReceiveView {
            activation: self.activation@,
            limits: self.limits,
            cache_root: self.cache_root@,
            card: match self.card {
                Some(d) => Some(d@),
                None => None,
            },
            header: match self.header {
                Some(h) => Some(h@),
                None => None,
            },
            entries: entry_views(self.entries@),
            counts: self.counts,
            destination: opt_path(self.destination),
            guard: self.guard,
            permit: self.permit,
            blocked: self.blocked,
            step: self.step,
            ending: self.ending@,
        }
    }
}

/// Nothing is owed, and the activation succeeded.
pub open spec fn no_ending() -> Ending<Seq<char>> {
    Ending {
        mark_uncertain: false,
        cleanup: Cleanup::Skip,
        admission: None,
        admission_detail: None,
        attempt: None,
        receipt: None,
        receipt_required: false,
        shutdown: false,
        error: None,
    }
}

fn plain_ending() -> (r: Ending)
    ensures
        r@ == no_ending(),
{
    Ending {
        mark_uncertain: false,
        cleanup: Cleanup::Skip,
        admission: None,
        admission_detail: None,
        attempt: None,
        receipt: None,
        receipt_required: false,
        shutdown: false,
        error: None,
    }
}

/// The activation is over with an error, and nothing else is owed.
pub open spec fn error_ending(error: NetError<Seq<char>>) -> Ending<Seq<char>> {
    Ending { error: Some(error), ..no_ending() }
}

fn ending_with_error(error: NetError) -> (r: Ending)
    ensures
        r@ == error_ending(error@),
{
    let mut ending = plain_ending();
    ending.error = Some(error);
    ending
}

/// The attempt that a refused admission is recorded as.
pub open spec fn refusal_attempt(code: FetchAdmissionCode) -> OfferAttemptCode {
    match code {
        FetchAdmissionCode::RefusedBusy => OfferAttemptCode::Busy,
        FetchAdmissionCode::Cancelled => OfferAttemptCode::Cancelled,
        _ => OfferAttemptCode::Failed,
    }
}

/// The header is answered with a refusal, which is recorded and reported.
pub open spec fn refusal_ending(
    code: FetchAdmissionCode,
    detail: Option<Seq<char>>,
) -> Ending<Seq<char>> {
    Ending {
        admission: Some(code),
        admission_detail: detail,
        attempt: Some(
            Attempt {
                code: refusal_attempt(code),
                files: 0,
                bytes: 0,
                detail: Some(
                    match detail {
                        Some(d) => d,
                        None => "fetch admission refused with "@ + code.name_text(),
                    },
                ),
            },
        ),
        error: Some(
            NetError::FetchAdmissionRefused {
                code,
                entries_reserved: 0,
                bytes_reserved: 0,
                detail,
            },
        ),
        ..no_ending()
    }
}

fn refuse_admission(code: FetchAdmissionCode, detail: Option<String>) -> (r: Ending)
    ensures
        r@ == refusal_ending(code, opt_view(detail)),
{
    let attempt_code = match code {
        FetchAdmissionCode::RefusedBusy => OfferAttemptCode::Busy,
        FetchAdmissionCode::Cancelled => OfferAttemptCode::Cancelled,
        _ => OfferAttemptCode::Failed,
    };
    let attempt_detail = match &detail {
        Some(d) => d.clone(),
        None => join2("fetch admission refused with ", code.name()),
    };
    let mut ending = plain_ending();
    ending.admission = Some(code);
    ending.admission_detail = clone_opt(&detail);
    ending.attempt = Some(
        Attempt { code: attempt_code, files: 0, bytes: 0, detail: Some(attempt_detail) },
    );
    ending.error = Some(
        NetError::FetchAdmissionRefused {
            code,
            entries_reserved: 0,
            bytes_reserved: 0,
            detail,
        },
    );
    ending
}

/// The receipt and the error that report the same end.
pub open spec fn terminal_ending(
    base: Ending<Seq<char>>,
    code: FetchReceiptCode,
    files: u32,
    bytes: u64,
    detail: Option<Seq<char>>,
) -> Ending<Seq<char>> {
    Ending {
        receipt: Some(ReceiptNote { code, files, bytes, detail }),
        receipt_required: true,
        error: Some(
            NetError::FetchTerminal {
                code,
                files_processed: files,
                bytes_processed: bytes,
                detail,
            },
        ),
        ..base
    }
}

fn finish_terminal(
    base: Ending,
    code: FetchReceiptCode,
    files: u32,
    bytes: u64,
    detail: Option<String>,
) -> (r: Ending)
    ensures
        r@ == terminal_ending(base@, code, files, bytes, opt_view(detail)),
{
    let mut ending = base;
    ending.receipt = Some(ReceiptNote { code, files, bytes, detail: clone_opt(&detail) });
    ending.receipt_required = true;
    ending.error = Some(
        NetError::FetchTerminal { code, files_processed: files, bytes_processed: bytes, detail },
    );
    ending
}

/// Staging is cleaned up, and then an attempt is recorded.
pub open spec fn cleaned(
    cleanup: Cleanup<Seq<char>>,
    code: OfferAttemptCode,
    files: u32,
    bytes: u64,
    detail: Option<Seq<char>>,
) -> Ending<Seq<char>> {
    Ending { cleanup, attempt: Some(Attempt { code, files, bytes, detail }), ..no_ending() }
}

fn clean_and_record(
    cleanup: Cleanup,
    code: OfferAttemptCode,
    files: u32,
    bytes: u64,
    detail: Option<String>,
) -> (r: Ending)
    ensures
        r@ == cleaned(cleanup_view(cleanup), code, files, bytes, opt_view(detail)),
{
    let mut ending = plain_ending();
    ending.cleanup = cleanup;
    ending.attempt = Some(Attempt { code, files, bytes, detail });
    ending
}

/// The side effect may have happened: that is put on record before anything else,
/// and staging and journal stay.
pub open spec fn uncertain_ending(
    files: u32,
    bytes: u64,
    detail: Seq<char>,
) -> Ending<Seq<char>> {
    terminal_ending(
        Ending {
            mark_uncertain: true,
            attempt: Some(
                Attempt {
                    code: OfferAttemptCode::UncertainNoReplay,
                    files,
                    bytes,
                    detail: Some(detail),
                },
            ),
            ..no_ending()
        },
        FetchReceiptCode::UncertainNoReplay,
        files,
        bytes,
        Some(safe(detail)),
    )
}

fn finish_uncertain(files: u32, bytes: u64, detail: String) -> (r: Ending)
    ensures
        r@ == uncertain_ending(files, bytes, detail@),
{
    let shown = safe_detail(detail.as_str());
    let mut ending = plain_ending();
    ending.mark_uncertain = true;
    ending.attempt = Some(
        Attempt {
            code: OfferAttemptCode::UncertainNoReplay,
            files,
            bytes,
            detail: Some(detail),
        },
    );
    finish_terminal(ending, FetchReceiptCode::UncertainNoReplay, files, bytes, Some(shown))
}

/// The activation was cancelled here after its admission.
pub open spec fn cancelled_ending(files: u32, bytes: u64) -> Ending<Seq<char>> {
    Ending {
        shutdown: true,
        error: Some(
            NetError::FetchTerminal {
                code: FetchReceiptCode::Cancelled,
                files_processed: files,
                bytes_processed: bytes,
                detail: None,
            },
        ),
        ..cleaned(Cleanup::Plain, OfferAttemptCode::Cancelled, files, bytes, None)
    }
}

fn finish_cancelled(files: u32, bytes: u64) -> (r: Ending)
    ensures
        r@ == cancelled_ending(files, bytes),
{
    let mut ending = clean_and_record(
        Cleanup::Plain,
        OfferAttemptCode::Cancelled,
        files,
        bytes,
        None,
    );
    ending.shutdown = true;
    ending.error = Some(
        NetError::FetchTerminal {
            code: FetchReceiptCode::Cancelled,
            files_processed: files,
            bytes_processed: bytes,
            detail: None,
        },
    );
    ending
}

/// "connection lost after {files} files and {bytes} bytes"
pub open spec fn lost_detail(files: u32, bytes: u64) -> Seq<char> {
    "connection lost after "@ + decimal(files as nat) + " files and "@ + decimal(bytes as nat)
        + " bytes"@
}

fn connection_lost_detail(files: u32, bytes: u64) -> (r: String)
    ensures
        r@ == lost_detail(files, bytes),
{
    let head = join3(
        "connection lost after ",
        decimal_text(files as u64).as_str(),
        " files and ",
    );
    join3(head.as_str(), decimal_text(bytes).as_str(), " bytes")
}

/// The attempt that an origin's abort is recorded as.
pub open spec fn abort_attempt(code: FetchAbortCode) -> OfferAttemptCode {
    match code {
        FetchAbortCode::SourceUnavailable => OfferAttemptCode::SourceUnavailable,
        FetchAbortCode::SourceChanged => OfferAttemptCode::SourceChanged,
        FetchAbortCode::Cancelled => OfferAttemptCode::Cancelled,
        FetchAbortCode::InternalError => OfferAttemptCode::Failed,
    }
}

/// The receipt that answers an origin's abort.
pub open spec fn abort_receipt(code: FetchAbortCode) -> FetchReceiptCode {
    match code {
        FetchAbortCode::Cancelled => FetchReceiptCode::Cancelled,
        _ => FetchReceiptCode::InternalError,
    }
}

/// The end of an activation whose content did not arrive as announced.
pub open spec fn payload_ending(failure: ReceiveFailure<Seq<char>>) -> Ending<Seq<char>> {
    match failure {
        ReceiveFailure::Disconnected { files, bytes } => Ending {
            error: Some(
                NetError::FetchTerminal {
                    code: FetchReceiptCode::ConnectionLost,
                    files_processed: files,
                    bytes_processed: bytes,
                    detail: Some(lost_detail(files, bytes)),
                },
            ),
            ..cleaned(
                Cleanup::Plain,
                OfferAttemptCode::Failed,
                files,
                bytes,
                Some(lost_detail(files, bytes)),
            )
        },
        ReceiveFailure::LocalCancelled { files, bytes } => Ending {
            receipt: Some(
                ReceiptNote { code: FetchReceiptCode::Cancelled, files, bytes, detail: None },
            ),
            ..cancelled_ending(files, bytes)
        },
        ReceiveFailure::Aborted { code, files, bytes } => Ending {
            receipt: Some(ReceiptNote { code: abort_receipt(code), files, bytes, detail: None }),
            receipt_required: true,
            error: Some(
                NetError::FetchAborted {
                    code,
                    files_processed: files,
                    bytes_processed: bytes,
                    detail: None,
                },
            ),
            ..cleaned(Cleanup::Plain, abort_attempt(code), files, bytes, None)
        },
        ReceiveFailure::Verification { files, bytes, detail } => terminal_ending(
            cleaned(
                Cleanup::Plain,
                OfferAttemptCode::VerificationFailed,
                files,
                bytes,
                Some(detail),
            ),
            FetchReceiptCode::VerificationFailed,
            files,
            bytes,
            Some(safe(detail)),
        ),
        ReceiveFailure::Protocol { files, bytes, detail } => Ending {
            error: Some(NetError::Protocol(safe(detail))),
            ..cleaned(
                Cleanup::Plain,
                OfferAttemptCode::Failed,
                files,
                bytes,
                Some(safe(detail)),
            )
        },
        ReceiveFailure::LocalIo { files, bytes, detail } => Ending {
            error: Some(
                NetError::FetchLocalIo {
                    files_processed: files,
                    bytes_processed: bytes,
                    detail: Some(safe(detail)),
                },
            ),
            ..cleaned(
                Cleanup::Plain,
                OfferAttemptCode::Failed,
                files,
                bytes,
                Some(safe(detail)),
            )
        },
        ReceiveFailure::Io(error) => Ending {
            error: Some(
                NetError::FetchTerminal {
                    code: FetchReceiptCode::ConnectionLost,
                    files_processed: 0,
                    bytes_processed: 0,
                    detail: Some(safe(error.message())),
                },
            ),
            ..cleaned(
                Cleanup::Plain,
                OfferAttemptCode::Failed,
                0,
                0,
                Some(safe(error.message())),
            )
        },
    }
}

fn finish_payload_failure(failure: ReceiveFailure) -> (r: Ending)
    ensures
        r@ == payload_ending(failure@),
{
    match failure {
        ReceiveFailure::Disconnected { files, bytes } => {
            let mut ending = clean_and_record(
                Cleanup::Plain,
                OfferAttemptCode::Failed,
                files,
                bytes,
                Some(connection_lost_detail(files, bytes)),
            );
            ending.error = Some(
                NetError::FetchTerminal {
                    code: FetchReceiptCode::ConnectionLost,
                    files_processed: files,
                    bytes_processed: bytes,
                    detail: Some(connection_lost_detail(files, bytes)),
                },
            );
            ending
        },
        ReceiveFailure::LocalCancelled { files, bytes } => {
            let mut ending = finish_cancelled(files, bytes);
            ending.receipt = Some(
                ReceiptNote { code: FetchReceiptCode::Cancelled, files, bytes, detail: None },
            );
            ending
        },
        ReceiveFailure::Aborted { code, files, bytes } => {
            let attempt_code = match code {
                FetchAbortCode::SourceUnavailable => OfferAttemptCode::SourceUnavailable,
                FetchAbortCode::SourceChanged => OfferAttemptCode::SourceChanged,
                FetchAbortCode::Cancelled => OfferAttemptCode::Cancelled,
                FetchAbortCode::InternalError => OfferAttemptCode::Failed,
            };
            let receipt_code = match code {
                FetchAbortCode::Cancelled => FetchReceiptCode::Cancelled,
                _ => FetchReceiptCode::InternalError,
            };
            let mut ending = clean_and_record(Cleanup::Plain, attempt_code, files, bytes, None);
            ending.receipt = Some(ReceiptNote { code: receipt_code, files, bytes, detail: None });
            ending.receipt_required = true;
            ending.error = Some(
                NetError::FetchAborted {
                    code,
                    files_processed: files,
                    bytes_processed: bytes,
                    detail: None,
                },
            );
            ending
        },
        ReceiveFailure::Verification { files, bytes, detail } => {
            let shown = safe_detail(detail.as_str());
            let ending = clean_and_record(
                Cleanup::Plain,
                OfferAttemptCode::VerificationFailed,
                files,
                bytes,
                Some(detail),
            );
            finish_terminal(
                ending,
                FetchReceiptCode::VerificationFailed,
                files,
                bytes,
                Some(shown),
            )
        },
        ReceiveFailure::Protocol { files, bytes, detail } => {
            let shown = safe_detail(detail.as_str());
            let mut ending = clean_and_record(
                Cleanup::Plain,
                OfferAttemptCode::Failed,
                files,
                bytes,
                Some(shown.clone()),
            );
            ending.error = Some(NetError::Protocol(shown));
            ending
        },
        ReceiveFailure::LocalIo { files, bytes, detail } => {
            let shown = safe_detail(detail.as_str());
            let mut ending = clean_and_record(
                Cleanup::Plain,
                OfferAttemptCode::Failed,
                files,
                bytes,
                Some(shown.clone()),
            );
            ending.error = Some(
                NetError::FetchLocalIo {
                    files_processed: files,
                    bytes_processed: bytes,
                    detail: Some(shown),
                },
            );
            ending
        },
        ReceiveFailure::Io(error) => {
            let shown = safe_detail(error.describe().as_str());
            let mut ending = clean_and_record(
                Cleanup::Plain,
                OfferAttemptCode::Failed,
                0,
                0,
                Some(shown.clone()),
            );
            ending.error = Some(
                NetError::FetchTerminal {
                    code: FetchReceiptCode::ConnectionLost,
                    files_processed: 0,
                    bytes_processed: 0,
                    detail: Some(shown),
                },
            );
            ending
        },
    }
}

/// Where the content of an activation goes: nowhere for a text, else to the chosen
/// directory or to the clipboard cache, by an absolute path.
pub open spec fn destination_choice(
    activation: FetchActivationView,
    descriptor: DescriptorView,
    cache_root: PathView,
) -> Result<Option<PathView>, FetchAdmissionCode> {
    if descriptor is Text {
        Ok(None)
    } else {
        let path = match activation.mode {
            ActivationMode::Save => activation.destination,
            ActivationMode::Clipboard => Some(cache_root),
        };
        match path {
            Some(path) if path.absolute => Ok(Some(path)),
            _ => Err(FetchAdmissionCode::DestinationUnavailable),
        }
    }
}

/// Chooses where the content of an activation goes.
pub fn destination_for(
    activation: &FetchActivation,
    descriptor: &OfferDescriptor,
    cache_root: &HostPath,
) -> (r: Result<Option<HostPath>, FetchAdmissionCode>)
    ensures
        match (r, destination_choice(activation@, descriptor@, cache_root@)) {
            (Ok(path), Ok(expected)) => opt_path(path) == expected,
            (Err(code), Err(expected)) => code == expected,
            _ => false,
        },
{
    if descriptor.is_text() {
        return Ok(None);
    }
    let path = match activation.mode {
        ActivationMode::Save => clone_opt_path(&activation.destination),
        ActivationMode::Clipboard => Some(cache_root.clone()),
    };
    match path {
        Some(path) => {
            if path.absolute {
                Ok(Some(path))
            } else {
                Err(FetchAdmissionCode::DestinationUnavailable)
            }
        },
        None => Err(FetchAdmissionCode::DestinationUnavailable),
    }
}

/// The attempt that a failure before admission is recorded as.
pub open spec fn header_attempt(error: NetError<Seq<char>>) -> OfferAttemptCode {
    match error {
        NetError::FetchRefused { code: FetchRefusalCode::SourceUnavailable, .. } =>
            OfferAttemptCode::SourceUnavailable,
        NetError::FetchRefused { code: FetchRefusalCode::SourceChanged, .. } =>
            OfferAttemptCode::SourceChanged,
        NetError::FetchRefused { code: FetchRefusalCode::Busy, .. } => OfferAttemptCode::Busy,
        _ => OfferAttemptCode::Failed,
    }
}

fn header_attempt_code(error: &NetError) -> (r: OfferAttemptCode)
    ensures
        r == header_attempt(error@),
{
    match error {
        NetError::FetchRefused { code, .. } => match *code {
            FetchRefusalCode::SourceUnavailable => OfferAttemptCode::SourceUnavailable,
            FetchRefusalCode::SourceChanged => OfferAttemptCode::SourceChanged,
            FetchRefusalCode::Busy => OfferAttemptCode::Busy,
            _ => OfferAttemptCode::Failed,
        },
        _ => OfferAttemptCode::Failed,
    }
}

/// The position of a stage in its order.
pub open spec fn rank(stage: Stage) -> nat {
    match stage {
        Stage::Mark => 0,
        Stage::Cleanup => 1,
        Stage::Admission => 2,
        Stage::Attempt => 3,
        Stage::Receipt => 4,
        Stage::Shutdown => 5,
        Stage::Guard => 6,
        Stage::Done => 7,
    }
}

/// The stage behind another.
pub open spec fn stage_after(stage: Stage) -> Stage {
    match stage {
        Stage::Mark => Stage::Cleanup,
        Stage::Cleanup => Stage::Admission,
        Stage::Admission => Stage::Attempt,
        Stage::Attempt => Stage::Receipt,
        Stage::Receipt => Stage::Shutdown,
        Stage::Shutdown => Stage::Guard,
        Stage::Guard => Stage::Done,
        Stage::Done => Stage::Done,
    }
}

fn next_stage(stage: Stage) -> (r: Stage)
    ensures
        r == stage_after(stage),
{
    match stage {
        Stage::Mark => Stage::Cleanup,
        Stage::Cleanup => Stage::Admission,
        Stage::Admission => Stage::Attempt,
        Stage::Attempt => Stage::Receipt,
        Stage::Receipt => Stage::Shutdown,
        Stage::Shutdown => Stage::Guard,
        Stage::Guard => Stage::Done,
        Stage::Done => Stage::Done,
    }
}

impl ReceiveView {
    /// Whether there is anything to do at a stage.
    pub open spec fn has_work(self, stage: Stage) -> bool {
        match stage {
            Stage::Mark => self.ending.mark_uncertain,
            Stage::Cleanup => !(self.ending.cleanup is Skip),
            Stage::Admission => self.ending.admission is Some,
            Stage::Attempt => self.ending.attempt is Some,
            Stage::Receipt => self.ending.receipt is Some,
            Stage::Shutdown => self.ending.shutdown,
            Stage::Guard => self.guard is Armed,
            Stage::Done => true,
        }
    }

    /// The first stage from `from` on at which there is anything to do.
    #[verifier::opaque]
    pub open spec fn due(self, from: Stage) -> Stage
        decreases 7 - rank(from),
    {
        if self.has_work(from) || from is Done {
            from
        } else {
            self.due(stage_after(from))
        }
    }

    /// Goes on with the ending from stage `from` on.  The reserved space is given
    /// back before the guard acts.
    pub open spec fn enter(self, from: Stage) -> ReceiveView {
        let stage = self.due(from);
        ReceiveView {
            step: Step::Ending(stage),
            permit: self.permit && !(stage is Guard || stage is Done),
            ..self
        }
    }

    /// Starts an ending.
    pub open spec fn conclude(self, ending: Ending<Seq<char>>) -> ReceiveView {
        ReceiveView { ending, ..self }.enter(Stage::Mark)
    }

    pub open spec fn fail(self, error: NetError<Seq<char>>) -> ReceiveView {
        self.conclude(error_ending(error))
    }

    pub open spec fn refuse(
        self,
        code: FetchAdmissionCode,
        detail: Option<Seq<char>>,
    ) -> ReceiveView {
        self.conclude(refusal_ending(code, detail))
    }

    /// Breaks the ending off with another error.
    pub open spec fn break_off(self, error: NetError<Seq<char>>) -> ReceiveView {
        ReceiveView {
            ending: Ending { error: Some(error), ..self.ending },
            ..self
        }.enter(Stage::Guard)
    }

    pub open spec fn at(self, step: Step) -> ReceiveView {
        ReceiveView { step, ..self }
    }

    pub open spec fn uncertain(self, detail: Seq<char>) -> ReceiveView {
        self.conclude(uncertain_ending(self.counts.file_count, self.counts.total_bytes, detail))
    }

    /// The step once the destination is known to be usable.
    pub open spec fn reserve_or_journal(self) -> ReceiveView {
        if !reservation_needed(self.counts.content_kind, self.counts.total_bytes) {
            self.at(Step::Journaling)
        } else if self.destination is None {
            self.fail(
                NetError::FetchServiceOwned("file transfer has no destination filesystem"@),
            )
        } else {
            self.at(Step::Reserving)
        }
    }

    /// What a failed manifest does.
    pub open spec fn manifest_failed(self, failure: ReceiveFailure<Seq<char>>) -> ReceiveView {
        match failure {
            ReceiveFailure::LocalCancelled { .. } => self.refuse(
                FetchAdmissionCode::Cancelled,
                None,
            ),
            ReceiveFailure::Protocol { detail, .. } => self.fail(NetError::Protocol(detail)),
            ReceiveFailure::Io(error) => self.fail(error),
            ReceiveFailure::Disconnected { .. } => self.fail(
                NetError::FetchTerminal {
                    code: FetchReceiptCode::ConnectionLost,
                    files_processed: 0,
                    bytes_processed: 0,
                    detail: None,
                },
            ),
            _ => self.refuse(FetchAdmissionCode::InvalidManifest, None),
        }
    }

    /// What a manifest does.
    pub open spec fn manifest_read(self, manifest: Manifest) -> ReceiveView {
        match manifest_error(self.header->0, self.card->0, manifest@, self.limits) {
            Some(code) => self.refuse(code, None),
            None => match destination_choice(self.activation, self.card->0, self.cache_root) {
                Err(code) => self.refuse(code, None),
                Ok(destination) => ReceiveView {
                    entries: entry_views(manifest.entries@),
                    destination,
                    step: Step::CheckingUncertainty,
                    ..self
                },
            },
        }
    }

    /// What the state of the clipboard does.
    pub open spec fn uncertainty_read(
        self,
        flagged: bool,
        stored: Result<bool, String>,
    ) -> ReceiveView {
        if !flagged && stored is Err {
            self.fail(NetError::FetchServiceOwned(stored->Err_0@))
        } else if self.activation.mode is Clipboard && (flagged || stored->Ok_0) {
            self.refuse(
                FetchAdmissionCode::RefusedBusy,
                Some("clipboard activation is uncertain after recovery"@),
            )
        } else if self.destination is Some {
            self.at(Step::EnsuringDestination)
        } else {
            self.reserve_or_journal()
        }
    }

    /// What a failed publication does.
    pub open spec fn publication_failed(self, error: NetError<Seq<char>>) -> ReceiveView {
        let files = self.counts.file_count;
        let bytes = self.counts.total_bytes;
        let base = cleaned(
            Cleanup::Explained("publication failed: "@ + error.message()),
            OfferAttemptCode::Failed,
            files,
            bytes,
            Some(safe(error.message())),
        );
        if error is Io || error is FetchLocalIo {
            self.conclude(
                Ending {
                    error: Some(
                        NetError::FetchLocalIo {
                            files_processed: files,
                            bytes_processed: bytes,
                            detail: Some(safe(error.message())),
                        },
                    ),
                    ..base
                },
            )
        } else {
            self.conclude(
                terminal_ending(
                    base,
                    FetchReceiptCode::InternalError,
                    files,
                    bytes,
                    Some(safe(error.message())),
                ),
            )
        }
    }

    /// What a side effect that did not happen does.
    pub open spec fn side_effect_failed(self, error: NetError<Seq<char>>) -> ReceiveView {
        let files = self.counts.file_count;
        let bytes = self.counts.total_bytes;
        self.conclude(
            terminal_ending(
                cleaned(
                    Cleanup::Explained("side effect failed: "@ + error.message()),
                    OfferAttemptCode::ClipboardFailed,
                    files,
                    bytes,
                    Some(safe(error.message())),
                ),
                FetchReceiptCode::ClipboardFailed,
                files,
                bytes,
                Some(safe(error.message())),
            ),
        )
    }

    /// What the outcome of a local operation does before the ending.
    pub open spec fn local(self, result: Result<(), String>, cancelled: bool) -> ReceiveView {
        match (self.step, result) {
            (Step::EnsuringDestination, Ok(())) => self.at(Step::CheckingDestination),
            (Step::CheckingDestination, Ok(())) => self.reserve_or_journal(),
            (Step::EnsuringDestination, Err(s)) | (Step::CheckingDestination, Err(s)) =>
                self.refuse(FetchAdmissionCode::DestinationUnavailable, Some(safe(s@))),
            (Step::Journaling, Ok(())) => ReceiveView {
                guard: Guard::Armed,
                step: Step::Preparing,
                ..self
            },
            (Step::Preparing, Ok(())) => self.at(Step::InspectingStaging),
            (Step::Preparing, Err(s)) => self.conclude(
                Ending {
                    cleanup: Cleanup::Explained("allocation failed: "@ + s@),
                    ..refusal_ending(FetchAdmissionCode::AllocationFailed, Some(safe(s@)))
                },
            ),
            (Step::InspectingStaging, Ok(())) => self.at(Step::Admitting),
            (Step::InspectingStaging, Err(s)) => self.fail(NetError::Io(s@)),
            (Step::MarkingTransferring, Ok(())) => if cancelled {
                self.conclude(cancelled_ending(0, 0))
            } else {
                self.at(Step::Transferring)
            },
            (Step::MarkingVerified, Ok(())) => self.at(Step::Publishing),
            (Step::Journaling, Err(s))
            | (Step::MarkingTransferring, Err(s))
            | (Step::MarkingVerified, Err(s)) => self.fail(NetError::FetchServiceOwned(s@)),
            (Step::ClearingStaging, Ok(())) => self.at(Step::MarkingCompleted),
            (Step::ClearingStaging, Err(s)) => self.uncertain(
                "staging cleanup failed after side effect: "@ + s@,
            ),
            (Step::MarkingCompleted, Ok(())) => self.at(Step::RecordingCompleted),
            (Step::RemovingJournal, Ok(())) => ReceiveView {
                guard: Guard::Disarmed,
                permit: false,
                ..self
            }.conclude(
                Ending {
                    receipt: Some(
                        ReceiptNote {
                            code: FetchReceiptCode::Completed,
                            files: self.counts.file_count,
                            bytes: self.counts.total_bytes,
                            detail: None,
                        },
                    ),
                    receipt_required: true,
                    ..no_ending()
                },
            ),
            (Step::MarkingCompleted, Err(s)) | (Step::RemovingJournal, Err(s)) => self.uncertain(
                s@,
            ),
            (Step::Ending(Stage::Mark), Ok(())) => self.enter(Stage::Cleanup),
            (Step::Ending(Stage::Mark), Err(s)) => self.break_off(
                NetError::FetchServiceOwned("could not record uncertain activation: "@ + s@),
            ),
            _ => self,
        }
    }

    /// What the outcome of a message does.
    pub open spec fn sent(self, result: Result<(), NetError>) -> ReceiveView {
        match (self.step, result) {
            (Step::Admitting, Ok(())) => self.at(Step::MarkingTransferring),
            (Step::Admitting, Err(error)) => self.fail(error@),
            (Step::Ending(Stage::Admission), Ok(())) => self.enter(Stage::Attempt),
            (Step::Ending(Stage::Admission), Err(error)) => self.break_off(error@),
            (Step::Ending(Stage::Receipt), Ok(())) => self.enter(Stage::Shutdown),
            (Step::Ending(Stage::Receipt), Err(error)) => if self.ending.receipt_required {
                self.break_off(error@)
            } else {
                self.enter(Stage::Shutdown)
            },
            _ => self,
        }
    }

    /// What the card does.
    pub open spec fn card_loaded(
        self,
        result: Result<Option<OfferDescriptor>, String>,
    ) -> ReceiveView {
        if !(self.step is LoadingCard) {
            self
        } else {
            match result {
                Err(s) => self.fail(NetError::OfferStorage(s@)),
                Ok(None) => self.fail(NetError::Rejected("offer card is not available"@)),
                Ok(Some(card)) => ReceiveView {
                    card: Some(card@),
                    step: Step::ReadingHeader,
                    ..self
                },
            }
        }
    }

    /// What the header does.
    pub open spec fn header_read(self, result: Result<FetchHeader, NetError>) -> ReceiveView {
        if !(self.step is ReadingHeader) {
            self
        } else {
            match result {
                Ok(header) => if header_answers(header@, self.card->0, self.activation) {
                    ReceiveView {
                        header: Some(header@),
                        counts: counts_of(self.card->0),
                        step: Step::ReadingManifest,
                        ..self
                    }
                } else {
                    self.refuse(FetchAdmissionCode::InvalidManifest, None)
                },
                Err(error) => self.conclude(
                    Ending {
                        attempt: Some(
                            Attempt {
                                code: header_attempt(error@),
                                files: 0,
                                bytes: 0,
                                detail: Some(safe(error@.message())),
                            },
                        ),
                        ..error_ending(error@)
                    },
                ),
            }
        }
    }

    /// What the answer of the ledger does.
    pub open spec fn reserved(self, result: Result<(), ReservationError>) -> ReceiveView {
        if !(self.step is Reserving) {
            self
        } else {
            match result {
                Ok(()) => ReceiveView { permit: true, step: Step::Journaling, ..self },
                Err(error) => if error is InsufficientSpace {
                    self.refuse(FetchAdmissionCode::InsufficientSpace, None)
                } else {
                    self.refuse(
                        FetchAdmissionCode::DestinationUnavailable,
                        Some(safe(error@.message())),
                    )
                },
            }
        }
    }

    /// What the end of the content does.
    pub open spec fn payload_received(
        self,
        result: Result<(), ReceiveFailure>,
        cancelled: bool,
    ) -> ReceiveView {
        if !(self.step is Transferring) {
            self
        } else {
            match result {
                Ok(()) => if cancelled {
                    self.conclude(
                        cancelled_ending(self.counts.file_count, self.counts.total_bytes),
                    )
                } else {
                    self.at(Step::MarkingVerified)
                },
                Err(failure) => self.conclude(payload_ending(failure@)),
            }
        }
    }

    /// What the publication does.
    pub open spec fn publication(self, result: Result<(), NetError>) -> ReceiveView {
        if !(self.step is Publishing) {
            self
        } else {
            match result {
                Ok(()) => ReceiveView { guard: Guard::Kept, step: Step::Applying, ..self },
                Err(error) => self.publication_failed(error@),
            }
        }
    }

    /// What the side effect does.
    pub open spec fn applied(self, result: Result<(), SideEffectFailure>) -> ReceiveView {
        if !(self.step is Applying) {
            self
        } else {
            match result {
                Ok(()) => self.at(Step::ClearingStaging),
                Err(SideEffectFailure::Terminal(error)) => self.side_effect_failed(error@),
                Err(SideEffectFailure::Uncertain(error)) => ReceiveView {
                    permit: false,
                    ..self
                }.uncertain(error@.message()),
            }
        }
    }

    /// What the record of the attempt does.
    pub open spec fn recorded(self, result: Result<(), NetError>) -> ReceiveView {
        match (self.step, result) {
            (Step::RecordingCompleted, Ok(())) => self.at(Step::RemovingJournal),
            (Step::RecordingCompleted, Err(error)) => self.uncertain(error@.message()),
            (Step::Ending(Stage::Attempt), Ok(())) => self.enter(Stage::Receipt),
            (Step::Ending(Stage::Attempt), Err(error)) => self.break_off(error@),
            _ => self,
        }
    }

    /// What the cleanup does.
    pub open spec fn cleaned_up(self, result: Result<(), NetError>) -> ReceiveView {
        if self.step != Step::Ending(Stage::Cleanup) {
            self
        } else {
            match result {
                Ok(()) => ReceiveView { guard: Guard::Disarmed, permit: false, ..self }.enter(
                    Stage::Admission,
                ),
                Err(error) => ReceiveView { guard: Guard::Kept, permit: false, ..self }.break_off(
                    match self.ending.cleanup {
                        Cleanup::Explained(text) => NetError::FetchServiceOwned(
                            text + "; "@ + error@.message(),
                        ),
                        _ => error@,
                    },
                ),
            }
        }
    }

    /// What an event does; one that does not answer the current step changes nothing.
    #[verifier::opaque]
    pub open spec fn next(self, event: ReceiveEvent) -> ReceiveView {
        match event {
            ReceiveEvent::CardLoaded(result) => self.card_loaded(result),
            ReceiveEvent::HeaderRead(result) => self.header_read(result),
            ReceiveEvent::ManifestRead(result) => if !(self.step is ReadingManifest) {
                self
            } else {
                match result {
                    Ok(manifest) => self.manifest_read(manifest),
                    Err(failure) => self.manifest_failed(failure@),
                }
            },
            ReceiveEvent::UncertaintyRead { flagged, stored } => if !(
            self.step is CheckingUncertainty) {
                self
            } else {
                self.uncertainty_read(flagged, stored)
            },
            ReceiveEvent::Reserved(result) => self.reserved(result),
            ReceiveEvent::Local { result, cancelled } => self.local(result, cancelled),
            ReceiveEvent::Sent(result) => self.sent(result),
            ReceiveEvent::Recorded(result) => self.recorded(result),
            ReceiveEvent::PayloadReceived { result, cancelled } => self.payload_received(
                result,
                cancelled,
            ),
            ReceiveEvent::Published(result) => self.publication(result),
            ReceiveEvent::Applied(result) => self.applied(result),
            ReceiveEvent::CleanedUp(result) => self.cleaned_up(result),
            ReceiveEvent::ShutDown => if self.step == Step::Ending(Stage::Shutdown) {
                self.enter(Stage::Guard)
            } else {
                self
            },
            ReceiveEvent::GuardDropped { .. } => if self.step == Step::Ending(Stage::Guard) {
                ReceiveView {
                    guard: Guard::Disarmed,
                    step: Step::Ending(Stage::Done),
                    ..self
                }
            } else {
                self
            },
        }
    }

    /// What the event asks of the state that activations share.
    pub open spec fn effects(self, event: ReceiveEvent) -> Effects {
        Effects {
            block_cleanup: match (event, self.step) {
                (ReceiveEvent::Local { result: Err(_), .. }, step) => {
                    ||| step is ClearingStaging
                    ||| step is MarkingCompleted
                    ||| step is RemovingJournal
                    ||| step == Step::Ending(Stage::Mark)
                },
                (ReceiveEvent::Recorded(Err(_)), Step::RecordingCompleted) => true,
                (ReceiveEvent::Recorded(Err(_)), Step::Ending(Stage::Attempt)) =>
                    self.ending.mark_uncertain,
                (ReceiveEvent::CleanedUp(Err(_)), Step::Ending(Stage::Cleanup)) => true,
                (
                    ReceiveEvent::GuardDropped { staging_failed, journal_failed },
                    Step::Ending(Stage::Guard),
                ) => staging_failed || journal_failed,
                _ => false,
            },
            set_uncertain: match (event, self.step) {
                (ReceiveEvent::Recorded(Ok(())), Step::Ending(Stage::Attempt)) =>
                    self.ending.mark_uncertain,
                _ => false,
            },
            release_permit: self.permit && !self.next(event).permit,
        }
    }

    /// The receiver after an event.
    pub open spec fn after(self, event: ReceiveEvent) -> ReceiveView {
        ReceiveView {
            blocked: self.blocked || self.effects(event).block_cleanup,
            ..self.next(event)
        }
    }

    /// What to do next.
    pub open spec fn action(self) -> ReceiveAction<Seq<char>> {
        match self.step {
            Step::LoadingCard => ReceiveAction::LoadCard,
            Step::ReadingHeader => ReceiveAction::ReadHeader,
            Step::ReadingManifest => ReceiveAction::ReadManifest,
            Step::CheckingUncertainty => ReceiveAction::QueryUncertainty,
            Step::EnsuringDestination => ReceiveAction::EnsureDestination,
            Step::CheckingDestination => ReceiveAction::RequireDestination,
            Step::Reserving => ReceiveAction::Reserve(self.counts.total_bytes),
            Step::Journaling => ReceiveAction::Journal,
            Step::Preparing => ReceiveAction::PrepareStaging,
            Step::InspectingStaging => ReceiveAction::InspectStaging,
            Step::Admitting => ReceiveAction::WriteAdmission {
                code: FetchAdmissionCode::Accepted,
                entries: self.counts.file_count,
                bytes: self.counts.total_bytes,
                detail: None,
            },
            Step::MarkingTransferring => ReceiveAction::UpdateState(ActivationState::Transferring),
            Step::Transferring => ReceiveAction::ReceivePayload,
            Step::MarkingVerified => ReceiveAction::UpdateState(ActivationState::Verified),
            Step::Publishing => ReceiveAction::Publish,
            Step::Applying => ReceiveAction::ApplySideEffect,
            Step::ClearingStaging => ReceiveAction::ClearStaging,
            Step::MarkingCompleted => ReceiveAction::UpdateState(ActivationState::Completed),
            Step::RecordingCompleted => ReceiveAction::RecordAttempt(
                Attempt {
                    code: OfferAttemptCode::Completed,
                    files: self.counts.file_count,
                    bytes: self.counts.total_bytes,
                    detail: None,
                },
            ),
            Step::RemovingJournal => ReceiveAction::RemoveJournal,
            Step::Ending(Stage::Mark) => ReceiveAction::UpdateState(
                ActivationState::UncertainNoReplay,
            ),
            Step::Ending(Stage::Cleanup) => ReceiveAction::CleanUp,
            Step::Ending(Stage::Admission) => match self.ending.admission {
                Some(code) => ReceiveAction::WriteAdmission {
                    code,
                    entries: 0,
                    bytes: 0,
                    detail: self.ending.admission_detail,
                },
                None => ReceiveAction::Finish,
            },
            Step::Ending(Stage::Attempt) => match self.ending.attempt {
                Some(attempt) => ReceiveAction::RecordAttempt(attempt),
                None => ReceiveAction::Finish,
            },
            Step::Ending(Stage::Receipt) => match self.ending.receipt {
                Some(note) => ReceiveAction::SendReceipt(note),
                None => ReceiveAction::Finish,
            },
            Step::Ending(Stage::Shutdown) => ReceiveAction::Shutdown,
            Step::Ending(Stage::Guard) => ReceiveAction::DropGuard,
            Step::Ending(Stage::Done) => ReceiveAction::Finish,
        }
    }
}

impl ReceiveView {
    /// The steps before anything is staged.
    pub open spec fn before_staging(self) -> bool {
        ||| self.step is LoadingCard
        ||| self.step is ReadingHeader
        ||| self.step is ReadingManifest
        ||| self.step is CheckingUncertainty
        ||| self.step is EnsuringDestination
        ||| self.step is CheckingDestination
        ||| self.step is Reserving
        ||| self.step is Journaling
    }

    /// The steps at which something is staged and nothing is published.
    pub open spec fn staging(self) -> bool {
        ||| self.step is Preparing
        ||| self.step is InspectingStaging
        ||| self.step is Admitting
        ||| self.step is MarkingTransferring
        ||| self.step is Transferring
        ||| self.step is MarkingVerified
        ||| self.step is Publishing
    }

    /// The steps after publication.
    pub open spec fn published(self) -> bool {
        ||| self.step is Applying
        ||| self.step is ClearingStaging
        ||| self.step is MarkingCompleted
        ||| self.step is RecordingCompleted
        ||| self.step is RemovingJournal
    }

    /// What holds between any two steps.
    pub open spec fn wf(self) -> bool {
        &&& self.step is ReadingHeader ==> self.card is Some
        &&& self.step is ReadingManifest ==> self.card is Some && self.header is Some
            && self.counts == counts_of(self.card->0)
        &&& self.step is CheckingUncertainty || self.step is EnsuringDestination
            || self.step is CheckingDestination || self.step is Reserving
            || self.step is Journaling ==> {
            &&& self.card is Some
            &&& self.counts == counts_of(self.card->0)
            &&& self.destination is Some <==> !(self.card->0 is Text)
        }
        &&& self.before_staging() ==> self.guard is Inactive
        &&& self.staging() ==> self.guard is Armed
        &&& self.published() ==> self.guard is Kept
        &&& self.permit ==> self.step is Journaling || self.staging() || self.published()
            || self.step is Ending
        &&& self.step is Ending ==> {
            let stage = self.step->Ending_0;
            &&& self.has_work(stage)
            &&& stage is Guard || stage is Done ==> !self.permit
            &&& stage is Done ==> !(self.guard is Armed)
            &&& self.guard is Kept ==> {
                ||| self.ending.mark_uncertain
                ||| self.blocked
                ||| stage is Cleanup
            }
        }
        &&& !(self.step is Ending) ==> !self.blocked
        &&& self.entries.len() <= u32::MAX
    }
}

impl Receive {
    fn has_work(&self, stage: Stage) -> (r: bool)
        ensures
            r == self@.has_work(stage),
    {
        match stage {
            Stage::Mark => self.ending.mark_uncertain,
            Stage::Cleanup => !matches!(self.ending.cleanup, Cleanup::Skip),
            Stage::Admission => self.ending.admission.is_some(),
            Stage::Attempt => self.ending.attempt.is_some(),
            Stage::Receipt => self.ending.receipt.is_some(),
            Stage::Shutdown => self.ending.shutdown,
            Stage::Guard => matches!(self.guard, Guard::Armed),
            Stage::Done => true,
        }
    }

    fn due(&self, from: Stage) -> (r: Stage)
        ensures
            r == self@.due(from),
            self@.has_work(r),
            rank(r) >= rank(from),
        decreases 7 - rank(from),
    {
        proof {
            reveal(ReceiveView::due);
        }
        if self.has_work(from) || matches!(from, Stage::Done) {
            from
        } else {
            self.due(next_stage(from))
        }
    }

    fn enter(self, from: Stage) -> (r: Self)
        ensures
            r@ == self@.enter(from),
            r@.step == Step::Ending(self@.due(from)),
            r@.has_work(self@.due(from)),
            rank(self@.due(from)) >= rank(from),
    {
        let stage = self.due(from);
        let mut this = self;
        this.step = Step::Ending(stage);
        this.permit = this.permit && !matches!(stage, Stage::Guard | Stage::Done);
        this
    }

    fn conclude(self, ending: Ending) -> (r: Self)
        ensures
            r@ == self@.conclude(ending@),
    {
        let mut this = self;
        this.ending = ending;
        this.enter(Stage::Mark)
    }

    fn fail(self, error: NetError) -> (r: Self)
        ensures
            r@ == self@.fail(error@),
    {
        self.conclude(ending_with_error(error))
    }

    fn refuse(self, code: FetchAdmissionCode, detail: Option<String>) -> (r: Self)
        ensures
            r@ == self@.refuse(code, opt_view(detail)),
    {
        self.conclude(refuse_admission(code, detail))
    }

    fn break_off(self, error: NetError) -> (r: Self)
        ensures
            r@ == self@.break_off(error@),
    {
        let mut this = self;
        this.ending.error = Some(error);
        this.enter(Stage::Guard)
    }

    fn at(self, step: Step) -> (r: Self)
        ensures
            r@ == self@.at(step),
    {
        let mut this = self;
        this.step = step;
        this
    }

    fn uncertain(self, detail: String) -> (r: Self)
        ensures
            r@ == self@.uncertain(detail@),
    {
        let files: u32 = self.counts.file_count;
        let bytes: u64 = self.counts.total_bytes;
        self.conclude(finish_uncertain(files, bytes, detail))
    }

    fn reserve_or_journal(self) -> (r: Self)
        ensures
            r@ == self@.reserve_or_journal(),
    {
        if !needs_filesystem_reservation(self.counts.content_kind, self.counts.total_bytes) {
            self.at(Step::Journaling)
        } else if self.destination.is_none() {
            self.fail(
                NetError::FetchServiceOwned(
                    "file transfer has no destination filesystem".to_owned(),
                ),
            )
        } else {
            self.at(Step::Reserving)
        }
    }

    fn on_manifest_failure(self, failure: ReceiveFailure) -> (r: Self)
        ensures
            r@ == self@.manifest_failed(failure@),
    {
        match failure {
            ReceiveFailure::LocalCancelled { .. } => self.refuse(
                FetchAdmissionCode::Cancelled,
                None,
            ),
            ReceiveFailure::Protocol { detail, .. } => self.fail(NetError::Protocol(detail)),
            ReceiveFailure::Io(error) => self.fail(error),
            ReceiveFailure::Disconnected { .. } => self.fail(
                NetError::FetchTerminal {
                    code: FetchReceiptCode::ConnectionLost,
                    files_processed: 0,
                    bytes_processed: 0,
                    detail: None,
                },
            ),
            _ => self.refuse(FetchAdmissionCode::InvalidManifest, None),
        }
    }

    fn on_manifest(self, manifest: Manifest) -> (r: Self)
        requires
            self.card is Some,
            self.header is Some,
        ensures
            r@ == self@.manifest_read(manifest),
    {
        let mut this = self;
        let check = match (&this.header, &this.card) {
            (Some(header), Some(card)) => validate_manifest(
                header,
                card,
                &manifest,
                &this.limits,
            ),
            _ => Ok(()),
        };
        if let Err(code) = check {
            return this.refuse(code, None);
        }
        let choice = match &this.card {
            Some(card) => destination_for(&this.activation, card, &this.cache_root),
            None => Ok(None),
        };
        match choice {
            Err(code) => this.refuse(code, None),
            Ok(destination) => {
                this.entries = manifest.entries;
                this.destination = destination;
                this.at(Step::CheckingUncertainty)
            },
        }
    }

    fn on_uncertainty(self, flagged: bool, stored: Result<bool, String>) -> (r: Self)
        ensures
            r@ == self@.uncertainty_read(flagged, stored),
    {
        let uncertain = if flagged {
            true
        } else {
            match stored {
                Ok(uncertain) => uncertain,
                Err(s) => {
                    return self.fail(NetError::FetchServiceOwned(s));
                },
            }
        };
        if matches!(self.activation.mode, ActivationMode::Clipboard) && uncertain {
            self.refuse(
                FetchAdmissionCode::RefusedBusy,
                Some("clipboard activation is uncertain after recovery".to_owned()),
            )
        } else if self.destination.is_some() {
            self.at(Step::EnsuringDestination)
        } else {
            self.reserve_or_journal()
        }
    }

    fn on_publication_failure(self, error: NetError) -> (r: Self)
        ensures
            r@ == self@.publication_failed(error@),
    {
        let files: u32 = self.counts.file_count;
        let bytes: u64 = self.counts.total_bytes;
        let message = error.describe();
        let shown = safe_detail(message.as_str());
        let mut ending = clean_and_record(
            Cleanup::Explained(join2("publication failed: ", message.as_str())),
            OfferAttemptCode::Failed,
            files,
            bytes,
            Some(shown.clone()),
        );
        match error {
            NetError::Io(_) | NetError::FetchLocalIo { .. } => {
                ending.error = Some(
                    NetError::FetchLocalIo {
                        files_processed: files,
                        bytes_processed: bytes,
                        detail: Some(shown),
                    },
                );
                self.conclude(ending)
            },
            _ => {
                let ending = finish_terminal(
                    ending,
                    FetchReceiptCode::InternalError,
                    files,
                    bytes,
                    Some(shown),
                );
                self.conclude(ending)
            },
        }
    }

    fn on_side_effect_failure(self, error: NetError) -> (r: Self)
        ensures
            r@ == self@.side_effect_failed(error@),
    {
        let files: u32 = self.counts.file_count;
        let bytes: u64 = self.counts.total_bytes;
        let message = error.describe();
        let shown = safe_detail(message.as_str());
        let ending = clean_and_record(
            Cleanup::Explained(join2("side effect failed: ", message.as_str())),
            OfferAttemptCode::ClipboardFailed,
            files,
            bytes,
            Some(shown.clone()),
        );
        self.conclude(
            finish_terminal(ending, FetchReceiptCode::ClipboardFailed, files, bytes, Some(shown)),
        )
    }

    fn on_local(self, result: Result<(), String>, cancelled: bool) -> (r: Self)
        ensures
            r@ == self@.local(result, cancelled),
    {
        let mut this = self;
        match this.step {
            Step::EnsuringDestination => match result {
                Ok(()) => this.at(Step::CheckingDestination),
                Err(s) => this.refuse(
                    FetchAdmissionCode::DestinationUnavailable,
                    Some(safe_detail(s.as_str())),
                ),
            },
            Step::CheckingDestination => match result {
                Ok(()) => this.reserve_or_journal(),
                Err(s) => this.refuse(
                    FetchAdmissionCode::DestinationUnavailable,
                    Some(safe_detail(s.as_str())),
                ),
            },
            Step::Journaling => match result {
                Ok(()) => {
                    this.guard = Guard::Armed;
                    this.at(Step::Preparing)
                },
                Err(s) => this.fail(NetError::FetchServiceOwned(s)),
            },
            Step::Preparing => match result {
                Ok(()) => this.at(Step::InspectingStaging),
                Err(s) => {
                    let mut ending = refuse_admission(
                        FetchAdmissionCode::AllocationFailed,
                        Some(safe_detail(s.as_str())),
                    );
                    ending.cleanup = Cleanup::Explained(join2("allocation failed: ", s.as_str()));
                    this.conclude(ending)
                },
            },
            Step::InspectingStaging => match result {
                Ok(()) => this.at(Step::Admitting),
                Err(s) => this.fail(NetError::Io(s)),
            },
            Step::MarkingTransferring => match result {
                Ok(()) => if cancelled {
                    this.conclude(finish_cancelled(0, 0))
                } else {
                    this.at(Step::Transferring)
                },
                Err(s) => this.fail(NetError::FetchServiceOwned(s)),
            },
            Step::MarkingVerified => match result {
                Ok(()) => this.at(Step::Publishing),
                Err(s) => this.fail(NetError::FetchServiceOwned(s)),
            },
            Step::ClearingStaging => match result {
                Ok(()) => this.at(Step::MarkingCompleted),
                Err(s) => this.uncertain(
                    join2("staging cleanup failed after side effect: ", s.as_str()),
                ),
            },
            Step::MarkingCompleted => match result {
                Ok(()) => this.at(Step::RecordingCompleted),
                Err(s) => this.uncertain(s),
            },
            Step::RemovingJournal => match result {
                Ok(()) => {
                    let note = ReceiptNote {
                        code: FetchReceiptCode::Completed,
                        files: this.counts.file_count,
                        bytes: this.counts.total_bytes,
                        detail: None,
                    };
                    let mut ending = plain_ending();
                    ending.receipt = Some(note);
                    ending.receipt_required = true;
                    this.guard = Guard::Disarmed;
                    this.permit = false;
                    this.conclude(ending)
                },
                Err(s) => this.uncertain(s),
            },
            Step::Ending(Stage::Mark) => match result {
                Ok(()) => this.enter(Stage::Cleanup),
                Err(s) => this.break_off(
                    NetError::FetchServiceOwned(
                        join2("could not record uncertain activation: ", s.as_str()),
                    ),
                ),
            },
            _ => this,
        }
    }

    fn on_sent(self, result: Result<(), NetError>) -> (r: Self)
        ensures
            r@ == self@.sent(result),
    {
        match self.step {
            Step::Admitting => match result {
                Ok(()) => self.at(Step::MarkingTransferring),
                Err(error) => self.fail(error),
            },
            Step::Ending(Stage::Admission) => match result {
                Ok(()) => self.enter(Stage::Attempt),
                Err(error) => self.break_off(error),
            },
            Step::Ending(Stage::Receipt) => match result {
                Ok(()) => self.enter(Stage::Shutdown),
                Err(error) => if self.ending.receipt_required {
                    self.break_off(error)
                } else {
                    self.enter(Stage::Shutdown)
                },
            },
            _ => self,
        }
    }

    fn on_header(self, result: Result<FetchHeader, NetError>) -> (r: Self)
        requires
            self.card is Some,
            self.step is ReadingHeader,
        ensures
            r@ == self@.header_read(result),
    {
        let mut this = self;
        match result {
            Ok(header) => {
                let check = match &this.card {
                    Some(card) => validate_header(&header, card, &this.activation),
                    None => Err(FetchAdmissionCode::InvalidManifest),
                };
                match check {
                    Ok(counts) => {
                        this.header = Some(header);
                        this.counts = counts;
                        this.at(Step::ReadingManifest)
                    },
                    Err(code) => this.refuse(code, None),
                }
            },
            Err(error) => {
                let attempt = Attempt {
                    code: header_attempt_code(&error),
                    files: 0,
                    bytes: 0,
                    detail: Some(safe_detail(error.describe().as_str())),
                };
                let mut ending = ending_with_error(error);
                ending.attempt = Some(attempt);
                this.conclude(ending)
            },
        }
    }

    fn on_cleaned_up(self, result: Result<(), NetError>) -> (r: Self)
        requires
            self.step == Step::Ending(Stage::Cleanup),
        ensures
            r@ == self@.cleaned_up(result),
    {
        let mut this = self;
        this.permit = false;
        match result {
            Ok(()) => {
                this.guard = Guard::Disarmed;
                this.enter(Stage::Admission)
            },
            Err(error) => {
                this.guard = Guard::Kept;
                let error = match &this.ending.cleanup {
                    Cleanup::Explained(text) => NetError::FetchServiceOwned(
                        join3(text.as_str(), "; ", error.describe().as_str()),
                    ),
                    _ => error,
                };
                this.break_off(error)
            },
        }
    }

    fn on_card(self, result: Result<Option<OfferDescriptor>, String>) -> (r: Self)
        ensures
            r@ == self@.card_loaded(result),
    {
        if !matches!(self.step, Step::LoadingCard) {
            return self;
        }
        let mut this = self;
        match result {
            Err(s) => this.fail(NetError::OfferStorage(s)),
            Ok(None) => this.fail(NetError::Rejected("offer card is not available".to_owned())),
            Ok(Some(card)) => {
                this.card = Some(card);
                this.at(Step::ReadingHeader)
            },
        }
    }

    fn on_reserved(self, result: Result<(), ReservationError>) -> (r: Self)
        ensures
            r@ == self@.reserved(result),
    {
        if !matches!(self.step, Step::Reserving) {
            return self;
        }
        let mut this = self;
        match result {
            Ok(()) => {
                this.permit = true;
                this.at(Step::Journaling)
            },
            Err(error) => match error {
                ReservationError::InsufficientSpace { .. } => this.refuse(
                    FetchAdmissionCode::InsufficientSpace,
                    None,
                ),
                _ => this.refuse(
                    FetchAdmissionCode::DestinationUnavailable,
                    Some(safe_detail(error.describe().as_str())),
                ),
            },
        }
    }

    fn on_payload(self, result: Result<(), ReceiveFailure>, cancelled: bool) -> (r: Self)
        ensures
            r@ == self@.payload_received(result, cancelled),
    {
        if !matches!(self.step, Step::Transferring) {
            return self;
        }
        match result {
            Ok(()) => if cancelled {
                let ending = finish_cancelled(self.counts.file_count, self.counts.total_bytes);
                self.conclude(ending)
            } else {
                self.at(Step::MarkingVerified)
            },
            Err(failure) => self.conclude(finish_payload_failure(failure)),
        }
    }

    fn on_published(self, result: Result<(), NetError>) -> (r: Self)
        ensures
            r@ == self@.publication(result),
    {
        if !matches!(self.step, Step::Publishing) {
            return self;
        }
        let mut this = self;
        match result {
            Ok(()) => {
                this.guard = Guard::Kept;
                this.at(Step::Applying)
            },
            Err(error) => this.on_publication_failure(error),
        }
    }

    fn on_applied(self, result: Result<(), SideEffectFailure>) -> (r: Self)
        ensures
            r@ == self@.applied(result),
    {
        if !matches!(self.step, Step::Applying) {
            return self;
        }
        let mut this = self;
        match result {
            Ok(()) => this.at(Step::ClearingStaging),
            Err(SideEffectFailure::Terminal(error)) => this.on_side_effect_failure(error),
            Err(SideEffectFailure::Uncertain(error)) => {
                this.permit = false;
                this.uncertain(error.describe())
            },
        }
    }

    fn on_recorded(self, result: Result<(), NetError>) -> (r: Self)
        ensures
            r@ == self@.recorded(result),
    {
        match self.step {
            Step::RecordingCompleted => match result {
                Ok(()) => self.at(Step::RemovingJournal),
                Err(error) => self.uncertain(error.describe()),
            },
            Step::Ending(Stage::Attempt) => match result {
                Ok(()) => self.enter(Stage::Receipt),
                Err(error) => self.break_off(error),
            },
            _ => self,
        }
    }

    fn advance(self, event: ReceiveEvent) -> (r: Self)
        requires
            self@.wf(),
        ensures
            r@ == self@.next(event),
    {
        proof {
            reveal(ReceiveView::next);
        }
        let mut this = self;
        match event {
            ReceiveEvent::CardLoaded(result) => this.on_card(result),
            ReceiveEvent::HeaderRead(result) => match this.step {
                Step::ReadingHeader => this.on_header(result),
                _ => this,
            },
            ReceiveEvent::ManifestRead(result) => match this.step {
                Step::ReadingManifest => match result {
                    Ok(manifest) => this.on_manifest(manifest),
                    Err(failure) => this.on_manifest_failure(failure),
                },
                _ => this,
            },
            ReceiveEvent::UncertaintyRead { flagged, stored } => match this.step {
                Step::CheckingUncertainty => this.on_uncertainty(flagged, stored),
                _ => this,
            },
            ReceiveEvent::Reserved(result) => this.on_reserved(result),
            ReceiveEvent::Local { result, cancelled } => this.on_local(result, cancelled),
            ReceiveEvent::Sent(result) => this.on_sent(result),
            ReceiveEvent::Recorded(result) => this.on_recorded(result),
            ReceiveEvent::PayloadReceived { result, cancelled } => this.on_payload(
                result,
                cancelled,
            ),
            ReceiveEvent::Published(result) => this.on_published(result),
            ReceiveEvent::Applied(result) => this.on_applied(result),
            ReceiveEvent::CleanedUp(result) => match this.step {
                Step::Ending(Stage::Cleanup) => this.on_cleaned_up(result),
                _ => this,
            },
            ReceiveEvent::ShutDown => match this.step {
                Step::Ending(Stage::Shutdown) => this.enter(Stage::Guard),
                _ => this,
            },
            ReceiveEvent::GuardDropped { .. } => match this.step {
                Step::Ending(Stage::Guard) => {
                    this.guard = Guard::Disarmed;
                    this.at(Step::Ending(Stage::Done))
                },
                _ => this,
            },
        }
    }
}

pub(crate) proof fn lemma_next_card(
    m: ReceiveView,
    result: Result<Option<OfferDescriptor>, String>,
)
    ensures
        m.next(ReceiveEvent::CardLoaded(result)) == m.card_loaded(result),
{
    reveal(ReceiveView::next);
}

pub(crate) proof fn lemma_next_header(m: ReceiveView, result: Result<FetchHeader, NetError>)
    ensures
        m.next(ReceiveEvent::HeaderRead(result)) == m.header_read(result),
{
    reveal(ReceiveView::next);
}

pub(crate) proof fn lemma_next_reserved(m: ReceiveView, result: Result<(), ReservationError>)
    ensures
        m.next(ReceiveEvent::Reserved(result)) == m.reserved(result),
{
    reveal(ReceiveView::next);
}

pub(crate) proof fn lemma_next_local(m: ReceiveView, result: Result<(), String>, cancelled: bool)
    ensures
        m.next(ReceiveEvent::Local { result, cancelled }) == m.local(result, cancelled),
{
    reveal(ReceiveView::next);
}

pub(crate) proof fn lemma_next_sent(m: ReceiveView, result: Result<(), NetError>)
    ensures
        m.next(ReceiveEvent::Sent(result)) == m.sent(result),
{
    reveal(ReceiveView::next);
}

pub(crate) proof fn lemma_next_recorded(m: ReceiveView, result: Result<(), NetError>)
    ensures
        m.next(ReceiveEvent::Recorded(result)) == m.recorded(result),
{
    reveal(ReceiveView::next);
}

pub(crate) proof fn lemma_next_payload(
    m: ReceiveView,
    result: Result<(), ReceiveFailure>,
    cancelled: bool,
)
    ensures
        m.next(ReceiveEvent::PayloadReceived { result, cancelled }) == m.payload_received(result, cancelled),
{
    reveal(ReceiveView::next);
}

pub(crate) proof fn lemma_next_publication(m: ReceiveView, result: Result<(), NetError>)
    ensures
        m.next(ReceiveEvent::Published(result)) == m.publication(result),
{
    reveal(ReceiveView::next);
}

pub(crate) proof fn lemma_next_applied(m: ReceiveView, result: Result<(), SideEffectFailure>)
    ensures
        m.next(ReceiveEvent::Applied(result)) == m.applied(result),
{
    reveal(ReceiveView::next);
}

pub(crate) proof fn lemma_next_cleanup(m: ReceiveView, result: Result<(), NetError>)
    ensures
        m.next(ReceiveEvent::CleanedUp(result)) == m.cleaned_up(result),
{
    reveal(ReceiveView::next);
}

pub(crate) proof fn lemma_next_manifest(m: ReceiveView, result: Result<Manifest, ReceiveFailure>)
    ensures
        m.next(ReceiveEvent::ManifestRead(result)) == if !(m.step is ReadingManifest) {
            m
        } else {
            match result {
                Ok(manifest) => m.manifest_read(manifest),
                Err(failure) => m.manifest_failed(failure@),
            }
        },
{
    reveal(ReceiveView::next);
}

pub(crate) proof fn lemma_next_uncertainty(
    m: ReceiveView,
    flagged: bool,
    stored: Result<bool, String>,
)
    ensures
        m.next(ReceiveEvent::UncertaintyRead { flagged, stored }) == if !(
        m.step is CheckingUncertainty) {
            m
        } else {
            m.uncertainty_read(flagged, stored)
        },
{
    reveal(ReceiveView::next);
}

pub(crate) proof fn lemma_next_shutdown(m: ReceiveView)
    ensures
        m.next(ReceiveEvent::ShutDown) == if m.step == Step::Ending(Stage::Shutdown) {
            m.enter(Stage::Guard)
        } else {
            m
        },
{
    reveal(ReceiveView::next);
}

pub(crate) proof fn lemma_next_guard(m: ReceiveView, staging_failed: bool, journal_failed: bool)
    ensures
        m.next(ReceiveEvent::GuardDropped { staging_failed, journal_failed }) == if m.step
            == Step::Ending(Stage::Guard) {
            ReceiveView { guard: Guard::Disarmed, step: Step::Ending(Stage::Done), ..m }
        } else {
            m
        },
{
    reveal(ReceiveView::next);
}

/// An ending goes on with a stage at which there is something to do.
proof fn lemma_due(m: ReceiveView, from: Stage)
    ensures
        m.has_work(m.due(from)),
        rank(m.due(from)) >= rank(from),
        !(from is Done) && m.due(from) is Done ==> !(m.guard is Armed),
        from is Mark && !(m.ending.cleanup is Skip) ==> m.due(from) is Mark
            || m.due(from) is Cleanup,
    decreases 7 - rank(from),
{
    reveal(ReceiveView::due);
    if !(m.has_work(from) || from is Done) {
        lemma_due(m, stage_after(from));
    }
}

proof fn lemma_conclude_wf(m: ReceiveView, ending: Ending<Seq<char>>)
    requires
        m.entries.len() <= u32::MAX,
        m.guard is Kept ==> ending.mark_uncertain || m.blocked || !(ending.cleanup is Skip),
        ending.mark_uncertain ==> ending.cleanup is Skip,
    ensures
        m.conclude(ending).wf(),
        m.conclude(ending).step is Ending,
{
    lemma_due(ReceiveView { ending, ..m }, Stage::Mark);
}

proof fn lemma_enter_wf(m: ReceiveView, from: Stage)
    requires
        m.entries.len() <= u32::MAX,
        !(from is Done),
        m.guard is Kept ==> m.ending.mark_uncertain || m.blocked,
    ensures
        m.enter(from).wf(),
        m.enter(from).step is Ending,
{
    lemma_due(m, from);
}

/// Before publication an activation may end in any way.
proof fn lemma_any_conclusion_wf(m: ReceiveView)
    requires
        m.entries.len() <= u32::MAX,
        !(m.guard is Kept),
    ensures
        forall|ending: Ending<Seq<char>>|
            (ending.mark_uncertain ==> ending.cleanup is Skip) ==> {
                &&& (#[trigger] m.conclude(ending)).wf()
                &&& m.conclude(ending).step is Ending
            },
{
    assert forall|ending: Ending<Seq<char>>|
        ending.mark_uncertain ==> ending.cleanup is Skip implies (#[trigger] m.conclude(
        ending,
    )).wf() && m.conclude(ending).step is Ending by {
        lemma_conclude_wf(m, ending);
    }
}

proof fn lemma_uncertain_wf(m: ReceiveView, detail: Seq<char>)
    requires
        m.entries.len() <= u32::MAX,
    ensures
        m.uncertain(detail).wf(),
        m.uncertain(detail).step is Ending,
{
    lemma_conclude_wf(
        m,
        uncertain_ending(m.counts.file_count, m.counts.total_bytes, detail),
    );
}

proof fn lemma_early_local_wf(m: ReceiveView, result: Result<(), String>, cancelled: bool)
    requires
        m.wf(),
        m.before_staging() || m.staging(),
    ensures
        m.after(ReceiveEvent::Local { result, cancelled }).wf(),
{
    lemma_next_local(m, result, cancelled);
    lemma_any_conclusion_wf(m);
}

proof fn lemma_late_local_wf(m: ReceiveView, result: Result<(), String>, cancelled: bool)
    requires
        m.wf(),
        m.published(),
    ensures
        m.after(ReceiveEvent::Local { result, cancelled }).wf(),
{
    lemma_next_local(m, result, cancelled);
    if result is Err {
        lemma_uncertain_wf(m, result->Err_0@);
        lemma_uncertain_wf(m, "staging cleanup failed after side effect: "@ + result->Err_0@);
    } else {
        lemma_any_conclusion_wf(ReceiveView { guard: Guard::Disarmed, permit: false, ..m });
    }
}

proof fn lemma_mark_wf(m: ReceiveView, result: Result<(), String>, cancelled: bool)
    requires
        m.wf(),
        m.step is Ending,
    ensures
        m.after(ReceiveEvent::Local { result, cancelled }).wf(),
{
    lemma_next_local(m, result, cancelled);
    if m.step == Step::Ending(Stage::Mark) {
        lemma_enter_wf(m, Stage::Cleanup);
        if result is Err {
            let error = NetError::FetchServiceOwned(
                "could not record uncertain activation: "@ + result->Err_0@,
            );
            lemma_enter_wf(
                ReceiveView { ending: Ending { error: Some(error), ..m.ending }, ..m },
                Stage::Guard,
            );
        }
    }
}

proof fn lemma_sent_wf(m: ReceiveView, result: Result<(), NetError>)
    requires
        m.wf(),
    ensures
        m.after(ReceiveEvent::Sent(result)).wf(),
{
    lemma_next_sent(m, result);
    if m.staging() {
        lemma_any_conclusion_wf(m);
    } else if m.step == Step::Ending(Stage::Admission) || m.step == Step::Ending(Stage::Receipt) {
        lemma_enter_wf(m, Stage::Attempt);
        lemma_enter_wf(m, Stage::Shutdown);
        if result is Err {
            lemma_enter_wf(
                ReceiveView { ending: Ending { error: Some(result->Err_0@), ..m.ending }, ..m },
                Stage::Guard,
            );
        }
    }
}

proof fn lemma_recorded_wf(m: ReceiveView, result: Result<(), NetError>)
    requires
        m.wf(),
    ensures
        m.after(ReceiveEvent::Recorded(result)).wf(),
{
    lemma_next_recorded(m, result);
    if m.step is RecordingCompleted {
        if result is Err {
            lemma_uncertain_wf(m, result->Err_0@.message());
        }
    } else if m.step == Step::Ending(Stage::Attempt) {
        lemma_enter_wf(m, Stage::Receipt);
        if result is Err {
            lemma_enter_wf(
                ReceiveView { ending: Ending { error: Some(result->Err_0@), ..m.ending }, ..m },
                Stage::Guard,
            );
        }
    }
}

proof fn lemma_cleaned_up_wf(m: ReceiveView, result: Result<(), NetError>)
    requires
        m.wf(),
    ensures
        m.after(ReceiveEvent::CleanedUp(result)).wf(),
{
    lemma_next_cleanup(m, result);
    if m.step == Step::Ending(Stage::Cleanup) {
        let gone = ReceiveView { guard: Guard::Disarmed, permit: false, ..m };
        lemma_enter_wf(gone, Stage::Admission);
        if result is Err {
            let error = match m.ending.cleanup {
                Cleanup::Explained(text) => NetError::FetchServiceOwned(
                    text + "; "@ + result->Err_0@.message(),
                ),
                _ => result->Err_0@,
            };
            let kept = ReceiveView {
                guard: Guard::Kept,
                permit: false,
                ending: Ending { error: Some(error), ..m.ending },
                ..m
            };
            lemma_due(kept, Stage::Guard);
            lemma_enter_wf(ReceiveView { blocked: true, ..kept }, Stage::Guard);
        }
    }
}

proof fn lemma_applied_wf(m: ReceiveView, result: Result<(), SideEffectFailure>)
    requires
        m.wf(),
    ensures
        m.after(ReceiveEvent::Applied(result)).wf(),
{
    lemma_next_applied(m, result);
    if m.step is Applying {
        match result {
            Ok(()) => {},
            Err(SideEffectFailure::Terminal(error)) => {
                lemma_conclude_wf(
                    m,
                    terminal_ending(
                        cleaned(
                            Cleanup::Explained("side effect failed: "@ + error@.message()),
                            OfferAttemptCode::ClipboardFailed,
                            m.counts.file_count,
                            m.counts.total_bytes,
                            Some(safe(error@.message())),
                        ),
                        FetchReceiptCode::ClipboardFailed,
                        m.counts.file_count,
                        m.counts.total_bytes,
                        Some(safe(error@.message())),
                    ),
                );
            },
            Err(SideEffectFailure::Uncertain(error)) => {
                lemma_uncertain_wf(ReceiveView { permit: false, ..m }, error@.message());
            },
        }
    }
}

/// Every event keeps what holds between any two steps.
pub proof fn lemma_after_wf(m: ReceiveView, event: ReceiveEvent)
    requires
        m.wf(),
    ensures
        m.after(event).wf(),
{
    match event {
        ReceiveEvent::Local { result, cancelled } => {
            if m.step is Ending {
                lemma_mark_wf(m, result, cancelled);
            } else if m.published() {
                lemma_late_local_wf(m, result, cancelled);
            } else {
                lemma_early_local_wf(m, result, cancelled);
            }
        },
        ReceiveEvent::Sent(result) => {
            lemma_sent_wf(m, result);
        },
        ReceiveEvent::Recorded(result) => {
            lemma_recorded_wf(m, result);
        },
        ReceiveEvent::CleanedUp(result) => {
            lemma_cleaned_up_wf(m, result);
        },
        ReceiveEvent::Applied(result) => {
            lemma_applied_wf(m, result);
        },
        ReceiveEvent::ShutDown => {
            lemma_next_shutdown(m);
            if m.step == Step::Ending(Stage::Shutdown) {
                lemma_enter_wf(m, Stage::Guard);
            }
        },
        ReceiveEvent::GuardDropped { staging_failed, journal_failed } => {
            lemma_next_guard(m, staging_failed, journal_failed);
        },
        ReceiveEvent::ManifestRead(result) => {
            lemma_manifest_wf(m, result);
        },
        ReceiveEvent::UncertaintyRead { flagged, stored } => {
            lemma_uncertainty_wf(m, flagged, stored);
        },
        ReceiveEvent::CardLoaded(result) => {
            lemma_card_wf(m, result);
        },
        ReceiveEvent::HeaderRead(result) => {
            lemma_header_wf(m, result);
        },
        ReceiveEvent::Reserved(result) => {
            lemma_reserved_wf(m, result);
        },
        ReceiveEvent::PayloadReceived { result, cancelled } => {
            lemma_payload_wf(m, result, cancelled);
        },
        ReceiveEvent::Published(result) => {
            lemma_publication_wf(m, result);
        },
    }
}

proof fn lemma_manifest_wf(m: ReceiveView, result: Result<Manifest, ReceiveFailure>)
    requires
        m.wf(),
    ensures
        m.after(ReceiveEvent::ManifestRead(result)).wf(),
{
    lemma_next_manifest(m, result);
    if m.before_staging() {
        lemma_any_conclusion_wf(m);
    }
}

proof fn lemma_uncertainty_wf(m: ReceiveView, flagged: bool, stored: Result<bool, String>)
    requires
        m.wf(),
    ensures
        m.after(ReceiveEvent::UncertaintyRead { flagged, stored }).wf(),
{
    lemma_next_uncertainty(m, flagged, stored);
    if m.before_staging() {
        lemma_any_conclusion_wf(m);
    }
}

proof fn lemma_card_wf(m: ReceiveView, result: Result<Option<OfferDescriptor>, String>)
    requires
        m.wf(),
    ensures
        m.after(ReceiveEvent::CardLoaded(result)).wf(),
{
    lemma_next_card(m, result);
    if m.before_staging() {
        lemma_any_conclusion_wf(m);
    }
}

proof fn lemma_header_wf(m: ReceiveView, result: Result<FetchHeader, NetError>)
    requires
        m.wf(),
    ensures
        m.after(ReceiveEvent::HeaderRead(result)).wf(),
{
    lemma_next_header(m, result);
    if m.before_staging() {
        lemma_any_conclusion_wf(m);
    }
}

proof fn lemma_reserved_wf(m: ReceiveView, result: Result<(), ReservationError>)
    requires
        m.wf(),
    ensures
        m.after(ReceiveEvent::Reserved(result)).wf(),
{
    lemma_next_reserved(m, result);
    if m.before_staging() {
        lemma_any_conclusion_wf(m);
    }
}

proof fn lemma_payload_wf(m: ReceiveView, result: Result<(), ReceiveFailure>, cancelled: bool)
    requires
        m.wf(),
    ensures
        m.after(ReceiveEvent::PayloadReceived { result, cancelled }).wf(),
{
    lemma_next_payload(m, result, cancelled);
    if m.staging() {
        lemma_any_conclusion_wf(m);
    }
}

proof fn lemma_publication_wf(m: ReceiveView, result: Result<(), NetError>)
    requires
        m.wf(),
    ensures
        m.after(ReceiveEvent::Published(result)).wf(),
{
    lemma_next_publication(m, result);
    if m.staging() {
        lemma_any_conclusion_wf(m);
    }
}

/// A receiver that has done nothing yet.
pub open spec fn fresh_receive(
    activation: FetchActivationView,
    limits: V2Limits,
    cache_root: PathView,
) -> ReceiveView {
    ReceiveView {
        activation,
        limits,
        cache_root,
        card: None,
        header: None,
        entries: Seq::empty(),
        counts: PlanCounts { content_kind: ContentKind::Text, total_bytes: 0, file_count: 0 },
        destination: None,
        guard: Guard::Inactive,
        permit: false,
        blocked: false,
        step: Step::LoadingCard,
        ending: no_ending(),
    }
}

/// Whether an activation belongs to the authenticated peer and carries identifiers
/// of its own, other than the two that were just drawn.
pub open spec fn activation_matches(
    activation: FetchActivationView,
    authenticated_source: DeviceId,
    drawn_request: ActivationId,
    drawn_offer: OfferId,
) -> bool {
    &&& authenticated_source == activation.source_device
    &&& activation.request_id != drawn_request
    &&& activation.offer_id != drawn_offer
}

/// How a receiver begins.
pub open spec fn begun(
    fresh: ReceiveView,
    matches_peer: bool,
    cleanup_blocked: bool,
    cancelled: bool,
) -> ReceiveView {
    if cleanup_blocked {
        fresh.fail(
            NetError::FetchAdmissionRefused {
                code: FetchAdmissionCode::RefusedBusy,
                entries_reserved: 0,
                bytes_reserved: 0,
                detail: Some("receiver cleanup is unresolved; listener admission is blocked"@),
            },
        )
    } else if cancelled {
        fresh.conclude(
            Ending {
                shutdown: true,
                ..error_ending(
                    NetError::FetchTerminal {
                        code: FetchReceiptCode::Cancelled,
                        files_processed: 0,
                        bytes_processed: 0,
                        detail: None,
                    },
                )
            },
        )
    } else if !matches_peer {
        fresh.fail(
            NetError::IdentityMismatch(
                "fetch activation does not match the authenticated request"@,
            ),
        )
    } else {
        fresh
    }
}

impl Receive {
    /// Begins one activation, given two identifiers that were just drawn.
    pub fn begin(
        activation: FetchActivation,
        authenticated_source: DeviceId,
        drawn_request: ActivationId,
        drawn_offer: OfferId,
        limits: V2Limits,
        cache_root: HostPath,
        cleanup_blocked: bool,
        cancelled: bool,
    ) -> (r: Self)
        ensures
            r@ == begun(
                fresh_receive(activation@, limits, cache_root@),
                activation_matches(
                    activation@,
                    authenticated_source,
                    drawn_request,
                    drawn_offer,
                ),
                cleanup_blocked,
                cancelled,
            ),
            r@.wf(),
    {
        let matches_peer = authenticated_source == activation.source_device
            && activation.request_id != drawn_request && activation.offer_id != drawn_offer;
        let fresh = Receive {
            activation,
            limits,
            cache_root,
            card: None,
            header: None,
            entries: Vec::new(),
            counts: PlanCounts { content_kind: ContentKind::Text, total_bytes: 0, file_count: 0 },
            destination: None,
            guard: Guard::Inactive,
            permit: false,
            blocked: false,
            step: Step::LoadingCard,
            ending: plain_ending(),
        };
        assert(fresh@.entries =~= Seq::<EntryView>::empty());
        proof {
            lemma_any_conclusion_wf(fresh@);
        }
        if cleanup_blocked {
            return fresh.fail(
                NetError::FetchAdmissionRefused {
                    code: FetchAdmissionCode::RefusedBusy,
                    entries_reserved: 0,
                    bytes_reserved: 0,
                    detail: Some(
                        "receiver cleanup is unresolved; listener admission is blocked".to_owned(),
                    ),
                },
            );
        }
        if cancelled {
            let mut ending = ending_with_error(
                NetError::FetchTerminal {
                    code: FetchReceiptCode::Cancelled,
                    files_processed: 0,
                    bytes_processed: 0,
                    detail: None,
                },
            );
            ending.shutdown = true;
            return fresh.conclude(ending);
        }
        if !matches_peer {
            return fresh.fail(
                NetError::IdentityMismatch(
                    "fetch activation does not match the authenticated request".to_owned(),
                ),
            );
        }
        fresh
    }

    /// Begins one activation.
    pub fn receive_one(
        activation: FetchActivation,
        authenticated_source: DeviceId,
        limits: V2Limits,
        cache_root: HostPath,
        cleanup_blocked: bool,
        cancelled: bool,
    ) -> (r: Self)
        ensures
            exists|drawn_request: ActivationId, drawn_offer: OfferId|
                random_shape(drawn_request.0) && random_shape(drawn_offer.0) && r@ == begun(
                    fresh_receive(activation@, limits, cache_root@),
                    #[trigger] activation_matches(
                        activation@,
                        authenticated_source,
                        drawn_request,
                        drawn_offer,
                    ),
                    cleanup_blocked,
                    cancelled,
                ),
            r@.wf(),
    {
        let drawn_request = ActivationId::default();
        let drawn_offer = OfferId::default();
        Receive::begin(
            activation,
            authenticated_source,
            drawn_request,
            drawn_offer,
            limits,
            cache_root,
            cleanup_blocked,
            cancelled,
        )
    }

    fn blocks_cleanup(&self, event: &ReceiveEvent) -> (r: bool)
        ensures
            r == self@.effects(*event).block_cleanup,
    {
        match event {
            ReceiveEvent::Local { result, .. } => result.is_err() && matches!(
                self.step,
                Step::ClearingStaging | Step::MarkingCompleted | Step::RemovingJournal
                    | Step::Ending(Stage::Mark)
            ),
            ReceiveEvent::Recorded(result) => result.is_err() && (matches!(
                self.step,
                Step::RecordingCompleted
            ) || (matches!(self.step, Step::Ending(Stage::Attempt))
                && self.ending.mark_uncertain)),
            ReceiveEvent::CleanedUp(result) => result.is_err() && matches!(
                self.step,
                Step::Ending(Stage::Cleanup)
            ),
            ReceiveEvent::GuardDropped { staging_failed, journal_failed } => (*staging_failed
                || *journal_failed) && matches!(self.step, Step::Ending(Stage::Guard)),
            _ => false,
        }
    }

    fn sets_uncertain(&self, event: &ReceiveEvent) -> (r: bool)
        ensures
            r == self@.effects(*event).set_uncertain,
    {
        match event {
            ReceiveEvent::Recorded(Ok(())) => matches!(self.step, Step::Ending(Stage::Attempt))
                && self.ending.mark_uncertain,
            _ => false,
        }
    }

    /// Takes the outcome of the current action.
    pub fn handle(self, event: ReceiveEvent) -> (r: (Self, Effects))
        requires
            self@.wf(),
        ensures
            r.0@ == self@.after(event),
            r.1 == self@.effects(event),
            r.0@.wf(),
    {
        let block_cleanup = self.blocks_cleanup(&event);
        let set_uncertain = self.sets_uncertain(&event);
        let held = self.permit;
        let blocked = self.blocked;
        proof {
            lemma_after_wf(self@, event);
        }
        let mut this = self.advance(event);
        this.blocked = blocked || block_cleanup;
        let release_permit = held && !this.permit;
        (this, Effects { block_cleanup, set_uncertain, release_permit })
    }

    /// What to do next.
    pub fn action(&self) -> (r: ReceiveAction)
        ensures
            action_view(r) == self@.action(),
    {
        match self.step {
            Step::LoadingCard => ReceiveAction::LoadCard,
            Step::ReadingHeader => ReceiveAction::ReadHeader,
            Step::ReadingManifest => ReceiveAction::ReadManifest,
            Step::CheckingUncertainty => ReceiveAction::QueryUncertainty,
            Step::EnsuringDestination => ReceiveAction::EnsureDestination,
            Step::CheckingDestination => ReceiveAction::RequireDestination,
            Step::Reserving => ReceiveAction::Reserve(self.counts.total_bytes),
            Step::Journaling => ReceiveAction::Journal,
            Step::Preparing => ReceiveAction::PrepareStaging,
            Step::InspectingStaging => ReceiveAction::InspectStaging,
            Step::Admitting => ReceiveAction::WriteAdmission {
                code: FetchAdmissionCode::Accepted,
                entries: self.counts.file_count,
                bytes: self.counts.total_bytes,
                detail: None,
            },
            Step::MarkingTransferring => ReceiveAction::UpdateState(ActivationState::Transferring),
            Step::Transferring => ReceiveAction::ReceivePayload,
            Step::MarkingVerified => ReceiveAction::UpdateState(ActivationState::Verified),
            Step::Publishing => ReceiveAction::Publish,
            Step::Applying => ReceiveAction::ApplySideEffect,
            Step::ClearingStaging => ReceiveAction::ClearStaging,
            Step::MarkingCompleted => ReceiveAction::UpdateState(ActivationState::Completed),
            Step::RecordingCompleted => ReceiveAction::RecordAttempt(
                Attempt {
                    code: OfferAttemptCode::Completed,
                    files: self.counts.file_count,
                    bytes: self.counts.total_bytes,
                    detail: None,
                },
            ),
            Step::RemovingJournal => ReceiveAction::RemoveJournal,
            Step::Ending(Stage::Mark) => ReceiveAction::UpdateState(
                ActivationState::UncertainNoReplay,
            ),
            Step::Ending(Stage::Cleanup) => ReceiveAction::CleanUp,
            Step::Ending(Stage::Admission) => match self.ending.admission {
                Some(code) => ReceiveAction::WriteAdmission {
                    code,
                    entries: 0,
                    bytes: 0,
                    detail: clone_opt(&self.ending.admission_detail),
                },
                None => ReceiveAction::Finish,
            },
            Step::Ending(Stage::Attempt) => match &self.ending.attempt {
                Some(attempt) => ReceiveAction::RecordAttempt(
                    Attempt {
                        code: attempt.code,
                        files: attempt.files,
                        bytes: attempt.bytes,
                        detail: clone_opt(&attempt.detail),
                    },
                ),
                None => ReceiveAction::Finish,
            },
            Step::Ending(Stage::Receipt) => match &self.ending.receipt {
                Some(note) => ReceiveAction::SendReceipt(
                    ReceiptNote {
                        code: note.code,
                        files: note.files,
                        bytes: note.bytes,
                        detail: clone_opt(&note.detail),
                    },
                ),
                None => ReceiveAction::Finish,
            },
            Step::Ending(Stage::Shutdown) => ReceiveAction::Shutdown,
            Step::Ending(Stage::Guard) => ReceiveAction::DropGuard,
            Step::Ending(Stage::Done) => ReceiveAction::Finish,
        }
    }

    /// The entry under which the activation is journaled, with nothing transferred yet.
    #[must_use]
    pub fn journal_entry(&self, staging_root: HostPath) -> (r: ActivationJournalEntry)
        ensures
            r == (ActivationJournalEntry {
                activation_id: self.activation.request_id,
                source_device: self.activation.source_device,
                offer_id: self.activation.offer_id,
                mode: self.activation.mode,
                staging_root,
                state: ActivationState::Staging,
                reserved_entries: self.counts.file_count,
                reserved_bytes: self.counts.total_bytes,
            }),
    {
        ActivationJournalEntry {
            activation_id: self.activation.request_id,
            source_device: self.activation.source_device,
            offer_id: self.activation.offer_id,
            mode: self.activation.mode,
            staging_root,
            state: ActivationState::Staging,
            reserved_entries: self.counts.file_count,
            reserved_bytes: self.counts.total_bytes,
        }
    }

    /// Waits for the content that was admitted: the text, or the files of the manifest
    /// that was accepted.
    pub fn begin_payload(&self) -> (r: PayloadReceive)
        requires
            self@.wf(),
        ensures
            r@.wf(),
            begins(r@),
            r@.accounted(),
            r@.request_id == self@.activation.request_id,
            r@.counts == self@.counts,
            r@.files == staged_files(self@.entries),
            r@.position == 0,
            r@.bytes_received == 0,
            r@.text is None,
            r@.received == Seq::<Seq<u8>>::empty(),
            r@.manifest_digest == r@.content_set,
            r@.content_set == match self@.header {
                Some(header) => match header.manifest_sha256 {
                    Some(digest) => digest,
                    None => Seq::<u8>::empty(),
                },
                None => Seq::<u8>::empty(),
            },
            r@.step == if self@.counts.content_kind is Text {
                PayloadStep::<Seq<char>, Seq<u8>>::ReadText
            } else {
                r@.after_files()
            },
    {
        let files = files_to_stage(&self.entries);
        match &self.header {
            Some(header) => PayloadReceive::new(
                self.activation.request_id,
                self.counts,
                &header.manifest_sha256,
                files,
            ),
            None => PayloadReceive::new(self.activation.request_id, self.counts, &None, files),
        }
    }

    /// Starts the side effect, given the text that was received and the path under which
    /// the content was published.
    pub fn begin_side_effect(&self, text: Option<String>, published: Option<String>) -> (r:
        SideEffect)
        ensures
            r@ == side_start(
                self@.counts.content_kind is Text,
                self@.activation.mode,
                opt_view(text),
                opt_view(published),
            ),
    {
        SideEffect::new(
            matches!(self.counts.content_kind, ContentKind::Text),
            self.activation.mode,
            text,
            published,
        )
    }

    /// Whether the activation is over.
    #[must_use]
    pub fn is_done(&self) -> (r: bool)
        ensures
            r == (self@.step == Step::Ending(Stage::Done)),
    {
        matches!(self.step, Step::Ending(Stage::Done))
    }

    /// How an activation that is over ended.
    pub fn receive(self) -> (r: Result<ActivationOutcome, NetError>)
        requires
            self@.step == Step::Ending(Stage::Done),
        ensures
            result_view(r) == classified(
                match self@.ending.error {
                    None => Ok(()),
                    Some(error) => Err(error),
                },
            ),
    {
        match self.ending.error {
            None => classify_activation_result(Ok(())),
            Some(error) => classify_activation_result(Err(error)),
        }
    }
}

/// What came of a cleanup, given what came of removing staging and then, where that
/// succeeded, the journal entry.
pub fn cleanup_result(staging: Result<(), String>, journal: Result<(), StoreError>) -> (r: Result<
    (),
    NetError,
>)
    ensures
        match (staging, journal) {
            (Err(error), _) => r matches Err(NetError::FetchServiceOwned(text)) && text@
                == "activation cleanup failed: "@ + error@,
            (Ok(_), Err(error)) => r matches Err(NetError::FetchServiceOwned(text)) && text@
                == "store error: "@ + error@,
            (Ok(_), Ok(_)) => r is Ok,
        },
{
    match staging {
        Err(error) => Err(
            NetError::FetchServiceOwned(join2("activation cleanup failed: ", error.as_str())),
        ),
        Ok(()) => match journal {
            Err(error) => Err(NetError::FetchServiceOwned(error.describe())),
            Ok(()) => Ok(()),
        },
    }
}

pub open spec fn action_view(a: ReceiveAction) -> ReceiveAction<Seq<char>> {
    match a {
        ReceiveAction::LoadCard => ReceiveAction::LoadCard,
        ReceiveAction::ReadHeader => ReceiveAction::ReadHeader,
        ReceiveAction::ReadManifest => ReceiveAction::ReadManifest,
        ReceiveAction::QueryUncertainty => ReceiveAction::QueryUncertainty,
        ReceiveAction::EnsureDestination => ReceiveAction::EnsureDestination,
        ReceiveAction::RequireDestination => ReceiveAction::RequireDestination,
        ReceiveAction::Reserve(bytes) => ReceiveAction::Reserve(bytes),
        ReceiveAction::Journal => ReceiveAction::Journal,
        ReceiveAction::PrepareStaging => ReceiveAction::PrepareStaging,
        ReceiveAction::InspectStaging => ReceiveAction::InspectStaging,
        ReceiveAction::WriteAdmission { code, entries, bytes, detail } =>
            ReceiveAction::WriteAdmission { code, entries, bytes, detail: opt_view(detail) },
        ReceiveAction::UpdateState(state) => ReceiveAction::UpdateState(state),
        ReceiveAction::ReceivePayload => ReceiveAction::ReceivePayload,
        ReceiveAction::Publish => ReceiveAction::Publish,
        ReceiveAction::ApplySideEffect => ReceiveAction::ApplySideEffect,
        ReceiveAction::ClearStaging => ReceiveAction::ClearStaging,
        ReceiveAction::RemoveJournal => ReceiveAction::RemoveJournal,
        ReceiveAction::RecordAttempt(attempt) => ReceiveAction::RecordAttempt(
            attempt_view(attempt),
        ),
        ReceiveAction::SendReceipt(note) => ReceiveAction::SendReceipt(note_view(note)),
        ReceiveAction::CleanUp => ReceiveAction::CleanUp,
        ReceiveAction::Shutdown => ReceiveAction::Shutdown,
        ReceiveAction::DropGuard => ReceiveAction::DropGuard,
        ReceiveAction::Finish => ReceiveAction::Finish,
    }
}

/// An event leads from one stage of an ending to a later one, or changes nothing.
pub proof fn lemma_ending_advances(m: ReceiveView, event: ReceiveEvent)
    requires
        m.wf(),
        m.step is Ending,
    ensures
        m.after(event).step is Ending,
        m.after(event).step == m.step || rank(m.after(event).step->Ending_0) > rank(
            m.step->Ending_0,
        ),
{
    match event {
        ReceiveEvent::Local { result, cancelled } => {
            lemma_next_local(m, result, cancelled);
            lemma_mark_advances(m, result, cancelled);
        },
        ReceiveEvent::Sent(result) => {
            lemma_next_sent(m, result);
            lemma_sent_advances(m, result);
        },
        ReceiveEvent::Recorded(result) => {
            lemma_next_recorded(m, result);
            lemma_recorded_advances(m, result);
        },
        ReceiveEvent::CleanedUp(result) => {
            lemma_next_cleanup(m, result);
            lemma_cleanup_advances(m, result);
        },
        ReceiveEvent::ShutDown => {
            lemma_next_shutdown(m);
            lemma_enter_rank(m, Stage::Guard);
        },
        ReceiveEvent::GuardDropped { staging_failed, journal_failed } => {
            lemma_next_guard(m, staging_failed, journal_failed);
        },
        _ => {
            lemma_others_change_no_ending(m, event);
        },
    }
}

proof fn lemma_others_change_no_ending(m: ReceiveView, event: ReceiveEvent)
    requires
        m.step is Ending,
        event is CardLoaded || event is HeaderRead || event is ManifestRead
            || event is UncertaintyRead || event is Reserved || event is PayloadReceived
            || event is Published || event is Applied,
    ensures
        m.next(event) == m,
{
    reveal(ReceiveView::next);
}

proof fn lemma_mark_advances(m: ReceiveView, result: Result<(), String>, cancelled: bool)
    requires
        m.step is Ending,
    ensures
        ({
            let after = m.local(result, cancelled);
            &&& after.step is Ending
            &&& after.step == m.step || rank(after.step->Ending_0) > rank(m.step->Ending_0)
        }),
{
    broadcast use lemma_enter_rank;

}

proof fn lemma_sent_advances(m: ReceiveView, result: Result<(), NetError>)
    requires
        m.step is Ending,
    ensures
        m.sent(result).step is Ending,
        m.sent(result).step == m.step || rank(m.sent(result).step->Ending_0) > rank(
            m.step->Ending_0,
        ),
{
    broadcast use lemma_enter_rank;

}

proof fn lemma_recorded_advances(m: ReceiveView, result: Result<(), NetError>)
    requires
        m.step is Ending,
    ensures
        m.recorded(result).step is Ending,
        m.recorded(result).step == m.step || rank(m.recorded(result).step->Ending_0) > rank(
            m.step->Ending_0,
        ),
{
    broadcast use lemma_enter_rank;

}

proof fn lemma_cleanup_advances(m: ReceiveView, result: Result<(), NetError>)
    requires
        m.step is Ending,
    ensures
        m.cleaned_up(result).step is Ending,
        m.cleaned_up(result).step == m.step || rank(m.cleaned_up(result).step->Ending_0) > rank(
            m.step->Ending_0,
        ),
{
    broadcast use lemma_enter_rank;

}

broadcast proof fn lemma_enter_rank(m: ReceiveView, from: Stage)
    ensures
        (#[trigger] m.enter(from)).step is Ending,
        rank(m.enter(from).step->Ending_0) >= rank(from),
{
    lemma_due(m, from);
}

} // verus!
