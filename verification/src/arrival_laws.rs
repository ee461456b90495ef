//! What an activation does next, and how it ends.
use vstd::prelude::*;

use crate::activation::{ActivationState, FetchActivationView};
use crate::clipboard::{clipboard_failure, ClipboardError};
use crate::failure::{disconnects, safe, ReadFault, ReceiveFailure};
use crate::ids::{ActivationId, DeviceId, OfferId};
use crate::manifest::{header_answers, manifest_error, Manifest};
use crate::model::ContentKind;
use crate::net_error::NetError;
use crate::offer::{DescriptorView, OfferDescriptor};
use crate::path::PathView;
use crate::receive::{
    abort_attempt, abort_receipt, activation_matches, begun, cancelled_ending, destination_choice,
    fresh_receive, header_attempt, payload_ending, rank, refusal_attempt, refusal_ending,
    stage_after, Cleanup, Guard, ReceiveAction, ReceiveEvent, ReceiveView, SideEffectFailure, Stage,
    Step,
};
use crate::receiver::{header_failure, HeaderFrame};
use crate::reservation::ReservationError;
use crate::side_effect::{
    succeeded, terminal, uncertain, SideEffectEvent, SideEffectStep, SideEffectView,
};
use crate::staging::{
    cleanup_next, directories_of, file_steps, finalization_next, removal_next, staging_steps,
    CacheRemoval, Finalization, IoFault, RemovalEvent, StagingCleanup, StagingStep,
};
use crate::text::{opt_view, split_on};
use crate::wire::{EntryView, FetchAbortCode, FetchAdmissionCode, FetchHeader, V2Limits};

verus! {

/// What each event is handed to.
proof fn lemma_next_local(m: ReceiveView, result: Result<(), String>, cancelled: bool)
    ensures
        m.next(ReceiveEvent::Local { result, cancelled }) == m.local(result, cancelled),
{
    reveal(ReceiveView::next);
}

proof fn lemma_next_sent(m: ReceiveView, result: Result<(), NetError>)
    ensures
        m.next(ReceiveEvent::Sent(result)) == m.sent(result),
{
    reveal(ReceiveView::next);
}

proof fn lemma_next_recorded(m: ReceiveView, result: Result<(), NetError>)
    ensures
        m.next(ReceiveEvent::Recorded(result)) == m.recorded(result),
{
    reveal(ReceiveView::next);
}

proof fn lemma_next_payload(m: ReceiveView, result: Result<(), ReceiveFailure>, cancelled: bool)
    ensures
        m.next(ReceiveEvent::PayloadReceived { result, cancelled }) == m.payload_received(
            result,
            cancelled,
        ),
{
    reveal(ReceiveView::next);
}

proof fn lemma_next_published(m: ReceiveView, result: Result<(), NetError>)
    ensures
        m.next(ReceiveEvent::Published(result)) == m.publication(result),
{
    reveal(ReceiveView::next);
}

proof fn lemma_next_applied(m: ReceiveView, result: Result<(), SideEffectFailure>)
    ensures
        m.next(ReceiveEvent::Applied(result)) == m.applied(result),
{
    reveal(ReceiveView::next);
}

proof fn lemma_next_reserved(m: ReceiveView, result: Result<(), ReservationError>)
    ensures
        m.next(ReceiveEvent::Reserved(result)) == m.reserved(result),
{
    reveal(ReceiveView::next);
}

proof fn lemma_next_uncertainty(m: ReceiveView, flagged: bool, stored: Result<bool, String>)
    requires
        m.step is CheckingUncertainty,
    ensures
        m.next(ReceiveEvent::UncertaintyRead { flagged, stored }) == m.uncertainty_read(
            flagged,
            stored,
        ),
{
    reveal(ReceiveView::next);
}

/// A text goes nowhere on disk; anything else goes where it is to be saved, or into the
/// cache for the clipboard, and only where that place is an absolute path.
pub proof fn lemma_destinations(
    activation: FetchActivationView,
    card: DescriptorView,
    cache_root: PathView,
    path: PathView,
)
    ensures
        card is Text ==> destination_choice(activation, card, cache_root) == Ok::<
            Option<PathView>,
            FetchAdmissionCode,
        >(None),
        destination_choice(activation, card, cache_root) == Ok::<
            Option<PathView>,
            FetchAdmissionCode,
        >(Some(path)) <==> {
            &&& !(card is Text)
            &&& path.absolute
            &&& activation.mode is Save ==> activation.destination == Some(path)
            &&& activation.mode is Clipboard ==> path == cache_root
        },
        destination_choice(activation, card, cache_root) matches Err(code)
            ==> code is DestinationUnavailable && !(card is Text),
        destination_choice(activation, card, cache_root) is Err && activation.mode is Clipboard
            ==> !cache_root.absolute,
{
}

/// An activation starts with its card, unless cleanup is unresolved, it was cancelled, or
/// it is not the one that was asked for.
pub proof fn lemma_activations_begin(
    fresh: ReceiveView,
    matches_peer: bool,
    cleanup_blocked: bool,
    cancelled: bool,
)
    requires
        fresh.step is LoadingCard,
    ensures
        begun(fresh, matches_peer, cleanup_blocked, cancelled).step is LoadingCard <==> matches_peer
            && !cleanup_blocked && !cancelled,
        matches_peer && !cleanup_blocked && !cancelled ==> begun(
            fresh,
            matches_peer,
            cleanup_blocked,
            cancelled,
        ) == fresh,
        !cleanup_blocked && cancelled ==> (begun(
            fresh,
            matches_peer,
            cleanup_blocked,
            cancelled,
        ).ending.error matches Some(NetError::FetchTerminal { code, .. }) && code is Cancelled),
        !cleanup_blocked && !cancelled && !matches_peer ==> begun(
            fresh,
            matches_peer,
            cleanup_blocked,
            cancelled,
        ).ending.error matches Some(NetError::IdentityMismatch(_)),
{
}

/// The card is kept as it was stored and the header is read; without a card there is
/// nothing to fetch.
pub proof fn lemma_the_card_comes_first(
    m: ReceiveView,
    card: OfferDescriptor,
    error: String,
)
    requires
        m.step is LoadingCard,
    ensures
        ({
            let q = m.after(ReceiveEvent::CardLoaded(Ok(Some(card))));
            q.card == Some(card@) && q.action() is ReadHeader
        }),
        m.after(ReceiveEvent::CardLoaded(Ok(None))).ending.error matches Some(
            NetError::Rejected(_),
        ),
        m.after(ReceiveEvent::CardLoaded(Err(error))).ending.error == Some(
            NetError::OfferStorage(error@),
        ),
        m.after(ReceiveEvent::CardLoaded(Ok(None))).step is Ending,
        m.after(ReceiveEvent::CardLoaded(Err(error))).step is Ending,
{
    reveal(ReceiveView::next);
}

/// A header that answers the request is kept, and its manifest is read; any other is
/// refused as invalid.
pub proof fn lemma_the_header_comes_next(m: ReceiveView, header: FetchHeader)
    requires
        m.step is ReadingHeader,
    ensures
        ({
            let q = m.after(ReceiveEvent::HeaderRead(Ok(header)));
            &&& q.action() is ReadManifest <==> header_answers(header@, m.card->0, m.activation)
            &&& q.action() is ReadManifest ==> q.header == Some(header@)
            &&& !(q.action() is ReadManifest) ==> q.step is Ending && q.ending.admission == Some(
                FetchAdmissionCode::InvalidManifest,
            )
        }),
{
    reveal(ReceiveView::next);
}

/// A manifest that is accepted, with a place to go, is kept; any other is refused with
/// what is wrong.
pub proof fn lemma_the_manifest_comes_then(m: ReceiveView, manifest: Manifest)
    requires
        m.step is ReadingManifest,
    ensures
        ({
            let q = m.after(ReceiveEvent::ManifestRead(Ok(manifest)));
            let wrong = manifest_error(m.header->0, m.card->0, manifest@, m.limits);
            let place = destination_choice(m.activation, m.card->0, m.cache_root);
            &&& q.action() is QueryUncertainty <==> wrong is None && place is Ok
            &&& q.action() is QueryUncertainty ==> q.entries == manifest@.entries
                && Ok::<Option<PathView>, FetchAdmissionCode>(q.destination) == place
            &&& wrong is Some ==> q.step is Ending && q.ending.admission == wrong
            &&& wrong is None ==> (place matches Err(code) ==> q.step is Ending
                && q.ending.admission == Some(code))
        }),
{
    reveal(ReceiveView::next);
}

/// Once it is known that the clipboard is not in doubt, the place is made ready, where
/// there is one, and room is asked for exactly where there are bytes to put on disk.
pub proof fn lemma_the_place_is_made_ready(m: ReceiveView, cancelled: bool)
    requires
        m.wf(),
    ensures
        m.step is CheckingUncertainty ==> ({
            let q = m.after(ReceiveEvent::UncertaintyRead { flagged: false, stored: Ok(false) });
            &&& m.destination is Some ==> q.action() is EnsureDestination
            &&& m.destination is None ==> q.action() is Journal
        }),
        m.step is EnsuringDestination ==> m.after(
            ReceiveEvent::Local { result: Ok(()), cancelled },
        ).action() is RequireDestination,
        m.step is CheckingDestination && m.destination is Some ==> ({
            let q = m.after(ReceiveEvent::Local { result: Ok(()), cancelled });
            &&& m.counts.total_bytes > 0 ==> q.action() == ReceiveAction::<Seq<char>>::Reserve(
                m.counts.total_bytes,
            )
            &&& m.counts.total_bytes == 0 ==> q.action() is Journal
        }),
        m.step is Reserving ==> ({
            let q = m.after(ReceiveEvent::Reserved(Ok(())));
            q.permit && q.action() is Journal
        }),
{
    lemma_next_local(m, Ok(()), cancelled);
    lemma_next_reserved(m, Ok(()));
    if m.step is CheckingUncertainty {
        lemma_next_uncertainty(m, false, Ok(false));
    }
}

/// The steps that are done here follow each other, each after the one before succeeded:
/// the journal, staging, the answer, the transfer, publication and the records.
pub proof fn lemma_local_steps_follow_each_other(m: ReceiveView)
    ensures
        ({
            let next = m.after(ReceiveEvent::Local { result: Ok(()), cancelled: false });
            &&& m.step is Journaling ==> next.action() is PrepareStaging && next.guard is Armed
            &&& m.step is Preparing ==> next.action() is InspectStaging
            &&& m.step is InspectingStaging ==> next.action() == (ReceiveAction::<
                Seq<char>,
            >::WriteAdmission {
                code: FetchAdmissionCode::Accepted,
                entries: m.counts.file_count,
                bytes: m.counts.total_bytes,
                detail: None,
            })
            &&& m.step is MarkingTransferring ==> next.action() is ReceivePayload
            &&& m.step is MarkingVerified ==> next.action() is Publish
            &&& m.step is ClearingStaging ==> next.action() == ReceiveAction::<
                Seq<char>,
            >::UpdateState(ActivationState::Completed)
            &&& m.step is MarkingCompleted ==> (next.action() matches ReceiveAction::RecordAttempt(
                attempt,
            ) && attempt.code is Completed && attempt.files == m.counts.file_count && attempt.bytes
                == m.counts.total_bytes)
        }),
{
    lemma_next_local(m, Ok(()), false);
}

/// What was sent, received, published, applied and recorded leads on to the next step.
pub proof fn lemma_other_steps_follow_each_other(m: ReceiveView)
    ensures
        m.step is Admitting ==> m.after(ReceiveEvent::Sent(Ok(()))).action() == ReceiveAction::<
            Seq<char>,
        >::UpdateState(ActivationState::Transferring),
        m.step is Transferring ==> m.after(
            ReceiveEvent::PayloadReceived { result: Ok(()), cancelled: false },
        ).action() == ReceiveAction::<Seq<char>>::UpdateState(ActivationState::Verified),
        m.step is Publishing ==> m.after(
            ReceiveEvent::Published(Ok(())),
        ).action() is ApplySideEffect,
        m.step is Publishing ==> m.after(ReceiveEvent::Published(Ok(()))).guard is Kept,
        m.step is Applying ==> m.after(ReceiveEvent::Applied(Ok(()))).action() is ClearStaging,
        m.step is RecordingCompleted ==> m.after(
            ReceiveEvent::Recorded(Ok(())),
        ).action() is RemoveJournal,
{
    lemma_next_sent(m, Ok(()));
    lemma_next_payload(m, Ok(()), false);
    lemma_next_published(m, Ok(()));
    lemma_next_applied(m, Ok(()));
    lemma_next_recorded(m, Ok(()));
}

/// When the journal is gone the origin is told, and the activation is over without an
/// error.
pub proof fn lemma_completion_is_told(m: ReceiveView, cancelled: bool)
    requires
        m.step is RemovingJournal,
    ensures
        ({
            let q = m.after(ReceiveEvent::Local { result: Ok(()), cancelled });
            let told = q.after(ReceiveEvent::Sent(Ok(())));
            &&& q.action() matches ReceiveAction::SendReceipt(note) && note.code is Completed
                && note.files == m.counts.file_count && note.bytes == m.counts.total_bytes
            &&& told.action() is Finish
            &&& told.ending.error is None
        }),
{
    lemma_next_local(m, Ok(()), cancelled);
    let q = m.after(ReceiveEvent::Local { result: Ok(()), cancelled });
    lemma_next_sent(q, Ok(()));
    reveal(ReceiveView::due);
    reveal_with_fuel(ReceiveView::due, 9);
}

/// A cancellation is noticed before the transfer and after it, and ends the activation as
/// cancelled, with what was received, after cleanup.
pub proof fn lemma_cancellations(m: ReceiveView, files: u32, bytes: u64)
    ensures
        m.step is MarkingTransferring ==> m.after(
            ReceiveEvent::Local { result: Ok(()), cancelled: true },
        ).ending == cancelled_ending(0, 0),
        m.step is Transferring ==> m.after(
            ReceiveEvent::PayloadReceived { result: Ok(()), cancelled: true },
        ).ending == cancelled_ending(m.counts.file_count, m.counts.total_bytes),
        ({
            let ending = cancelled_ending(files, bytes);
            &&& ending.shutdown && ending.cleanup is Plain && ending.receipt is None
                && ending.admission is None && !ending.mark_uncertain
            &&& ending.attempt matches Some(attempt) && attempt.code is Cancelled && attempt.files
                == files && attempt.bytes == bytes && attempt.detail is None
            &&& ending.error matches Some(NetError::FetchTerminal {
                code,
                files_processed,
                bytes_processed,
                detail,
            }) && code is Cancelled && files_processed == files && bytes_processed == bytes
        }),
{
    lemma_next_local(m, Ok(()), true);
    lemma_next_payload(m, Ok(()), true);
}

/// A refusal tells the origin its code, records an attempt of nothing, and reports the
/// same code; busy and cancelled are recorded as such, all others as failed.
pub proof fn lemma_refusals(code: FetchAdmissionCode, detail: Option<Seq<char>>)
    ensures
        ({
            let ending = refusal_ending(code, detail);
            &&& ending.admission == Some(code) && ending.admission_detail == detail
            &&& ending.receipt is None && ending.cleanup is Skip && !ending.mark_uncertain
                && !ending.shutdown
            &&& ending.attempt matches Some(attempt) && attempt.code == refusal_attempt(code)
                && attempt.files == 0 && attempt.bytes == 0 && (detail is Some ==> attempt.detail
                == detail) && (detail is None ==> attempt.detail == Some(
                "fetch admission refused with "@ + code.name_text(),
            ))
            &&& ending.error matches Some(NetError::FetchAdmissionRefused {
                code: reported,
                entries_reserved,
                bytes_reserved,
                detail: told,
            }) && reported == code && entries_reserved == 0 && bytes_reserved == 0 && told == detail
        }),
        refusal_attempt(code) is Busy <==> code is RefusedBusy,
        refusal_attempt(code) is Cancelled <==> code is Cancelled,
        refusal_attempt(code) is Failed <==> !(code is RefusedBusy || code is Cancelled),
{
}

/// Room that is missing is refused as such, and a place that cannot be used as
/// unavailable.
pub proof fn lemma_places_that_are_refused(
    m: ReceiveView,
    error: ReservationError,
    text: String,
    cancelled: bool,
)
    ensures
        m.step is Reserving ==> ({
            let q = m.after(ReceiveEvent::Reserved(Err(error)));
            &&& q.step is Ending
            &&& q.ending.admission == Some(FetchAdmissionCode::InsufficientSpace)
                <==> error is InsufficientSpace
            &&& !(error is InsufficientSpace) ==> q.ending.admission == Some(
                FetchAdmissionCode::DestinationUnavailable,
            )
        }),
        m.step is EnsuringDestination || m.step is CheckingDestination ==> ({
            let q = m.after(ReceiveEvent::Local { result: Err(text), cancelled });
            &&& q.step is Ending
            &&& q.ending.admission == Some(FetchAdmissionCode::DestinationUnavailable)
            &&& q.ending.admission_detail == Some(safe(text@))
        }),
        m.step is Preparing ==> ({
            let q = m.after(ReceiveEvent::Local { result: Err(text), cancelled });
            &&& q.step is Ending
            &&& q.ending.admission == Some(FetchAdmissionCode::AllocationFailed)
            &&& q.ending.cleanup == Cleanup::Explained("allocation failed: "@ + text@)
        }),
{
    lemma_next_reserved(m, Err(error));
    lemma_next_local(m, Err(text), cancelled);
}

/// What a failed transfer is recorded as, what is told to the origin, and what is
/// reported, with what was received; staging is always cleaned up.
pub proof fn lemma_failed_transfers(failure: ReceiveFailure<Seq<char>>)
    ensures
        ({
            let ending = payload_ending(failure);
            let told = ending.receipt;
            &&& ending.cleanup is Plain && ending.admission is None && !ending.mark_uncertain
            &&& ending.attempt is Some
            &&& failure matches ReceiveFailure::Aborted { code, files, bytes } ==> {
                &&& ending.attempt->0.code == abort_attempt(code)
                &&& told is Some && told->0.code == abort_receipt(code)
                &&& ending.error is Some && ending.error->0 is FetchAborted
            }
            &&& failure is Verification ==> {
                &&& ending.attempt->0.code is VerificationFailed
                &&& told is Some && told->0.code is VerificationFailed && ending.receipt_required
                &&& ending.error is Some && ending.error->0 is FetchTerminal
            }
            &&& failure is LocalCancelled ==> {
                &&& ending.attempt->0.code is Cancelled
                &&& told is Some && told->0.code is Cancelled && !ending.receipt_required
                &&& ending.shutdown
            }
            &&& failure is Disconnected || failure is Protocol || failure is LocalIo
                || failure is Io ==> ending.attempt->0.code is Failed && told is None
            &&& failure matches ReceiveFailure::Verification { files, bytes, detail }
                ==> ending.attempt->0.files == files && ending.attempt->0.bytes == bytes
                && told->0.files == files && told->0.bytes == bytes && told->0.detail == Some(
                safe(detail),
            )
            &&& failure matches ReceiveFailure::Aborted { code, files, bytes }
                ==> ending.attempt->0.files == files && ending.attempt->0.bytes == bytes
                && told->0.files == files && told->0.bytes == bytes
            &&& failure matches ReceiveFailure::LocalCancelled { files, bytes }
                ==> ending.attempt->0.files == files && ending.attempt->0.bytes == bytes
                && told->0.files == files && told->0.bytes == bytes
            &&& failure matches ReceiveFailure::Disconnected { files, bytes }
                ==> ending.attempt->0.files == files && ending.attempt->0.bytes == bytes
        }),
{
}

/// How an abort is recorded and answered.
pub proof fn lemma_aborts(code: FetchAbortCode)
    ensures
        abort_attempt(code) is SourceUnavailable <==> code is SourceUnavailable,
        abort_attempt(code) is SourceChanged <==> code is SourceChanged,
        abort_attempt(code) is Cancelled <==> code is Cancelled,
        abort_attempt(code) is Failed <==> code is InternalError,
        abort_receipt(code) is Cancelled <==> code is Cancelled,
        abort_receipt(code) is InternalError <==> !(code is Cancelled),
{
}

/// How a header that did not come is recorded.
pub proof fn lemma_headers_that_did_not_come(m: ReceiveView, error: NetError)
    ensures
        header_attempt(error@) is SourceUnavailable <==> (error@ matches NetError::FetchRefused {
            code,
            ..
        } && code is SourceUnavailable),
        header_attempt(error@) is SourceChanged <==> (error@ matches NetError::FetchRefused {
            code,
            ..
        } && code is SourceChanged),
        header_attempt(error@) is Busy <==> (error@ matches NetError::FetchRefused { code, .. }
            && code is Busy),
        header_attempt(error@) is SourceUnavailable || header_attempt(error@) is SourceChanged
            || header_attempt(error@) is Busy || header_attempt(error@) is Failed,
        m.step is ReadingHeader ==> ({
            let q = m.after(ReceiveEvent::HeaderRead(Err(error)));
            &&& q.step is Ending && q.ending.error == Some(error@) && q.ending.admission is None
            &&& q.ending.attempt matches Some(attempt) && attempt.code == header_attempt(error@)
                && attempt.files == 0 && attempt.bytes == 0
        }),
{
    reveal(ReceiveView::next);
}

/// A publication that failed, and a side effect that certainly did not happen, are cleaned
/// up, recorded and told; one that may have happened is marked so and left as it is.
pub proof fn lemma_late_failures(m: ReceiveView, error: NetError)
    ensures
        m.step is Publishing ==> ({
            let q = m.after(ReceiveEvent::Published(Err(error)));
            let local = error@ is Io || error@ is FetchLocalIo;
            &&& q.step is Ending && q.ending.cleanup is Explained && !q.ending.mark_uncertain
            &&& q.ending.attempt is Some && q.ending.attempt->0.code is Failed
            &&& local ==> q.ending.receipt is None && q.ending.error is Some
                && q.ending.error->0 is FetchLocalIo
            &&& !local ==> q.ending.receipt is Some && q.ending.receipt->0.code is InternalError
        }),
        m.step is Applying ==> ({
            let q = m.after(ReceiveEvent::Applied(Err(SideEffectFailure::Terminal(error))));
            &&& q.step is Ending && q.ending.cleanup is Explained && !q.ending.mark_uncertain
            &&& q.ending.attempt is Some && q.ending.attempt->0.code is ClipboardFailed
            &&& q.ending.receipt is Some && q.ending.receipt->0.code is ClipboardFailed
        }),
        m.step is Applying ==> ({
            let q = m.after(ReceiveEvent::Applied(Err(SideEffectFailure::Uncertain(error))));
            &&& q.ending.mark_uncertain && q.ending.cleanup is Skip && !q.permit
            &&& q.ending.attempt is Some && q.ending.attempt->0.code is UncertainNoReplay
            &&& q.ending.receipt is Some && q.ending.receipt->0.code is UncertainNoReplay
            &&& q.action() == ReceiveAction::<Seq<char>>::UpdateState(
                ActivationState::UncertainNoReplay,
            )
        }),
{
    lemma_next_published(m, Err(error));
    lemma_next_applied(m, Err(SideEffectFailure::Terminal(error)));
    lemma_next_applied(m, Err(SideEffectFailure::Uncertain(error)));
    reveal(ReceiveView::due);
}

/// After the side effect nothing is taken back: whatever fails then leaves the activation
/// uncertain, and stops later ones until it is resolved.
pub proof fn lemma_failures_after_the_side_effect(
    m: ReceiveView,
    text: String,
    error: NetError,
    cancelled: bool,
)
    ensures
        m.step is ClearingStaging || m.step is MarkingCompleted || m.step is RemovingJournal ==> ({
            let q = m.after(ReceiveEvent::Local { result: Err(text), cancelled });
            &&& q.ending.mark_uncertain && q.blocked && q.ending.cleanup is Skip
            &&& q.ending.receipt is Some && q.ending.receipt->0.code is UncertainNoReplay
        }),
        m.step is RecordingCompleted ==> ({
            let q = m.after(ReceiveEvent::Recorded(Err(error)));
            &&& q.ending.mark_uncertain && q.blocked && q.ending.cleanup is Skip
            &&& q.ending.receipt is Some && q.ending.receipt->0.code is UncertainNoReplay
        }),
        m.step is Journaling || m.step is MarkingTransferring || m.step is MarkingVerified ==> (
        m.after(ReceiveEvent::Local { result: Err(text), cancelled }).ending.error == Some(
            NetError::FetchServiceOwned(text@),
        )),
{
    lemma_next_local(m, Err(text), cancelled);
    lemma_next_recorded(m, Err(error));
}

/// Cleanup that worked lets the guard go; one that did not keeps it, and blocks later
/// activations.
pub proof fn lemma_cleanups(m: ReceiveView, error: NetError)
    requires
        m.step == Step::Ending(Stage::Cleanup),
    ensures
        ({
            let q = m.after(ReceiveEvent::CleanedUp(Ok(())));
            q.guard is Disarmed && !q.permit && q.blocked == m.blocked && q.ending == m.ending
        }),
        ({
            let q = m.after(ReceiveEvent::CleanedUp(Err(error)));
            q.guard is Kept && !q.permit && q.blocked
        }),
{
    reveal(ReceiveView::next);
}

// The side effect.

/// What is applied after the journal says so: a text is put on the clipboard, files for
/// the clipboard are stored first, and saved files need nothing more; anything else cannot
/// be applied.
pub proof fn lemma_what_is_applied(m: SideEffectView)
    requires
        m.step is MarkApplying,
    ensures
        ({
            let next = m.next(SideEffectEvent::Local(Ok(())));
            let failed = next matches SideEffectStep::Finished(
                Err(SideEffectFailure::Terminal(_)),
            );
            &&& next is SetText <==> m.is_text && m.mode is Clipboard && m.published is None
                && m.text is Some
            &&& next matches SideEffectStep::SetText(text) ==> m.text == Some(text)
            &&& next is StoreCandidate <==> m.mode is Clipboard && m.published is Some
            &&& next == succeeded() <==> m.mode is Save && m.published is Some
            &&& failed <==> m.published is None && !(m.is_text && m.mode is Clipboard
                && m.text is Some)
        }),
{
}

/// Files that are stored are put on the clipboard, and once they are there the earlier
/// ones are removed; those that were put there before are not removed where they are the
/// same.
pub proof fn lemma_files_on_the_clipboard(
    m: SideEffectView,
    path: Seq<char>,
    previous: Option<String>,
    error: String,
)
    requires
        m.published == Some(path),
    ensures
        m.step is StoreCandidate ==> m.next(SideEffectEvent::Local(Ok(())))
            == SideEffectStep::SetFiles(path),
        m.step is StoreCandidate ==> m.next(SideEffectEvent::Local(Err(error)))
            == SideEffectStep::RemoveUnstored(error@),
        m.step is SetFiles ==> m.next(SideEffectEvent::ClipboardSet(Ok(()))) is Promote,
        m.step is Promote ==> ({
            let next = m.next(SideEffectEvent::Promoted(Ok(previous)));
            let other = previous matches Some(old) && old@ != path;
            &&& next is RemovePrevious <==> other
            &&& next matches SideEffectStep::RemovePrevious(old) ==> previous matches Some(p) && p@
                == old
            &&& next == succeeded() <==> !other
        }),
        m.step is RemovePrevious ==> m.next(SideEffectEvent::Local(Ok(()))) == succeeded(),
        m.step is SetText ==> m.next(SideEffectEvent::ClipboardSet(Ok(()))) == succeeded(),
{
}

/// A clipboard that was certainly not changed is reported as failed, and what was stored
/// for it is taken back; one that may have changed is reported as uncertain, and nothing
/// is taken back.
pub proof fn lemma_clipboards_that_fail(m: SideEffectView, error: ClipboardError, reason: Seq<char>)
    ensures
        clipboard_failure(error) is Uncertain <==> error.may_have_happened(),
        clipboard_failure(error) matches SideEffectFailure::Uncertain(e) ==> e
            == NetError::FetchServiceOwned(error.text()),
        clipboard_failure(error) matches SideEffectFailure::Terminal(e) ==> e
            == NetError::FetchServiceOwned(error.text()),
        m.step is SetText ==> m.next(SideEffectEvent::ClipboardSet(Err(error)))
            == SideEffectStep::Finished(Err(clipboard_failure(error))),
        m.step is SetFiles ==> ({
            let next = m.next(SideEffectEvent::ClipboardSet(Err(error)));
            &&& next is ClearIndex <==> !error.may_have_happened()
            &&& next is Finished <==> error.may_have_happened()
        }),
        m.step == SideEffectStep::ClearIndex(reason) ==> m.next(SideEffectEvent::Local(Ok(())))
            == SideEffectStep::RemoveCandidate(reason, None),
{
}

// Staging.

/// Staging starts with its parent and its root, which is new, makes the payload directory
/// for a folder alone, and ends with a sync.
pub proof fn lemma_staging_order(kind: ContentKind, entries: Seq<EntryView>)
    ensures
        ({
            let steps = staging_steps(kind, entries);
            let extra: int = if kind is Folder { 1 } else { 0 };
            &&& steps[0] is EnsureParent && steps[1] is CreateRoot
            &&& kind is Folder ==> steps[2] is EnsurePayload
            &&& steps.last() is SyncRoot
            &&& steps.len() == 3 + extra + directories_of(entries).len() + file_steps(
                kind,
                entries,
            ).len()
        }),
{
    crate::staging::lemma_directories_from_the_top(directories_of(entries));
    let deep = crate::staging::by_depth(directories_of(entries));
    assert(deep.to_multiset().len() == deep.len()) by {
        deep.to_multiset_ensures();
    }
    directories_of(entries).to_multiset_ensures();
}

/// Every directory and every file of the manifest has its place in staging, under the
/// names of its path; one file alone is the payload itself.
pub proof fn lemma_staged_entries(kind: ContentKind, entries: Seq<EntryView>, i: int)
    requires
        0 <= i < entries.len(),
    ensures
        entries[i].kind is Directory ==> directories_of(entries).contains(
            split_on(entries[i].relative_path, '/'),
        ),
        entries[i].kind is File ==> file_steps(kind, entries).contains(
            StagingStep::CreateFile {
                path: if kind is File {
                    Seq::empty()
                } else {
                    split_on(entries[i].relative_path, '/')
                },
                byte_len: entries[i].byte_len,
            },
        ),
    decreases entries.len(),
{
    let before = entries.drop_last();
    let directories = directories_of(before);
    let files = file_steps(kind, before);
    if i < before.len() {
        lemma_staged_entries(kind, before, i);
        if entries[i].kind is Directory {
            let k = choose|k: int|
                0 <= k < directories.len() && directories[k] == split_on(
                    before[i].relative_path,
                    '/',
                );
            assert(directories_of(entries)[k] == directories[k]);
        } else {
            let step = StagingStep::CreateFile {
                path: if kind is File {
                    Seq::empty()
                } else {
                    split_on(entries[i].relative_path, '/')
                },
                byte_len: entries[i].byte_len,
            };
            let k = choose|k: int| 0 <= k < files.len() && files[k] == step;
            assert(file_steps(kind, entries)[k] == files[k]);
        }
    } else if entries[i].kind is Directory {
        assert(directories_of(entries).last() == split_on(entries[i].relative_path, '/'));
        assert(directories_of(entries)[directories_of(entries).len() - 1] == split_on(
            entries[i].relative_path,
            '/',
        ));
    } else {
        let n = file_steps(kind, entries).len() - 1;
        assert(file_steps(kind, entries)[n] is CreateFile);
    }
}

/// Removing staging: the tree goes first, then its parent where it is a directory that is
/// empty; a parent that is gone, or holds more, is no failure.
pub proof fn lemma_staging_is_removed(fault: IoFault, is_directory: bool, has_parent: bool)
    ensures
        ({
            let done = RemovalEvent::Done(Ok(()));
            let failed = RemovalEvent::Done(Err(fault));
            let tree = StagingCleanup::<Seq<char>>::RemoveTree;
            let inspect = StagingCleanup::<Seq<char>>::InspectParent;
            let check = StagingCleanup::<Seq<char>>::CheckParent { is_directory };
            let parent = StagingCleanup::<Seq<char>>::RemoveParent;
            let end = StagingCleanup::<Seq<char>>::Finished(Ok(()));
            let error = StagingCleanup::<Seq<char>>::Finished(Err(fault@));
            let seen = RemovalEvent::Inspected(Ok(is_directory));
            let unseen = RemovalEvent::Inspected(Err(fault));
            &&& cleanup_next(tree, done, true) == inspect
            &&& cleanup_next(tree, done, false) == end
            &&& cleanup_next(tree, failed, has_parent) == error
            &&& cleanup_next(inspect, seen, has_parent) == check
            &&& cleanup_next(inspect, unseen, has_parent) == end <==> fault.kind is NotFound
            &&& cleanup_next(inspect, unseen, has_parent) == error <==> !(fault.kind is NotFound)
            &&& is_directory ==> cleanup_next(check, done, has_parent) == parent
            &&& !is_directory ==> cleanup_next(check, done, has_parent) == end
            &&& cleanup_next(check, failed, has_parent) == error
            &&& cleanup_next(parent, done, has_parent) == end
            &&& cleanup_next(parent, failed, has_parent) == end <==> fault.kind is NotFound
                || fault.kind is DirectoryNotEmpty
            &&& cleanup_next(parent, failed, has_parent) == error <==> !(fault.kind is NotFound
                || fault.kind is DirectoryNotEmpty)
        }),
{
}

/// Removing what was cached: a directory with what it holds, anything else as a file;
/// what is not there needs no removal.
pub proof fn lemma_cached_content_is_removed(fault: IoFault, is_directory: bool)
    ensures
        ({
            let done = RemovalEvent::Done(Ok(()));
            let failed = RemovalEvent::Done(Err(fault));
            let inspect = CacheRemoval::<Seq<char>>::Inspect;
            let check = CacheRemoval::<Seq<char>>::Check { is_directory };
            let tree = CacheRemoval::<Seq<char>>::RemoveTree;
            let file = CacheRemoval::<Seq<char>>::RemoveFile;
            let end = CacheRemoval::<Seq<char>>::Finished(Ok(()));
            let error = CacheRemoval::<Seq<char>>::Finished(Err(fault@));
            let unseen = RemovalEvent::Inspected(Err(fault));
            &&& removal_next(inspect, RemovalEvent::Inspected(Ok(is_directory))) == check
            &&& removal_next(inspect, unseen) == end <==> fault.kind is NotFound
            &&& removal_next(inspect, unseen) == error <==> !(fault.kind is NotFound)
            &&& removal_next(check, done) == tree <==> is_directory
            &&& removal_next(check, done) == file <==> !is_directory
            &&& removal_next(check, failed) == error
            &&& removal_next(tree, done) == end && removal_next(file, done) == end
            &&& removal_next(tree, failed) == error && removal_next(file, failed) == error
        }),
{
}

/// Publishing under one name: the payload and the directory are looked at, then a file is
/// linked and its staged name removed, or a folder renamed.  A failure is reported as it
/// is, and as a taken name exactly where something of that name exists.
pub proof fn lemma_one_name_is_tried(
    step: Finalization<Seq<char>>,
    fault: IoFault,
    kind: ContentKind,
    has_parent: bool,
)
    requires
        !(step is Finished),
    ensures
        finalization_next(step, Err(fault), kind, has_parent) matches Finalization::Finished {
            result,
            name_taken,
        } && result == Err::<(), _>(NetError::Io(fault@.text)) && (name_taken
            <==> fault.kind is AlreadyExists),
        ({
            let next = finalization_next(step, Ok(()), kind, has_parent);
            let end = Finalization::<Seq<char>>::Finished { result: Ok(()), name_taken: false };
            &&& step is CheckPayload && has_parent ==> next is RequireParent
            &&& step is CheckPayload && !has_parent ==> next is Finished && next != end
            &&& step is RequireParent && kind is File ==> next is LinkFile
            &&& step is RequireParent && !(kind is File) ==> next is RenameFolder
            &&& step is LinkFile ==> next is RemoveStaged
            &&& step is RemoveStaged || step is RenameFolder <==> next == end
        }),
{
}

// The end of an activation.

/// What there is to do at the end follows from what is owed, and is done in a fixed order:
/// the mark, the cleanup, the answer, the attempt, the receipt, the shutdown, the guard.
pub proof fn lemma_what_is_owed_is_done_in_order(m: ReceiveView, from: Stage, stage: Stage)
    ensures
        rank(m.due(from)) >= rank(from),
        rank(from) <= rank(stage) < rank(m.due(from)) ==> !m.has_work(stage),
        m.due(from) is Done || m.has_work(m.due(from)),
        m.has_work(Stage::Mark) <==> m.ending.mark_uncertain,
        m.has_work(Stage::Cleanup) <==> !(m.ending.cleanup is Skip),
        m.has_work(Stage::Admission) <==> m.ending.admission is Some,
        m.has_work(Stage::Attempt) <==> m.ending.attempt is Some,
        m.has_work(Stage::Receipt) <==> m.ending.receipt is Some,
        m.has_work(Stage::Shutdown) <==> m.ending.shutdown,
        m.has_work(Stage::Guard) <==> m.guard is Armed,
        rank(Stage::Mark) < rank(Stage::Cleanup),
        rank(Stage::Cleanup) < rank(Stage::Admission),
        rank(Stage::Admission) < rank(Stage::Attempt),
        rank(Stage::Attempt) < rank(Stage::Receipt),
        rank(Stage::Receipt) < rank(Stage::Shutdown),
        rank(Stage::Shutdown) < rank(Stage::Guard),
        rank(Stage::Guard) < rank(Stage::Done),
    decreases 7 - rank(from),
{
    reveal(ReceiveView::due);
    reveal_with_fuel(ReceiveView::due, 2);
    if !(m.has_work(from) || from is Done) {
        lemma_what_is_owed_is_done_in_order(m, stage_after(from), stage);
        if rank(stage) == rank(from) {
            assert(stage == from);
        }
    }
}

/// What was refused before the transfer for want of a manifest is told by its cause.
pub proof fn lemma_manifests_that_did_not_come(
    m: ReceiveView,
    failure: ReceiveFailure<Seq<char>>,
)
    ensures
        ({
            let q = m.manifest_failed(failure);
            &&& q.step is Ending
            &&& failure is LocalCancelled <==> q.ending.admission == Some(
                FetchAdmissionCode::Cancelled,
            )
            &&& failure is Verification || failure is Aborted || failure is LocalIo
                <==> q.ending.admission == Some(FetchAdmissionCode::InvalidManifest)
            &&& failure matches ReceiveFailure::Protocol { detail, .. } ==> q.ending.error == Some(
                NetError::Protocol(detail),
            )
            &&& failure matches ReceiveFailure::Io(error) ==> q.ending.error == Some(error)
            &&& failure is Disconnected ==> q.ending.error is Some
                && q.ending.error->0 is FetchTerminal
        }),
{
}

/// An activation starts with nothing done; it is the one asked for exactly where its source
/// is the device at the other end.
pub proof fn lemma_nothing_is_done_at_first(
    activation: FetchActivationView,
    limits: V2Limits,
    cache_root: PathView,
    source: DeviceId,
    drawn_request: ActivationId,
    drawn_offer: OfferId,
)
    ensures
        ({
            let m = fresh_receive(activation, limits, cache_root);
            &&& m.action() is LoadCard
            &&& m.activation == activation && m.limits == limits && m.cache_root == cache_root
            &&& m.card is None && m.header is None && m.entries.len() == 0 && m.destination is None
            &&& m.guard is Inactive && !m.permit && !m.blocked
        }),
        activation.request_id != drawn_request && activation.offer_id != drawn_offer ==> (
        activation_matches(activation, source, drawn_request, drawn_offer)
            <==> activation.source_device == source),
        activation_matches(activation, source, drawn_request, drawn_offer) ==> (
        activation.source_device == source && activation.request_id != drawn_request
            && activation.offer_id != drawn_offer),
{
}

/// What is reported where no header came: a refusal of this request with its code and
/// counts, a cancellation, a lost connection, or the error as it is.
pub proof fn lemma_headers_that_were_refused(
    frame: Result<HeaderFrame, ReadFault>,
    activation: FetchActivationView,
)
    ensures
        header_failure(frame, activation) is FetchRefused <==> (frame matches Ok(
            HeaderFrame::Refusal(refusal, check),
        ) && refusal.request_id == activation.request_id && refusal.offer_id
            == activation.offer_id && check is Ok),
        header_failure(frame, activation) is IdentityMismatch <==> (frame matches Ok(
            HeaderFrame::Refusal(refusal, check),
        ) && !(refusal.request_id == activation.request_id && refusal.offer_id
            == activation.offer_id)),
        frame matches Ok(HeaderFrame::Refusal(refusal, check)) ==> (header_failure(
            frame,
            activation,
        ) matches NetError::FetchRefused { code, active_streams, max_active_streams, detail }
            ==> code == refusal.code && active_streams == refusal.active_streams
            && max_active_streams == refusal.max_active_streams && detail == opt_view(
            refusal.detail,
        )),
        frame matches Err(fault) ==> (fault@ is Cancelled ==> (header_failure(frame, activation)
            matches NetError::FetchTerminal { code, .. } && code is Cancelled)),
        frame matches Err(fault) ==> (fault@ matches ReadFault::Io { kind, text } ==> if
            disconnects(kind) {
            header_failure(frame, activation) matches NetError::FetchTerminal { code, .. }
                && code is ConnectionLost
        } else {
            header_failure(frame, activation) == NetError::Io(text)
        }),
{
}

/// What could not be cleaned up is told behind what went wrong before.
pub proof fn lemma_failed_cleanups_are_told(m: ReceiveView, reason: Seq<char>, error: NetError)
    requires
        m.step == Step::Ending(Stage::Cleanup),
    ensures
        m.ending.cleanup == Cleanup::Explained(reason) ==> m.after(
            ReceiveEvent::CleanedUp(Err(error)),
        ).ending.error == Some(
            NetError::FetchServiceOwned(reason + "; "@ + error@.message()),
        ),
        m.ending.cleanup is Plain ==> m.after(ReceiveEvent::CleanedUp(Err(error))).ending.error
            == Some(error@),
{
    reveal(ReceiveView::next);
}

/// What could not be taken back after a side effect that failed is told behind the failure.
pub proof fn lemma_failed_side_effects_are_told(
    m: SideEffectView,
    reason: Seq<char>,
    index_failure: Option<Seq<char>>,
    error: String,
)
    ensures
        m.step == SideEffectStep::RemoveUnstored(reason) ==> m.next(SideEffectEvent::Local(Ok(())))
            == terminal(reason) && m.next(SideEffectEvent::Local(Err(error))) == terminal(
            reason + "; candidate cleanup failed: "@ + error@,
        ),
        m.step == SideEffectStep::<Seq<char>>::ClearIndex(reason) ==> m.next(
            SideEffectEvent::Local(Err(error)),
        ) == SideEffectStep::<Seq<char>>::RemoveCandidate(reason, Some(error@)),
        m.step == SideEffectStep::<Seq<char>>::RemoveCandidate(reason, None) ==> m.next(
            SideEffectEvent::Local(Ok(())),
        ) == terminal(reason),
        m.step is MarkApplying ==> m.next(SideEffectEvent::Local(Err(error))) == terminal(error@),
        m.step is RemovePrevious ==> m.next(SideEffectEvent::Local(Err(error))) == uncertain(
            error@,
        ),
        m.step is Promote ==> m.next(SideEffectEvent::Promoted(Err(error))) == uncertain(error@),
        terminal(reason) == SideEffectStep::<Seq<char>>::Finished(
            Err(SideEffectFailure::Terminal(NetError::FetchServiceOwned(reason))),
        ),
        uncertain(reason) == SideEffectStep::<Seq<char>>::Finished(
            Err(SideEffectFailure::Uncertain(NetError::FetchServiceOwned(reason))),
        ),
{
}

/// What a side effect leaves behind: only cleanup that failed blocks later activations, and
/// only a clipboard that may have changed is in doubt, until what was there is removed.
pub proof fn lemma_what_side_effects_leave(m: SideEffectView, event: SideEffectEvent)
    ensures
        ({
            let left = m.effects(event);
            &&& left.block_cleanup <==> event is Local && event->Local_0 is Err && (
            m.step is RemoveUnstored || m.step is ClearIndex || m.step is RemoveCandidate)
            &&& left.uncertain == Some(true) ==> (event matches SideEffectEvent::ClipboardSet(
                Err(error),
            ) && error.may_have_happened()) || (event matches SideEffectEvent::Local(Err(_))
                && m.step is RemovePrevious)
            &&& left.uncertain == Some(false) ==> m.step is RemovePrevious || m.step is Promote
            &&& m.next(event) == succeeded() && (m.step is RemovePrevious || m.step is Promote)
                ==> left.uncertain == Some(false)
        }),
{
}

} // verus!
