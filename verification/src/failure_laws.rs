//! What goes wrong, and what it leads to.
use vstd::prelude::*;

use crate::activation::{ActivationMode, ActivationState, FetchActivationView};
use crate::controller::PairedPeer;
use crate::coordinator::{
    not_stored, offered, planned_from, refusal_recorded, shelf_read, stores_offer, unread_shelf,
    ActivationPlan, OfferPlan,
};
use crate::failure::{
    aborted, content_failure, control_failure, disconnects, safe, ReadFault, ReceiveFailure,
};
use crate::ids::{ActivationId, DeviceId, MessageId, OfferId};
use crate::net_error::NetError;
use crate::offer::DescriptorView;
use crate::offer_source::{
    prepare_source, OfferInput, Preparation, PreparedOfferSource, SourcePreparationError,
};
use crate::order::{joined, text_le};
use crate::payload::{PayloadEvent, PayloadMessage, PayloadStep, PayloadView};
use crate::publish::{PublishEvent, PublishStep, PublishView};
use crate::receive::{
    payload_ending, uncertain_ending, Attempt, Cleanup, Guard, ReceiveAction, ReceiveEvent,
    ReceiveView, Stage, Step,
};
use crate::receiver::header_failure;
use crate::report::{collected, AnnouncePeerOutcome, ReportView};
use crate::send::{fetch_next, FetchEvent, FetchStep};
use crate::settings::SaveDestination;
use crate::shelf_changes::{told, Subscriber};
use crate::source::{metadata_bytes, MetadataView};
use crate::source_plan::folder_walk;
use crate::store::{
    OfferAttemptCode, OfferCardRecord, OfferEligibilityUpdate, OfferSourceInput, OfferSourceInsert,
    StoreError,
};
use crate::text::decimal;
use crate::walk::{WalkRules, WalkStep};
use crate::wire::{FetchAdmissionCode, FetchReceiptCode};

verus! {

// Publication.

/// What fails while content is published ends the publication with its cause; what was
/// synced is published under the name that it was moved to.
pub proof fn lemma_publications_end(p: PublishView, drawn: MessageId, name: Seq<char>, text: String)
    ensures
        p.step == PublishStep::SyncParent(name) ==> p.next(
            PublishEvent::Local(Ok(())),
            drawn,
        ).step == PublishStep::Finished(Ok::<_, NetError<Seq<char>>>(Some(name))),
        p.step is MarkPublishing ==> p.next(PublishEvent::Local(Err(text)), drawn).step
            == PublishStep::Finished(
            Err::<Option<Seq<char>>, _>(NetError::FetchServiceOwned(text@)),
        ),
        p.step is RequireDestination || p.step is RequireTarget || p.step is SyncParent ==> p.next(
            PublishEvent::Local(Err(text)),
            drawn,
        ).step == PublishStep::Finished(Err::<Option<Seq<char>>, _>(NetError::Io(text@))),
        p.step is MarkPublishing && !(p.content_kind is Text) && p.has_destination ==> p.next(
            PublishEvent::Local(Ok(())),
            drawn,
        ).step is RequireDestination,
        p.step is RequireDestination && p.mode is Save ==> p.next(
            PublishEvent::Local(Ok(())),
            drawn,
        ).step is RequireTarget,
        p.step == PublishStep::Finalize(name) ==> p.next(
            PublishEvent::Finalized { result: Ok(()), name_taken: false },
            drawn,
        ).step == PublishStep::SyncParent(name),
{
}

// Activations.

/// Whether the clipboard is in doubt matters only to what is for the clipboard; where that
/// cannot be told, nothing is begun.
pub proof fn lemma_doubts_about_the_clipboard(
    m: ReceiveView,
    flagged: bool,
    stored: Result<bool, String>,
)
    requires
        m.step is CheckingUncertainty,
    ensures
        ({
            let q = m.after(ReceiveEvent::UncertaintyRead { flagged, stored });
            let doubt = flagged || stored == Ok::<bool, String>(true);
            &&& m.activation.mode is Save && (flagged || stored is Ok) && m.destination is Some
                ==> q.step is EnsuringDestination
            &&& m.activation.mode is Clipboard && (flagged || stored is Ok) && doubt
                ==> q.ending.admission == Some(FetchAdmissionCode::RefusedBusy)
            &&& m.activation.mode is Clipboard && !doubt && stored is Ok && m.destination is Some
                ==> q.step is EnsuringDestination
            &&& !flagged ==> (stored matches Err(error) ==> q.step is Ending && q.ending.error
                == Some(NetError::FetchServiceOwned(error@)))
        }),
{
    reveal(ReceiveView::next);
}

/// What cannot be sent ends an activation with the error; a receipt that need not arrive
/// does not.
pub proof fn lemma_what_cannot_be_sent(m: ReceiveView, error: NetError)
    ensures
        m.step is Admitting ==> m.after(ReceiveEvent::Sent(Err(error))).ending.error == Some(
            error@,
        ),
        m.step == Step::Ending(Stage::Admission) ==> m.after(
            ReceiveEvent::Sent(Err(error)),
        ).ending.error == Some(error@),
        m.step == Step::Ending(Stage::Receipt) && m.ending.receipt_required ==> m.after(
            ReceiveEvent::Sent(Err(error)),
        ).ending.error == Some(error@),
        m.step == Step::Ending(Stage::Receipt) && !m.ending.receipt_required ==> m.after(
            ReceiveEvent::Sent(Err(error)),
        ).ending == m.ending,
        m.step == Step::Ending(Stage::Receipt) || m.step == Step::Ending(Stage::Admission)
            ==> m.after(ReceiveEvent::Sent(Ok(()))).ending == m.ending,
{
    reveal(ReceiveView::next);
}

/// An attempt that cannot be recorded at the end is an error; where the side effect is in
/// doubt it also blocks later activations, and one that is recorded keeps the clipboard in
/// doubt.
pub proof fn lemma_attempts_at_the_end(m: ReceiveView, error: NetError)
    requires
        m.step == Step::Ending(Stage::Attempt),
    ensures
        m.after(ReceiveEvent::Recorded(Err(error))).ending.error == Some(error@),
        m.after(ReceiveEvent::Recorded(Err(error))).blocked == (m.blocked
            || m.ending.mark_uncertain),
        m.after(ReceiveEvent::Recorded(Ok(()))).ending == m.ending,
        m.effects(ReceiveEvent::Recorded(Ok(()))).set_uncertain == m.ending.mark_uncertain,
        !m.effects(ReceiveEvent::Recorded(Err(error))).set_uncertain,
        !m.effects(ReceiveEvent::Recorded(Ok(()))).block_cleanup,
{
    reveal(ReceiveView::next);
}

/// Later activations are blocked exactly by what is told so: a side effect whose records
/// failed, a cleanup that failed, or a guard that could not clean up.
pub proof fn lemma_what_blocks_later_activations(
    m: ReceiveView,
    text: String,
    error: NetError,
    staging_failed: bool,
    journal_failed: bool,
    cancelled: bool,
)
    ensures
        m.effects(ReceiveEvent::Local { result: Err(text), cancelled }).block_cleanup <==> (
        m.step is ClearingStaging || m.step is MarkingCompleted || m.step is RemovingJournal
            || m.step == Step::Ending(Stage::Mark)),
        !m.effects(ReceiveEvent::Local { result: Ok(()), cancelled }).block_cleanup,
        m.effects(ReceiveEvent::CleanedUp(Err(error))).block_cleanup <==> m.step == Step::Ending(
            Stage::Cleanup,
        ),
        !m.effects(ReceiveEvent::CleanedUp(Ok(()))).block_cleanup,
        m.effects(ReceiveEvent::GuardDropped { staging_failed, journal_failed }).block_cleanup
            <==> m.step == Step::Ending(Stage::Guard) && (staging_failed || journal_failed),
{
}

/// Space that was reserved is given back when it is no longer held, and only then.
pub proof fn lemma_reserved_space_is_given_back(m: ReceiveView, event: ReceiveEvent)
    ensures
        m.effects(event).release_permit <==> m.permit && !m.after(event).permit,
{
}

proof fn lemma_next_shut_down(m: ReceiveView)
    requires
        m.step == Step::Ending(Stage::Shutdown),
    ensures
        m.next(ReceiveEvent::ShutDown) == m.enter(Stage::Guard),
{
    reveal(ReceiveView::next);
}

proof fn lemma_due_after_shutdown(m: ReceiveView)
    ensures
        m.guard is Armed ==> m.due(Stage::Guard) == Stage::Guard,
        !(m.guard is Armed) ==> m.due(Stage::Guard) == Stage::Done,
{
    reveal(ReceiveView::due);
    reveal_with_fuel(ReceiveView::due, 2);
}

/// After the shutdown the guard is dropped, where there is one, and nothing is reserved any
/// more.
pub proof fn lemma_the_guard_comes_last(m: ReceiveView)
    requires
        m.step == Step::Ending(Stage::Shutdown),
    ensures
        ({
            let q = m.after(ReceiveEvent::ShutDown);
            &&& q.ending == m.ending && !q.permit
            &&& m.guard is Armed ==> q.action() is DropGuard
            &&& !(m.guard is Armed) ==> q.action() is Finish
        }),
{
    lemma_next_shut_down(m);
    lemma_due_after_shutdown(m);
}

proof fn lemma_next_dropped(m: ReceiveView, staging_failed: bool, journal_failed: bool)
    requires
        m.step == Step::Ending(Stage::Guard),
    ensures
        m.next(ReceiveEvent::GuardDropped { staging_failed, journal_failed }) == (ReceiveView {
            guard: Guard::Disarmed,
            step: Step::Ending(Stage::Done),
            ..m
        }),
{
    reveal(ReceiveView::next);
}

/// When the guard was dropped the activation is over.
pub proof fn lemma_a_dropped_guard_is_the_end(
    m: ReceiveView,
    staging_failed: bool,
    journal_failed: bool,
)
    requires
        m.step == Step::Ending(Stage::Guard),
    ensures
        ({
            let q = m.after(ReceiveEvent::GuardDropped { staging_failed, journal_failed });
            q.guard is Disarmed && q.action() is Finish && q.ending == m.ending
        }),
{
    lemma_next_dropped(m, staging_failed, journal_failed);
}

// Content.

/// A fault while content or a message is read ends the transfer, with what was received.
pub proof fn lemma_faults_end_a_transfer(p: PayloadView, fault: ReadFault)
    ensures
        p.step is ReadFileStart || p.step is ReadFileEnd ==> p.next(
            PayloadEvent::Message(Err(fault)),
        ).step == PayloadStep::<Seq<char>, Seq<u8>>::Finished(
            Err(control_failure(fault@, p.files_received, p.bytes_received)),
        ),
        p.step is ReadTextEnd ==> p.next(PayloadEvent::Message(Err(fault))).step == PayloadStep::<
            Seq<char>,
            Seq<u8>,
        >::Finished(Err(control_failure(fault@, 0, p.counts.total_bytes))),
        p.step is ReadComplete || p.step is ReadTextComplete ==> p.next(
            PayloadEvent::Message(Err(fault)),
        ).step == PayloadStep::<Seq<char>, Seq<u8>>::Finished(
            Err(control_failure(fault@, 0, 0)),
        ),
        p.step is ReadChunk ==> p.next(PayloadEvent::Content(Err(fault))).step == PayloadStep::<
            Seq<char>,
            Seq<u8>,
        >::Finished(
            Err(
                content_failure(
                    fault@,
                    "read file payload"@,
                    p.files_received,
                    p.bytes_received,
                ),
            ),
        ),
        p.step is ReadText ==> p.next(PayloadEvent::Content(Err(fault))).step == PayloadStep::<
            Seq<char>,
            Seq<u8>,
        >::Finished(Err(content_failure(fault@, "read payload"@, 0, 0))),
{
}

// Reports and stores.

/// The names in a report are sorted.
pub proof fn lemma_reports_are_sorted(outcomes: Seq<AnnouncePeerOutcome>, i: int, j: int)
    ensures
        ({
            let report = collected(outcomes);
            &&& 0 <= i < j < report.stored_on.len() ==> text_le(
                report.stored_on[i],
                report.stored_on[j],
            )
            &&& 0 <= i < j < report.unavailable.len() ==> text_le(
                report.unavailable[i],
                report.unavailable[j],
            )
            &&& 0 <= i < j < report.version_mismatch.len() ==> text_le(
                report.version_mismatch[i],
                report.version_mismatch[j],
            )
        }),
{
    let stored = crate::report::of_kind(outcomes, crate::report::OutcomeKind::Stored);
    let missed = crate::report::of_kind(outcomes, crate::report::OutcomeKind::Unavailable);
    let other = crate::report::of_kind(outcomes, crate::report::OutcomeKind::VersionMismatch);
    crate::order_laws::lemma_texts_are_sorted(stored, false, i, j);
    crate::order_laws::lemma_texts_are_sorted(missed, false, i, j);
    crate::order_laws::lemma_texts_are_sorted(other, false, i, j);
}

/// The card of a text counts its bytes and its lines, and shows its preview.
pub proof fn lemma_cards_of_texts(text: String, r: Result<Preparation, SourcePreparationError>)
    requires
        call_ensures(prepare_source, (OfferInput::Text(text),), r),
    ensures
        r matches Ok(Preparation::Ready(ready)) ==> (ready.descriptor@ matches DescriptorView::Text {
            utf8_bytes,
            line_count,
            preview,
        } && utf8_bytes == crate::text::byte_len(text@) && line_count == crate::offer::line_total(
            text@,
        ) as u32 && preview == crate::offer::preview_of(text@)),
{
}

/// A shelf that was read is handed on as it is; one that was not is told with its cause.
pub proof fn lemma_shelves_that_were_read(
    reply: Result<Vec<OfferCardRecord>, StoreError>,
    r: Result<Vec<OfferCardRecord>, String>,
    plan: Result<ActivationPlan, String>,
    offer_id: OfferId,
    mode: ActivationMode,
    destination: Result<SaveDestination, String>,
    drawn: ActivationId,
    cause: Seq<char>,
)
    requires
        shelf_read(reply, r),
        planned_from(reply, plan, offer_id, mode, destination, drawn),
    ensures
        r is Ok <==> reply is Ok,
        reply matches Ok(cards) ==> (r matches Ok(read) && read == cards),
        reply matches Err(error) ==> (r matches Err(text) && text@ == unread_shelf(error@)),
        reply matches Err(error) ==> (plan matches Err(text) && text@ == unread_shelf(error@)),
        unread_shelf(cause) == "could not read offer shelf: "@ + ("store error: "@ + cause),
        not_stored(cause) == "could not durably store offer: "@ + ("store error: "@ + cause),
{
}

/// An offer is made exactly where it was stored, with its card, its source and all devices.
pub proof fn lemma_offers_that_were_stored(
    input: OfferSourceInput,
    offer_id: OfferId,
    prepared: PreparedOfferSource,
    peers: Seq<PairedPeer>,
    reply: Result<OfferSourceInsert, StoreError>,
    r: Result<Option<OfferPlan>, String>,
    identity: DeviceId,
    card: DescriptorView,
    at: u64,
    refusal: Result<OfferEligibilityUpdate, StoreError>,
    told: Result<(), String>,
)
    requires
        stores_offer(input, offer_id, prepared, peers),
        offered(reply, r, identity, offer_id, peers, card, at),
        refusal_recorded(refusal, told),
    ensures
        input.offer_id == offer_id && input.descriptor == prepared.descriptor,
        input.source == prepared.source,
        input.announced_to@.len() == peers.len(),
        forall|i: int| 0 <= i < peers.len() ==> input.announced_to@[i] == (
        #[trigger] peers[i]).device_id,
        r is Ok <==> reply is Ok,
        reply is Ok ==> (r matches Ok(Some(plan)) && plan.offer_id == offer_id && plan.descriptor@
            == card && plan.announcements@.len() == peers.len()),
        reply matches Err(error) ==> (r matches Err(text) && text@ == not_stored(error@)),
        told is Ok <==> refusal is Ok,
{
}

/// What is lost is told with what had come: the files and bytes of a connection that broke,
/// and nothing where an error left nothing to count.
pub proof fn lemma_what_is_told_of_losses(m: ReceiveView, failure: ReceiveFailure<Seq<char>>)
    ensures
        failure matches ReceiveFailure::Disconnected { files, bytes } ==> payload_ending(
            failure,
        ).error == Some(
            NetError::FetchTerminal {
                code: FetchReceiptCode::ConnectionLost,
                files_processed: files,
                bytes_processed: bytes,
                detail: Some(
                    "connection lost after "@ + decimal(files as nat) + " files and "@ + decimal(
                        bytes as nat,
                    ) + " bytes"@,
                ),
            },
        ),
        failure matches ReceiveFailure::Io(error) ==> payload_ending(failure).error == Some(
            NetError::FetchTerminal {
                code: FetchReceiptCode::ConnectionLost,
                files_processed: 0,
                bytes_processed: 0,
                detail: Some(safe(error.message())),
            },
        ),
        failure matches ReceiveFailure::Io(error) ==> payload_ending(failure).attempt == Some(
            Attempt {
                code: OfferAttemptCode::Failed,
                files: 0,
                bytes: 0,
                detail: Some(safe(error.message())),
            },
        ),
        failure matches ReceiveFailure::Protocol { files, bytes, detail } ==> payload_ending(
            failure,
        ).error == Some(NetError::Protocol(safe(detail))),
        failure matches ReceiveFailure::LocalIo { files, bytes, detail } ==> payload_ending(
            failure,
        ).error == Some(
            NetError::FetchLocalIo {
                files_processed: files,
                bytes_processed: bytes,
                detail: Some(safe(detail)),
            },
        ),
        failure matches ReceiveFailure::Aborted { code, files, bytes } ==> payload_ending(
            failure,
        ).error == Some(
            NetError::FetchAborted {
                code,
                files_processed: files,
                bytes_processed: bytes,
                detail: None::<Seq<char>>,
            },
        ),
        failure is Disconnected ==> m.manifest_failed(failure).ending.error == Some(
            NetError::FetchTerminal {
                code: FetchReceiptCode::ConnectionLost,
                files_processed: 0,
                bytes_processed: 0,
                detail: None::<Seq<char>>,
            },
        ),
{
}

/// What may have happened is told so, with all that came; what failed late is told with its
/// cause.
pub proof fn lemma_what_is_told_of_late_failures(
    m: ReceiveView,
    error: NetError,
    files: u32,
    bytes: u64,
    detail: Seq<char>,
)
    ensures
        uncertain_ending(files, bytes, detail).error == Some(
            NetError::FetchTerminal {
                code: FetchReceiptCode::UncertainNoReplay,
                files_processed: files,
                bytes_processed: bytes,
                detail: Some(safe(detail)),
            },
        ),
        uncertain_ending(files, bytes, detail).attempt == Some(
            Attempt {
                code: OfferAttemptCode::UncertainNoReplay,
                files,
                bytes,
                detail: Some(detail),
            },
        ),
        uncertain_ending(files, bytes, detail).receipt_required,
        m.publication_failed(error@).ending.attempt == Some(
            Attempt {
                code: OfferAttemptCode::Failed,
                files: m.counts.file_count,
                bytes: m.counts.total_bytes,
                detail: Some(safe(error@.message())),
            },
        ),
        m.publication_failed(error@).ending.cleanup == Cleanup::Explained(
            "publication failed: "@ + error@.message(),
        ),
        m.side_effect_failed(error@).ending.attempt == Some(
            Attempt {
                code: OfferAttemptCode::ClipboardFailed,
                files: m.counts.file_count,
                bytes: m.counts.total_bytes,
                detail: Some(safe(error@.message())),
            },
        ),
        m.side_effect_failed(error@).ending.cleanup == Cleanup::Explained(
            "side effect failed: "@ + error@.message(),
        ),
        m.side_effect_failed(error@).ending.error == Some(
            NetError::FetchTerminal {
                code: FetchReceiptCode::ClipboardFailed,
                files_processed: m.counts.file_count,
                bytes_processed: m.counts.total_bytes,
                detail: Some(safe(error@.message())),
            },
        ),
{
}

/// Devices that speak another version are named by their reasons, after those that have the
/// offer and before those that were not reached.
pub proof fn lemma_status_of_other_versions(report: ReportView)
    requires
        report.version_mismatch.len() > 0,
    ensures
        ({
            let reasons = joined(report.version_mismatch, "; "@);
            let missed = "unavailable "@ + joined(report.unavailable, ", "@);
            let stored = if report.stored_on.len() == 1 {
                "Added to 1 device"@
            } else {
                "Added to "@ + decimal(report.stored_on.len()) + " devices"@
            };
            &&& report.stored_on.len() == 0 && report.unavailable.len() == 0 ==> report.status()
                == reasons
            &&& report.stored_on.len() == 0 && report.unavailable.len() > 0 ==> report.status()
                == reasons + "; "@ + missed
            &&& report.stored_on.len() > 0 && report.unavailable.len() == 0 ==> report.status()
                == stored + "; "@ + reasons
            &&& report.stored_on.len() > 0 && report.unavailable.len() > 0 ==> report.status()
                == stored + "; "@ + reasons + "; "@ + missed
        }),
{
}

/// What is told where a text did not come as it was promised.
pub proof fn lemma_what_is_told_of_texts(p: PayloadView, message: PayloadMessage)
    ensures
        p.step is ReadTextEnd && message is TextEnd && !(p.next(
            PayloadEvent::Message(Ok(message)),
        ).step is ReadTextComplete) ==> p.next(PayloadEvent::Message(Ok(message))).step
            == PayloadStep::<Seq<char>, Seq<u8>>::Finished(
            Err(
                ReceiveFailure::Verification {
                    files: 0,
                    bytes: p.counts.total_bytes,
                    detail: "text digest mismatch"@,
                },
            ),
        ),
        p.step is ReadTextComplete && (message matches PayloadMessage::Abort(_)) ==> p.next(
            PayloadEvent::Message(Ok(message)),
        ).step == PayloadStep::<Seq<char>, Seq<u8>>::Finished(Err(aborted(message->Abort_0))),
        p.step is ReadTextEnd && (message matches PayloadMessage::Abort(abort) && abort.request_id
            == p.request_id) ==> p.next(PayloadEvent::Message(Ok(message))).step == PayloadStep::<
            Seq<char>,
            Seq<u8>,
        >::Finished(Err(aborted(message->Abort_0))),
        message matches PayloadMessage::Abort(abort) ==> (aborted(abort)
            matches ReceiveFailure::Aborted { code, files, bytes } && code == abort.code && files
            == abort.files_sent && bytes == abort.bytes_sent),
        p.step is ReadComplete && !(message is Complete || message is Abort) ==> p.next(
            PayloadEvent::Message(Ok(message)),
        ).step == PayloadStep::<Seq<char>, Seq<u8>>::Finished(
            Err(
                ReceiveFailure::Verification {
                    files: 0,
                    bytes: 0,
                    detail: "expected fetch_complete"@,
                },
            ),
        ),
        p.step is ReadComplete && message is Complete && !(p.next(
            PayloadEvent::Message(Ok(message)),
        ).step is SyncStaging) ==> p.next(PayloadEvent::Message(Ok(message))).step == PayloadStep::<
            Seq<char>,
            Seq<u8>,
        >::Finished(
            Err(
                ReceiveFailure::Verification {
                    files: p.files_received,
                    bytes: p.bytes_received,
                    detail: "fetch completion counts or content-set digest mismatch"@,
                },
            ),
        ),
{
}

/// A walk begins with nothing counted, at the top; whoever listens hears of one change as
/// one.
pub proof fn lemma_walks_and_watchers(
    name: Seq<char>,
    metadata: MetadataView,
    rules: WalkRules,
    listener: Subscriber,
)
    ensures
        ({
            let w = folder_walk(name, metadata, rules);
            &&& w.rules == rules && w.transcript == metadata_bytes("root"@, name, metadata)
            &&& w.total_bytes == 0 && w.entry_count == 0 && w.file_count == 0
            &&& w.directory_count == 0 && w.manifest.len() == 0 && w.files.len() == 0
            &&& w.frames.len() == 0 && w.step == WalkStep::List(Seq::<char>::empty())
        }),
        told(listener).unread == listener.unread + 1,
        told(listener).id == listener.id && told(listener).open == listener.open,
{
}

/// At its end an activation does what it owes: the refusal with its code and nothing
/// reserved, the attempt, the receipt, and then the connection and the guard.
pub proof fn lemma_what_is_done_at_the_end(m: ReceiveView, code: FetchAdmissionCode)
    ensures
        m.step == Step::Ending(Stage::Admission) && m.ending.admission == Some(code) ==> m.action()
            == (ReceiveAction::WriteAdmission {
            code,
            entries: 0,
            bytes: 0,
            detail: m.ending.admission_detail,
        }),
        m.step == Step::Ending(Stage::Attempt) ==> (m.ending.attempt matches Some(attempt)
            ==> m.action() == ReceiveAction::RecordAttempt(attempt)),
        m.step == Step::Ending(Stage::Receipt) ==> (m.ending.receipt matches Some(note)
            ==> m.action() == ReceiveAction::SendReceipt(note)),
        m.step == Step::Ending(Stage::Mark) ==> m.action() == ReceiveAction::<
            Seq<char>,
        >::UpdateState(ActivationState::UncertainNoReplay),
        m.step == Step::Ending(Stage::Cleanup) ==> m.action() is CleanUp,
        m.step == Step::Ending(Stage::Shutdown) ==> m.action() is Shutdown,
        m.step == Step::Ending(Stage::Guard) ==> m.action() is DropGuard,
        m.step == Step::Ending(Stage::Done) ==> m.action() is Finish,
{
}

/// Nothing had come where no header came.
pub proof fn lemma_nothing_came_without_a_header(fault: ReadFault, activation: FetchActivationView)
    ensures
        fault@ is Cancelled ==> header_failure(Err(fault), activation) == (NetError::FetchTerminal {
            code: FetchReceiptCode::Cancelled,
            files_processed: 0,
            bytes_processed: 0,
            detail: None::<Seq<char>>,
        }),
        fault@ is TimedOut ==> header_failure(Err(fault), activation) == NetError::Timeout(
            "read fetch control"@,
        ),
        fault@ matches ReadFault::Protocol(detail) ==> header_failure(Err(fault), activation)
            == NetError::Protocol(detail),
        fault@ matches ReadFault::Io { kind, text } ==> (disconnects(kind) ==> header_failure(
            Err(fault),
            activation,
        ) == (NetError::FetchTerminal {
            code: FetchReceiptCode::ConnectionLost,
            files_processed: 0,
            bytes_processed: 0,
            detail: None::<Seq<char>>,
        })),
{
}

/// A stream limit that is closed ends a fetch; one that is full is answered as busy.
pub proof fn lemma_streams_that_are_not_there(device: DeviceId)
    ensures
        fetch_next(FetchStep::AcquireSlot, FetchEvent::SlotAcquired(None), device)
            == FetchStep::Finished(
            Err::<(), _>(NetError::FetchService("payload stream limit is closed"@)),
        ),
        fetch_next(
            FetchStep::AcquireSlot,
            FetchEvent::SlotAcquired(Some(false)),
            device,
        ) matches FetchStep::Refuse(refusal) && refusal.code is Busy && refusal.detail == Some(
            "origin payload capacity is full"@,
        ),
{
}

} // verus!
