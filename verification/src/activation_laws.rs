//! What a completed activation has done: what was received is what the clipboard got,
//! and what the origin is told.
use vstd::prelude::*;
use vstd::utf8::{encode_utf8, valid_utf8};

use crate::activation::ActivationMode;
use crate::failure::ReceiveFailure;
use crate::manifest::{
    counts_of, entries_error, entries_fit, file_bytes, header_answers, kind_count, manifest_error,
    parents_listed, Manifest,
};
use crate::net_error::NetError;
use crate::offer::OfferDescriptor;
use crate::payload::{
    begins, closed_files, closings, lemma_a_finished_content_is_whole, lemma_takes_all_before,
    payload_run, staged_bytes, staged_files, takes_all, vouches, PayloadEvent, PayloadStep,
    PayloadView, StagedFile,
};
use crate::receive::{
    destination_choice, lemma_next_applied, lemma_next_card, lemma_next_cleanup, lemma_next_guard,
    lemma_next_header, lemma_next_local, lemma_next_manifest, lemma_next_payload,
    lemma_next_publication, lemma_next_recorded, lemma_next_reserved, lemma_next_sent,
    lemma_next_shutdown, lemma_next_uncertainty, no_ending, rank, Ending, Guard, ReceiptNote,
    ReceiveEvent, ReceiveView, SideEffectFailure, Stage, Step,
};
use crate::receive_laws::{
    advanced, lemma_no_step_is_skipped, lemma_run_wf, order, passed, run,
};
use crate::reservation::ReservationError;
use crate::side_effect::{
    clipboard_asked, lemma_a_succeeded_text_was_set, lemma_clipboard_is_asked_once, side_run,
    side_start, succeeded, SideEffectEvent, SideEffectStep,
};
use crate::wire::{EntryView, FetchHeader, FetchReceiptCode, FileEntryKind};

verus! {

/// Whether event `k` brought the whole text, and these were its bytes.
pub open spec fn text_came(
    p: PayloadView,
    events: Seq<PayloadEvent>,
    k: int,
    bytes: Seq<u8>,
) -> bool {
    &&& 0 <= k < events.len()
    &&& payload_run(p, events.subrange(0, k)).step is ReadText
    &&& events[k] matches PayloadEvent::Content(Ok(content)) && content@ == bytes
}

/// What holds of the receiver of a text at every step.
spec fn text_kept(p: PayloadView, q: PayloadView) -> bool {
    &&& q.counts == p.counts
    &&& q.step is ReadText || q.step is ReadTextEnd || q.step is ReadTextComplete
        || q.step is Finished
    &&& has_body(q) ==> q.body.len() == p.counts.total_bytes
    &&& q.step matches PayloadStep::Finished(Ok(_)) ==> {
        &&& valid_utf8(q.body)
        &&& q.text == Some(vstd::utf8::decode_utf8(q.body))
    }
}

/// Whether the text has been read.
spec fn has_body(q: PayloadView) -> bool {
    q.step is ReadTextEnd || q.step is ReadTextComplete || (q.step matches PayloadStep::Finished(
        Ok(_),
    ))
}

proof fn lemma_text_step(p: PayloadView, g: PayloadView, event: PayloadEvent)
    requires
        text_kept(p, g),
        g.takes(event),
    ensures
        text_kept(p, g.next(event)),
        has_body(g.next(event)) ==> g.next(event).body == g.body || (g.step is ReadText && (event
            matches PayloadEvent::Content(Ok(bytes)) && bytes@ == g.next(event).body)),
        has_body(g.next(event)) && !has_body(g) ==> g.step is ReadText && (event
            matches PayloadEvent::Content(Ok(bytes)) && bytes@ == g.next(event).body),
{
}

proof fn lemma_text_came(p: PayloadView, events: Seq<PayloadEvent>)
    requires
        p.step is ReadText,
        takes_all(p, events),
    ensures
        text_kept(p, payload_run(p, events)),
        has_body(payload_run(p, events)) ==> exists|k: int|
            text_came(p, events, k, payload_run(p, events).body),
    decreases events.len(),
{
    if events.len() > 0 {
        let before = events.drop_last();
        let n = events.len() - 1;
        let g = payload_run(p, before);
        lemma_takes_all_before(p, events);
        lemma_text_came(p, before);
        assert(events.subrange(0, n) =~= before);
        assert(g.takes(events[n]));
        lemma_text_step(p, g, events[n]);
        lemma_text_stays(p, events);
    }
}

proof fn lemma_text_stays(p: PayloadView, events: Seq<PayloadEvent>)
    requires
        events.len() > 0,
        ({
            let g = payload_run(p, events.drop_last());
            let q = payload_run(p, events);
            let last = events.last();
            &&& has_body(g) ==> exists|k: int| text_came(p, events.drop_last(), k, g.body)
            &&& has_body(q) ==> q.body == g.body || (g.step is ReadText && (last
                matches PayloadEvent::Content(Ok(bytes)) && bytes@ == q.body))
            &&& has_body(q) && !has_body(g) ==> g.step is ReadText && (last
                matches PayloadEvent::Content(Ok(bytes)) && bytes@ == q.body)
        }),
    ensures
        has_body(payload_run(p, events)) ==> exists|k: int|
            text_came(p, events, k, payload_run(p, events).body),
{
    let before = events.drop_last();
    let n = events.len() - 1;
    let g = payload_run(p, before);
    let q = payload_run(p, events);
    assert(events.subrange(0, n) =~= before);
    if has_body(q) {
        if has_body(g) {
            let k = choose|k: int| text_came(p, before, k, g.body);
            assert(before.subrange(0, k) =~= events.subrange(0, k));
            assert(text_came(p, events, k, q.body));
        } else {
            assert(text_came(p, events, n, q.body));
        }
    }
}

/// A text that was received is what the bytes of the origin spell: they came as one
/// whole, as many as the card had said, and they are the UTF-8 form of the text.
pub proof fn lemma_a_received_text_is_what_came(p: PayloadView, events: Seq<PayloadEvent>) -> (k:
    int)
    requires
        p.step is ReadText,
        takes_all(p, events),
        payload_run(p, events).step == PayloadStep::<Seq<char>, Seq<u8>>::Finished(Ok(())),
    ensures
        payload_run(p, events).text matches Some(text) && {
            &&& text_came(p, events, k, encode_utf8(text))
            &&& encode_utf8(text).len() == p.counts.total_bytes
        },
{
    lemma_text_came(p, events);
    let q = payload_run(p, events);
    let k = choose|k: int| text_came(p, events, k, q.body);
    vstd::utf8::decode_utf8_encode_utf8(q.body);
    k
}

/// Whether the entries that a receiver keeps are those of a manifest that it accepted
/// for its card.
pub open spec fn accepted(m: ReceiveView) -> bool {
    &&& m.card is Some
    &&& m.header is Some
    &&& m.entries.len() == m.header->0.manifest_entries
    &&& entries_error(m.entries, m.limits) is None
    &&& parents_listed(m.entries)
    &&& entries_fit(m.entries, m.card->0)
}

/// What a receiver keeps: its counts are those of the card, its entries are accepted
/// ones, and an ending without an error reports completion with these counts.
pub open spec fn settled(m: ReceiveView) -> bool {
    &&& order(Step::ReadingManifest) <= order(m.step) < order(Step::Ending(Stage::Done)) ==> {
        &&& m.card is Some
        &&& m.counts == counts_of(m.card->0)
    }
    &&& order(Step::ReadingManifest) < order(m.step) < order(Step::Ending(Stage::Done))
        ==> accepted(m)
    &&& m.step is Ending && m.ending.error is None ==> completes(m)
}

/// Whether an ending reports completion, with the counts of the card, and does nothing
/// else: staging and journal entry are gone.
pub open spec fn completes(m: ReceiveView) -> bool {
    &&& m.card is Some
    &&& m.counts == counts_of(m.card->0)
    &&& accepted(m)
    &&& m.guard is Disarmed
    &&& m.ending == Ending {
        receipt: Some(
            ReceiptNote {
                code: FetchReceiptCode::Completed,
                files: m.counts.file_count,
                bytes: m.counts.total_bytes,
                detail: None,
            },
        ),
        receipt_required: true,
        ..no_ending()
    }
}

proof fn lemma_advanced_is_next(m: ReceiveView, event: ReceiveEvent)
    ensures
        advanced(m, event) == (ReceiveView {
            blocked: advanced(m, event).blocked,
            ..m.next(event)
        }),
{
    reveal(advanced);
}

proof fn lemma_card_settles(m: ReceiveView, result: Result<Option<OfferDescriptor>, String>)
    requires
        m.wf(),
        settled(m),
    ensures
        settled(m.next(ReceiveEvent::CardLoaded(result))),
{
    lemma_next_card(m, result);
}

proof fn lemma_header_settles(m: ReceiveView, result: Result<FetchHeader, NetError>)
    requires
        m.wf(),
        settled(m),
    ensures
        settled(m.next(ReceiveEvent::HeaderRead(result))),
{
    lemma_next_header(m, result);
}

proof fn lemma_reserved_settles(m: ReceiveView, result: Result<(), ReservationError>)
    requires
        m.wf(),
        settled(m),
    ensures
        settled(m.next(ReceiveEvent::Reserved(result))),
{
    lemma_next_reserved(m, result);
}

proof fn lemma_local_settles(m: ReceiveView, result: Result<(), String>, cancelled: bool)
    requires
        m.wf(),
        settled(m),
    ensures
        settled(m.next(ReceiveEvent::Local { result, cancelled })),
{
    lemma_next_local(m, result, cancelled);
}

proof fn lemma_sent_settles(m: ReceiveView, result: Result<(), NetError>)
    requires
        m.wf(),
        settled(m),
    ensures
        settled(m.next(ReceiveEvent::Sent(result))),
{
    lemma_next_sent(m, result);
}

proof fn lemma_recorded_settles(m: ReceiveView, result: Result<(), NetError>)
    requires
        m.wf(),
        settled(m),
    ensures
        settled(m.next(ReceiveEvent::Recorded(result))),
{
    lemma_next_recorded(m, result);
}

proof fn lemma_payload_settles(m: ReceiveView, result: Result<(), ReceiveFailure>, cancelled: bool)
    requires
        m.wf(),
        settled(m),
    ensures
        settled(m.next(ReceiveEvent::PayloadReceived { result, cancelled })),
{
    lemma_next_payload(m, result, cancelled);
}

proof fn lemma_publication_settles(m: ReceiveView, result: Result<(), NetError>)
    requires
        m.wf(),
        settled(m),
    ensures
        settled(m.next(ReceiveEvent::Published(result))),
{
    lemma_next_publication(m, result);
}

proof fn lemma_applied_settles(m: ReceiveView, result: Result<(), SideEffectFailure>)
    requires
        m.wf(),
        settled(m),
    ensures
        settled(m.next(ReceiveEvent::Applied(result))),
{
    lemma_next_applied(m, result);
}

proof fn lemma_cleanup_settles(m: ReceiveView, result: Result<(), NetError>)
    requires
        m.wf(),
        settled(m),
    ensures
        settled(m.next(ReceiveEvent::CleanedUp(result))),
{
    lemma_next_cleanup(m, result);
}

proof fn lemma_manifest_settles(m: ReceiveView, result: Result<Manifest, ReceiveFailure>)
    requires
        m.wf(),
        settled(m),
    ensures
        settled(m.next(ReceiveEvent::ManifestRead(result))),
{
    lemma_next_manifest(m, result);
}

proof fn lemma_uncertainty_settles(m: ReceiveView, flagged: bool, stored: Result<bool, String>)
    requires
        m.wf(),
        settled(m),
    ensures
        settled(m.next(ReceiveEvent::UncertaintyRead { flagged, stored })),
{
    lemma_next_uncertainty(m, flagged, stored);
}

proof fn lemma_guard_settles(m: ReceiveView, event: ReceiveEvent)
    requires
        settled(m),
        event is ShutDown || event is GuardDropped,
    ensures
        settled(m.next(event)),
{
    match event {
        ReceiveEvent::GuardDropped { staging_failed, journal_failed } => lemma_next_guard(
            m,
            staging_failed,
            journal_failed,
        ),
        _ => lemma_next_shutdown(m),
    }
}

proof fn lemma_next_settles(m: ReceiveView, event: ReceiveEvent)
    requires
        m.wf(),
        settled(m),
    ensures
        settled(m.next(event)),
{
    match event {
        ReceiveEvent::CardLoaded(result) => lemma_card_settles(m, result),
        ReceiveEvent::HeaderRead(result) => lemma_header_settles(m, result),
        ReceiveEvent::ManifestRead(result) => lemma_manifest_settles(m, result),
        ReceiveEvent::UncertaintyRead { flagged, stored } => lemma_uncertainty_settles(
            m,
            flagged,
            stored,
        ),
        ReceiveEvent::Reserved(result) => lemma_reserved_settles(m, result),
        ReceiveEvent::Local { result, cancelled } => lemma_local_settles(m, result, cancelled),
        ReceiveEvent::Sent(result) => lemma_sent_settles(m, result),
        ReceiveEvent::Recorded(result) => lemma_recorded_settles(m, result),
        ReceiveEvent::PayloadReceived { result, cancelled } => lemma_payload_settles(
            m,
            result,
            cancelled,
        ),
        ReceiveEvent::Published(result) => lemma_publication_settles(m, result),
        ReceiveEvent::Applied(result) => lemma_applied_settles(m, result),
        ReceiveEvent::CleanedUp(result) => lemma_cleanup_settles(m, result),
        event => lemma_guard_settles(m, event),
    }
}

proof fn lemma_run_settles(m: ReceiveView, events: Seq<ReceiveEvent>)
    requires
        m.wf(),
        settled(m),
    ensures
        settled(run(m, events)),
    decreases events.len(),
{
    if events.len() > 0 {
        let before = events.drop_last();
        lemma_run_wf(m, before);
        lemma_run_settles(m, before);
        lemma_advanced_is_next(run(m, before), events.last());
        lemma_next_settles(run(m, before), events.last());
    }
}

/// An activation that succeeded received its content whole, applied its side effect with
/// success, recorded its completion with the card and removed its journal entry, and
/// owes the origin a receipt of completion with the files and the bytes that the card
/// named.
pub proof fn lemma_success_is_receipted(m: ReceiveView, events: Seq<ReceiveEvent>)
    requires
        m.wf(),
        m.step is LoadingCard,
        run(m, events).step is Ending,
        run(m, events).ending.error is None,
    ensures
        passed(m, events, Step::Transferring),
        passed(m, events, Step::Publishing),
        passed(m, events, Step::Applying),
        passed(m, events, Step::RecordingCompleted),
        passed(m, events, Step::RemovingJournal),
        completes(run(m, events)),
{
    lemma_run_settles(m, events);
    lemma_no_step_is_skipped(m, events, Step::Transferring);
    lemma_no_step_is_skipped(m, events, Step::Publishing);
    lemma_no_step_is_skipped(m, events, Step::Applying);
    lemma_no_step_is_skipped(m, events, Step::RecordingCompleted);
    lemma_no_step_is_skipped(m, events, Step::RemovingJournal);
}

/// Whether an event answers the current action, and nothing is wrong with the answer.
pub open spec fn answers_well(m: ReceiveView, event: ReceiveEvent) -> bool {
    match (m.step, event) {
        (Step::LoadingCard, ReceiveEvent::CardLoaded(Ok(Some(_)))) => true,
        (Step::ReadingHeader, ReceiveEvent::HeaderRead(Ok(header))) => header_answers(
            header@,
            m.card->0,
            m.activation,
        ),
        (Step::ReadingManifest, ReceiveEvent::ManifestRead(Ok(manifest))) => {
            &&& manifest_error(m.header->0, m.card->0, manifest@, m.limits) is None
            &&& destination_choice(m.activation, m.card->0, m.cache_root) is Ok
        },
        (Step::CheckingUncertainty, ReceiveEvent::UncertaintyRead { flagged, stored }) =>
            !flagged && stored == Ok::<bool, String>(false),
        (Step::Reserving, ReceiveEvent::Reserved(Ok(_))) => true,
        (Step::Admitting, ReceiveEvent::Sent(Ok(_))) => true,
        (
            Step::Transferring,
            ReceiveEvent::PayloadReceived { result: Ok(_), cancelled },
        ) => !cancelled,
        (Step::Publishing, ReceiveEvent::Published(Ok(_))) => true,
        (Step::Applying, ReceiveEvent::Applied(Ok(_))) => true,
        (Step::RecordingCompleted, ReceiveEvent::Recorded(Ok(_))) => true,
        (Step::Ending(Stage::Receipt), ReceiveEvent::Sent(Ok(_))) => true,
        (Step::Ending(_), _) => false,
        (step, ReceiveEvent::Local { result: Ok(_), cancelled }) => works_locally(step)
            && !cancelled,
        _ => false,
    }
}

/// Whether something is done on this device at a step, in the store or on disk.
pub open spec fn works_locally(step: Step) -> bool {
    ||| step is EnsuringDestination
    ||| step is CheckingDestination
    ||| step is Journaling
    ||| step is Preparing
    ||| step is InspectingStaging
    ||| step is MarkingTransferring
    ||| step is MarkingVerified
    ||| step is ClearingStaging
    ||| step is MarkingCompleted
    ||| step is RemovingJournal
}

/// How far the receiver has come.
pub open spec fn distance(m: ReceiveView) -> int {
    match m.step {
        Step::Ending(stage) => order(m.step) + rank(stage),
        _ => order(m.step),
    }
}

/// Whether nothing went wrong so far.
pub open spec fn fine(m: ReceiveView) -> bool {
    m.step is Ending ==> m.ending.error is None
}

proof fn lemma_completion_ends(m: ReceiveView)
    requires
        completes(m),
    ensures
        m.enter(Stage::Mark).step == Step::Ending(Stage::Receipt),
        m.enter(Stage::Shutdown).step == Step::Ending(Stage::Done),
{
    reveal(ReceiveView::due);
    reveal_with_fuel(ReceiveView::due, 9);
}

proof fn lemma_a_good_local_answer_leads_on(m: ReceiveView, event: ReceiveEvent)
    requires
        m.wf(),
        settled(m),
        fine(m),
        answers_well(m, event),
        event is Local,
    ensures
        fine(m.next(event)),
        distance(m.next(event)) > distance(m),
{
    lemma_next_local(m, event->Local_result, event->Local_cancelled);
    if m.step is RemovingJournal {
        lemma_local_settles(m, event->Local_result, event->Local_cancelled);
        lemma_completion_ends(
            ReceiveView {
                guard: Guard::Disarmed,
                permit: false,
                ending: m.next(event).ending,
                ..m
            },
        );
    }
}

proof fn lemma_a_good_manifest_leads_on(m: ReceiveView, event: ReceiveEvent)
    requires
        m.wf(),
        settled(m),
        fine(m),
        answers_well(m, event),
        event is ManifestRead,
    ensures
        fine(m.next(event)),
        distance(m.next(event)) > distance(m),
{
    lemma_next_manifest(m, event->ManifestRead_0);
}

proof fn lemma_a_good_header_leads_on(m: ReceiveView, event: ReceiveEvent)
    requires
        m.wf(),
        settled(m),
        fine(m),
        answers_well(m, event),
        event is HeaderRead,
    ensures
        fine(m.next(event)),
        distance(m.next(event)) > distance(m),
{
    lemma_next_header(m, event->HeaderRead_0);
}

proof fn lemma_a_good_clipboard_leads_on(m: ReceiveView, event: ReceiveEvent)
    requires
        m.wf(),
        settled(m),
        fine(m),
        answers_well(m, event),
        event is UncertaintyRead,
    ensures
        fine(m.next(event)),
        distance(m.next(event)) > distance(m),
{
    lemma_next_uncertainty(m, event->flagged, event->stored);
}

proof fn lemma_a_good_sending_leads_on(m: ReceiveView, event: ReceiveEvent)
    requires
        m.wf(),
        settled(m),
        fine(m),
        answers_well(m, event),
        event is Sent,
    ensures
        fine(m.next(event)),
        distance(m.next(event)) > distance(m),
{
    lemma_next_sent(m, event->Sent_0);
    if m.step is Ending {
        lemma_completion_ends(m);
    }
}

proof fn lemma_a_good_content_leads_on(m: ReceiveView, event: ReceiveEvent)
    requires
        m.wf(),
        settled(m),
        fine(m),
        answers_well(m, event),
        event is PayloadReceived || event is Published || event is Applied,
    ensures
        fine(m.next(event)),
        distance(m.next(event)) > distance(m),
{
    match event {
        ReceiveEvent::PayloadReceived { result, cancelled } => lemma_next_payload(
            m,
            result,
            cancelled,
        ),
        ReceiveEvent::Published(result) => lemma_next_publication(m, result),
        ReceiveEvent::Applied(result) => lemma_next_applied(m, result),
        _ => {},
    }
}

proof fn lemma_a_good_answer_leads_on(m: ReceiveView, event: ReceiveEvent)
    requires
        m.wf(),
        settled(m),
        fine(m),
        answers_well(m, event),
    ensures
        fine(m.next(event)),
        distance(m.next(event)) > distance(m),
{
    match event {
        ReceiveEvent::CardLoaded(result) => lemma_next_card(m, result),
        ReceiveEvent::HeaderRead(_) => lemma_a_good_header_leads_on(m, event),
        ReceiveEvent::ManifestRead(_) => lemma_a_good_manifest_leads_on(m, event),
        ReceiveEvent::UncertaintyRead { .. } => lemma_a_good_clipboard_leads_on(m, event),
        ReceiveEvent::Reserved(result) => lemma_next_reserved(m, result),
        ReceiveEvent::Local { .. } => lemma_a_good_local_answer_leads_on(m, event),
        ReceiveEvent::Sent(_) => lemma_a_good_sending_leads_on(m, event),
        ReceiveEvent::Recorded(result) => lemma_next_recorded(m, result),
        _ => lemma_a_good_content_leads_on(m, event),
    }
}

/// An activation in which nothing goes wrong completes: as long as every answer is a
/// good one, no error is reported, and each answer brings the activation closer to its
/// end.  An activation takes less than thirty of them.
pub proof fn lemma_nothing_wrong_completes(m: ReceiveView, events: Seq<ReceiveEvent>)
    requires
        m.wf(),
        m.step is LoadingCard,
        forall|k: int|
            0 <= k < events.len() ==> answers_well(
                run(m, events.subrange(0, k)),
                #[trigger] events[k],
            ),
    ensures
        fine(run(m, events)),
        events.len() <= distance(run(m, events)) < 30,
        run(m, events).step is Ending ==> completes(run(m, events)),
    decreases events.len(),
{
    lemma_run_settles(m, events);
    if events.len() > 0 {
        let before = events.drop_last();
        let n = events.len() - 1;
        assert forall|k: int| 0 <= k < before.len() implies answers_well(
            run(m, before.subrange(0, k)),
            #[trigger] before[k],
        ) by {
            assert(before.subrange(0, k) =~= events.subrange(0, k));
            assert(before[k] == events[k]);
        }
        lemma_nothing_wrong_completes(m, before);
        lemma_run_wf(m, before);
        lemma_run_settles(m, before);
        assert(events.subrange(0, n) =~= before);
        let g = run(m, before);
        assert(answers_well(g, events[n]));
        lemma_a_good_answer_leads_on(g, events[n]);
        lemma_advanced_is_next(g, events[n]);
    }
}

/// A completed activation of a text puts exactly the text that arrived on the clipboard,
/// once.
///
/// The receiver `m` ended well after `events`; the content came in by `arrivals`, and the
/// side effect that was begun with the received text ended well after `answers`.  Then
/// the clipboard was asked exactly once, for the text whose UTF-8 form arrived, and took
/// it, and the receipt reports completion with no files and with the bytes of this text.
pub proof fn lemma_a_completed_text_is_on_the_clipboard(
    m: ReceiveView,
    events: Seq<ReceiveEvent>,
    p: PayloadView,
    arrivals: Seq<PayloadEvent>,
    answers: Seq<SideEffectEvent>,
) -> (r: (int, int))
    requires
        m.wf(),
        m.step is LoadingCard,
        run(m, events).step is Ending,
        run(m, events).ending.error is None,
        run(m, events).counts.content_kind is Text,
        p.step is ReadText,
        p.counts == run(m, events).counts,
        takes_all(p, arrivals),
        payload_run(p, arrivals).step == PayloadStep::<Seq<char>, Seq<u8>>::Finished(Ok(())),
        side_run(
            side_start(true, ActivationMode::Clipboard, payload_run(p, arrivals).text, None),
            answers,
        ).step == succeeded(),
    ensures
        payload_run(p, arrivals).text matches Some(text) && {
            let side = side_start(true, ActivationMode::Clipboard, Some(text), None);
            &&& text_came(p, arrivals, r.0, encode_utf8(text))
            &&& clipboard_asked(side, answers, r.1)
            &&& side_run(side, answers.subrange(0, r.1)).step == SideEffectStep::SetText(text)
            &&& answers[r.1] matches SideEffectEvent::ClipboardSet(Ok(_))
            &&& forall|j: int| #[trigger] clipboard_asked(side, answers, j) ==> j == r.1
            &&& run(m, events).ending.receipt matches Some(note) && {
                &&& note.code is Completed
                &&& note.files == 0
                &&& note.bytes == encode_utf8(text).len()
                &&& note.detail is None
            }
        },
{
    let k = lemma_a_received_text_is_what_came(p, arrivals);
    let text = payload_run(p, arrivals).text;
    let side = side_start(true, ActivationMode::Clipboard, text, None);
    let asked = lemma_a_succeeded_text_was_set(text, answers);
    assert forall|j: int| #[trigger] clipboard_asked(side, answers, j) implies j == asked by {
        lemma_clipboard_is_asked_once(side, answers, j, asked);
    }
    lemma_success_is_receipted(m, events);
    (k, asked)
}

proof fn lemma_staged_are_the_files(entries: Seq<EntryView>)
    ensures
        staged_files(entries).len() == kind_count(entries, FileEntryKind::File),
        staged_bytes(staged_files(entries), staged_files(entries).len() as int) == file_bytes(
            entries,
        ),
    decreases entries.len(),
{
    if entries.len() > 0 {
        let before = staged_files(entries.drop_last());
        lemma_staged_are_the_files(entries.drop_last());
        if entries.last().kind is File {
            let all = staged_files(entries);
            lemma_staged_prefix(before, all, before.len() as int);
        }
    }
}

proof fn lemma_staged_prefix(a: Seq<StagedFile>, b: Seq<StagedFile>, n: int)
    requires
        0 <= n <= a.len() <= b.len(),
        forall|i: int| 0 <= i < a.len() ==> a[i] == #[trigger] b[i],
    ensures
        staged_bytes(a, n) == staged_bytes(b, n),
    decreases n,
{
    if n > 0 {
        lemma_staged_prefix(a, b, n - 1);
        assert(a[n - 1] == b[n - 1]);
    }
}

/// When the content of files is read, the files that are awaited are those of the
/// accepted manifest, and they are as many and as large as the card said.
pub proof fn lemma_awaited_files_are_the_cards(m: ReceiveView, events: Seq<ReceiveEvent>)
    requires
        m.wf(),
        m.step is LoadingCard,
        run(m, events).step is Transferring,
        !(run(m, events).counts.content_kind is Text),
    ensures
        ({
            let q = run(m, events);
            let files = staged_files(q.entries);
            &&& accepted(q)
            &&& files.len() == q.counts.file_count
            &&& staged_bytes(files, files.len() as int) == q.counts.total_bytes
        }),
{
    lemma_run_settles(m, events);
    lemma_fitting_files(run(m, events));
}

proof fn lemma_fitting_files(m: ReceiveView)
    requires
        accepted(m),
        m.counts == counts_of(m.card->0),
        !(m.counts.content_kind is Text),
    ensures
        staged_files(m.entries).len() == m.counts.file_count,
        staged_bytes(staged_files(m.entries), staged_files(m.entries).len() as int)
            == m.counts.total_bytes,
{
    lemma_staged_are_the_files(m.entries);
    if m.card->0 is File {
        assert(m.entries.drop_last().len() == 0);
        assert(kind_count(m.entries.drop_last(), FileEntryKind::File) == 0);
        assert(m.entries.last() == m.entries[0]);
    }
}

/// A completed activation of files received every file of the manifest that it accepted,
/// whole: each with its length, with the digest of the message that closed it, and as it
/// was on disk then.  The receipt names their number and all their bytes.
pub proof fn lemma_completed_files_are_whole(
    m: ReceiveView,
    events: Seq<ReceiveEvent>,
    p: PayloadView,
    arrivals: Seq<PayloadEvent>,
)
    requires
        m.wf(),
        m.step is LoadingCard,
        run(m, events).step is Ending,
        run(m, events).ending.error is None,
        !(run(m, events).counts.content_kind is Text),
        begins(p),
        p.accounted(),
        p.counts == run(m, events).counts,
        p.files == staged_files(run(m, events).entries),
        takes_all(p, arrivals),
        payload_run(p, arrivals).step == PayloadStep::<Seq<char>, Seq<u8>>::Finished(Ok(())),
    ensures
        ({
            let received = payload_run(p, arrivals).received;
            &&& received == closed_files(p, arrivals)
            &&& received.len() == p.files.len()
            &&& forall|i: int|
                0 <= i < p.files.len() ==> {
                    &&& (#[trigger] received[i]).len() == p.files[i].byte_len
                    &&& vouches(
                        closings(p, arrivals)[i],
                        p.request_id,
                        p.files[i],
                        received[i],
                    )
                }
            &&& run(m, events).ending.receipt matches Some(note) && {
                &&& note.code is Completed
                &&& note.files == received.len()
                &&& note.bytes == payload_run(p, arrivals).bytes_received
                &&& note.detail is None
            }
        }),
{
    lemma_success_is_receipted(m, events);
    lemma_fitting_files(run(m, events));
    lemma_a_finished_content_is_whole(p, arrivals);
}

} // verus!
