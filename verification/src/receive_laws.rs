//! What holds of every activation, whatever its events.
use vstd::prelude::*;

use crate::net_error::NetError;
use crate::receive::{
    begun, lemma_next_applied, lemma_next_card, lemma_next_cleanup, lemma_next_guard,
    lemma_next_header, lemma_next_local, lemma_next_manifest, lemma_next_payload,
    lemma_next_publication, lemma_next_recorded, lemma_next_reserved, lemma_next_sent,
    lemma_next_shutdown, lemma_next_uncertainty, payload_ending, rank, ReceiveEvent, ReceiveView,
    Stage, Step,
};
use crate::wire::FetchAdmissionCode;

verus! {

/// The receiver after one event.
#[verifier::opaque]
pub open spec fn advanced(m: ReceiveView, event: ReceiveEvent) -> ReceiveView {
    m.after(event)
}

/// The receiver after some events.
pub open spec fn run(m: ReceiveView, events: Seq<ReceiveEvent>) -> ReceiveView
    decreases events.len(),
{
    if events.len() == 0 {
        m
    } else {
        advanced(run(m, events.drop_last()), events.last())
    }
}

/// Whether the event reports success.
pub open spec fn reports_success(event: ReceiveEvent) -> bool {
    match event {
        ReceiveEvent::CardLoaded(result) => result matches Ok(Some(_)),
        ReceiveEvent::HeaderRead(result) => result is Ok,
        ReceiveEvent::ManifestRead(result) => result is Ok,
        ReceiveEvent::UncertaintyRead { flagged, stored } => flagged || stored is Ok,
        ReceiveEvent::Reserved(result) => result is Ok,
        ReceiveEvent::Local { result, .. } => result is Ok,
        ReceiveEvent::Sent(result) => result is Ok,
        ReceiveEvent::Recorded(result) => result is Ok,
        ReceiveEvent::PayloadReceived { result, .. } => result is Ok,
        ReceiveEvent::Published(result) => result is Ok,
        ReceiveEvent::Applied(result) => result is Ok,
        ReceiveEvent::CleanedUp(result) => result is Ok,
        ReceiveEvent::ShutDown => true,
        ReceiveEvent::GuardDropped { staging_failed, journal_failed } => !staging_failed
            && !journal_failed,
    }
}

/// The position of a step on the way to success.
pub open spec fn order(step: Step) -> int {
    match step {
        Step::LoadingCard => 0,
        Step::ReadingHeader => 1,
        Step::ReadingManifest => 2,
        Step::CheckingUncertainty => 3,
        Step::EnsuringDestination => 4,
        Step::CheckingDestination => 5,
        Step::Reserving => 6,
        Step::Journaling => 7,
        Step::Preparing => 8,
        Step::InspectingStaging => 9,
        Step::Admitting => 10,
        Step::MarkingTransferring => 11,
        Step::Transferring => 12,
        Step::MarkingVerified => 13,
        Step::Publishing => 14,
        Step::Applying => 15,
        Step::ClearingStaging => 16,
        Step::MarkingCompleted => 17,
        Step::RecordingCompleted => 18,
        Step::RemovingJournal => 19,
        Step::Ending(_) => 20,
    }
}

/// Whether no activation succeeds without the step.
pub open spec fn mandatory(step: Step) -> bool {
    !(step is EnsuringDestination || step is CheckingDestination || step is Reserving
        || step is Ending)
}

/// How far the receiver has come: its step, or the end where it ends well.  An
/// ending with an error is no progress.
pub open spec fn progress(m: ReceiveView) -> int {
    if m.step is Ending && m.ending.error is Some {
        -1
    } else {
        order(m.step)
    }
}

/// Whether event `k` reported success at `step` and led on from it.
pub open spec fn passed_at(
    m: ReceiveView,
    events: Seq<ReceiveEvent>,
    step: Step,
    k: int,
) -> bool {
    &&& 0 <= k < events.len()
    &&& run(m, events.subrange(0, k)).step == step
    &&& reports_success(events[k])
    &&& run(m, events.subrange(0, k + 1)).step != step
}

/// Whether the receiver left `step` behind with success.
pub open spec fn passed(m: ReceiveView, events: Seq<ReceiveEvent>, step: Step) -> bool {
    exists|k: int| #[trigger] passed_at(m, events, step, k)
}

/// Whether a receiver that came to `after` by an event took no more than one mandatory
/// step, and that one by success.
spec fn leads_on(m: ReceiveView, event: ReceiveEvent, after: ReceiveView, step: Step) -> bool {
    mandatory(step) && order(step) < progress(after) ==> order(step) < progress(m) || (m.step
        == step && reports_success(event))
}

proof fn lemma_progress_of_local(m: ReceiveView, event: ReceiveEvent, step: Step)
    requires
        m.wf(),
        event is Local,
    ensures
        leads_on(m, event, m.next(event), step),
{
    broadcast use lemma_conclusions;

    lemma_next_local(m, event->Local_result, event->Local_cancelled);
}

proof fn lemma_progress_of_reading(m: ReceiveView, event: ReceiveEvent, step: Step)
    requires
        m.wf(),
        event is CardLoaded || event is HeaderRead || event is ManifestRead
            || event is UncertaintyRead || event is Reserved,
    ensures
        leads_on(m, event, m.next(event), step),
{
    broadcast use lemma_conclusions;

    match event {
        ReceiveEvent::CardLoaded(result) => lemma_next_card(m, result),
        ReceiveEvent::HeaderRead(result) => lemma_next_header(m, result),
        ReceiveEvent::ManifestRead(result) => lemma_next_manifest(m, result),
        ReceiveEvent::UncertaintyRead { flagged, stored } => lemma_next_uncertainty(
            m,
            flagged,
            stored,
        ),
        ReceiveEvent::Reserved(result) => lemma_next_reserved(m, result),
        _ => {},
    }
}

proof fn lemma_progress_of_content(m: ReceiveView, event: ReceiveEvent, step: Step)
    requires
        m.wf(),
        event is PayloadReceived || event is Published || event is Applied,
    ensures
        leads_on(m, event, m.next(event), step),
{
    broadcast use lemma_conclusions;

    match event {
        ReceiveEvent::PayloadReceived { result, cancelled } => lemma_next_payload(
            m,
            result,
            cancelled,
        ),
        ReceiveEvent::Published(result) => lemma_next_publication(m, result),
        ReceiveEvent::Applied(result) => lemma_next_applied(m, result),
        _ => {},
    }
}

proof fn lemma_progress_of_ending(m: ReceiveView, event: ReceiveEvent, step: Step)
    requires
        m.wf(),
        event is Sent || event is Recorded || event is CleanedUp || event is ShutDown
            || event is GuardDropped,
    ensures
        leads_on(m, event, m.next(event), step),
{
    broadcast use lemma_conclusions;

    match event {
        ReceiveEvent::Sent(result) => lemma_next_sent(m, result),
        ReceiveEvent::Recorded(result) => lemma_next_recorded(m, result),
        ReceiveEvent::CleanedUp(result) => lemma_next_cleanup(m, result),
        ReceiveEvent::GuardDropped { staging_failed, journal_failed } => lemma_next_guard(
            m,
            staging_failed,
            journal_failed,
        ),
        _ => lemma_next_shutdown(m),
    }
}

/// One event leads to a later step only by success, and skips no mandatory step.
proof fn lemma_progress(m: ReceiveView, event: ReceiveEvent, step: Step)
    requires
        m.wf(),
        mandatory(step),
        order(step) < progress(advanced(m, event)),
    ensures
        order(step) < progress(m) || (m.step == step && reports_success(event)),
{
    reveal(advanced);
    match event {
        ReceiveEvent::Local { .. } => lemma_progress_of_local(m, event, step),
        ReceiveEvent::PayloadReceived { .. }
        | ReceiveEvent::Published(_)
        | ReceiveEvent::Applied(_) => lemma_progress_of_content(m, event, step),
        ReceiveEvent::Sent(_)
        | ReceiveEvent::Recorded(_)
        | ReceiveEvent::CleanedUp(_)
        | ReceiveEvent::ShutDown
        | ReceiveEvent::GuardDropped { .. } => lemma_progress_of_ending(m, event, step),
        _ => lemma_progress_of_reading(m, event, step),
    }
}

/// An ending is a stage.
broadcast proof fn lemma_conclusions(m: ReceiveView, from: Stage)
    ensures
        (#[trigger] m.enter(from)).step is Ending,
{
}

proof fn lemma_passed_extends(
    m: ReceiveView,
    events: Seq<ReceiveEvent>,
    step: Step,
)
    requires
        events.len() > 0,
        passed(m, events.drop_last(), step),
    ensures
        passed(m, events, step),
{
    let before = events.drop_last();
    let k = choose|k: int| #[trigger] passed_at(m, before, step, k);
    assert(before.subrange(0, k) =~= events.subrange(0, k));
    assert(before.subrange(0, k + 1) =~= events.subrange(0, k + 1));
    assert(passed_at(m, events, step, k));
}

/// An activation that ends well, or has come to a later step, left every
/// mandatory step before behind with success.
///
/// So content is read only after the origin was told that it is admitted, a side
/// effect is applied only to content that was verified and published, and success
/// is reported only after the side effect, its record and the removal of staging
/// and journal.
pub proof fn lemma_no_step_is_skipped(m: ReceiveView, events: Seq<ReceiveEvent>, step: Step)
    requires
        m.wf(),
        m.step is LoadingCard,
        mandatory(step),
        order(step) < progress(run(m, events)),
    ensures
        passed(m, events, step),
    decreases events.len(),
{
    lemma_run_wf(m, events);
    if events.len() > 0 {
        let before = events.drop_last();
        let g = run(m, before);
        lemma_run_wf(m, before);
        lemma_progress(g, events.last(), step);
        if order(step) < progress(g) {
            lemma_no_step_is_skipped(m, before, step);
            lemma_passed_extends(m, events, step);
        } else {
            let k = events.len() - 1;
            assert(events.subrange(0, k) =~= before);
            assert(events.subrange(0, k + 1) =~= events);
            assert(passed_at(m, events, step, k));
        }
    }
}

/// What holds between any two steps holds after any events.
pub proof fn lemma_run_wf(m: ReceiveView, events: Seq<ReceiveEvent>)
    requires
        m.wf(),
    ensures
        run(m, events).wf(),
    decreases events.len(),
{
    if events.len() > 0 {
        lemma_run_wf(m, events.drop_last());
        crate::receive::lemma_after_wf(run(m, events.drop_last()), events.last());
        reveal(advanced);
    }
}

/// When an activation is over, the space it had reserved is given back, and its
/// staging is gone, unless it stays on purpose: because the side effect may have
/// happened, or because cleanup failed and every further activation is refused.
pub proof fn lemma_nothing_is_left_behind(m: ReceiveView, events: Seq<ReceiveEvent>)
    requires
        m.wf(),
        run(m, events).step == Step::Ending(Stage::Done),
    ensures
        !run(m, events).permit,
        run(m, events).guard is Inactive || run(m, events).guard is Disarmed
            || run(m, events).ending.mark_uncertain || run(m, events).blocked,
{
    lemma_run_wf(m, events);
}

/// An ending only moves on: each event leads to a later stage or changes nothing.
pub proof fn lemma_endings_move_on(m: ReceiveView, event: ReceiveEvent)
    requires
        m.wf(),
        m.step is Ending,
    ensures
        m.after(event).step is Ending,
        m.after(event).step == m.step || rank(m.after(event).step->Ending_0) > rank(
            m.step->Ending_0,
        ),
{
    crate::receive::lemma_ending_advances(m, event);
}

/// A clipboard that may hold an unrecorded side effect is never touched again: the
/// activation is refused as busy.
pub proof fn lemma_uncertain_clipboard_is_refused(
    m: ReceiveView,
    flagged: bool,
    stored: Result<bool, String>,
)
    requires
        m.wf(),
        m.step is CheckingUncertainty,
        m.activation.mode is Clipboard,
        flagged || stored == Ok::<bool, String>(true),
    ensures
        ({
            let after = m.after(ReceiveEvent::UncertaintyRead { flagged, stored });
            &&& after.step is Ending
            &&& after.ending.admission == Some(FetchAdmissionCode::RefusedBusy)
            &&& after.ending.error matches Some(NetError::FetchAdmissionRefused { code, .. })
                && code is RefusedBusy
        }),
{
    lemma_next_uncertainty(m, flagged, stored);
}

/// While cleanup is unresolved, an activation is refused as busy at once: nothing
/// is read, written or recorded.
pub proof fn lemma_unresolved_cleanup_refuses_all(
    fresh: ReceiveView,
    matches_peer: bool,
    cancelled: bool,
)
    requires
        fresh.guard is Inactive,
    ensures
        begun(fresh, matches_peer, true, cancelled).action() is Finish,
        begun(fresh, matches_peer, true, cancelled).ending.error matches Some(
            NetError::FetchAdmissionRefused { code, .. },
        ) && code is RefusedBusy,
{
    reveal(ReceiveView::due);
    reveal_with_fuel(ReceiveView::due, 9);
}

/// A receipt of completion is sent only by an activation that succeeded.
pub proof fn lemma_failures_send_no_completion(failure: crate::failure::ReceiveFailure<Seq<char>>)
    ensures
        payload_ending(failure).receipt matches Some(note) ==> !(note.code is Completed),
        payload_ending(failure).error is Some,
        !(payload_ending(failure).cleanup is Skip),
{
}

/// Whether event `k` is the outcome of a side effect that was asked for.
pub open spec fn effect_applied(m: ReceiveView, events: Seq<ReceiveEvent>, k: int) -> bool {
    &&& 0 <= k < events.len()
    &&& events[k] is Applied
    &&& run(m, events.subrange(0, k)).step is Applying
}

/// No local outcome leads back to an earlier step.
proof fn lemma_local_never_falls(m: ReceiveView, result: Result<(), String>, cancelled: bool)
    requires
        m.wf(),
        !(m.step is Ending),
    ensures
        order(m.after(ReceiveEvent::Local { result, cancelled }).step) >= order(m.step),
{
    broadcast use lemma_conclusions;

    lemma_next_local(m, result, cancelled);
}

/// No reading leads back to an earlier step.
proof fn lemma_reading_never_falls(m: ReceiveView, event: ReceiveEvent)
    requires
        m.wf(),
        !(m.step is Ending),
        event is CardLoaded || event is HeaderRead || event is ManifestRead
            || event is UncertaintyRead || event is Reserved,
    ensures
        order(m.next(event).step) >= order(m.step),
{
    broadcast use lemma_conclusions;

    match event {
        ReceiveEvent::CardLoaded(result) => lemma_next_card(m, result),
        ReceiveEvent::HeaderRead(result) => lemma_next_header(m, result),
        ReceiveEvent::ManifestRead(result) => lemma_next_manifest(m, result),
        ReceiveEvent::UncertaintyRead { flagged, stored } => lemma_next_uncertainty(
            m,
            flagged,
            stored,
        ),
        ReceiveEvent::Reserved(result) => lemma_next_reserved(m, result),
        _ => {},
    }
}

/// No outcome of another kind leads back to an earlier step.
proof fn lemma_other_never_falls(m: ReceiveView, event: ReceiveEvent)
    requires
        m.wf(),
        !(m.step is Ending),
        event is Sent || event is Recorded || event is PayloadReceived || event is Published
            || event is Applied || event is CleanedUp || event is ShutDown || event is GuardDropped,
    ensures
        order(m.next(event).step) >= order(m.step),
        m.step is Applying && event is Applied ==> order(m.next(event).step) > order(m.step),
{
    broadcast use lemma_conclusions;

    match event {
        ReceiveEvent::Sent(result) => lemma_next_sent(m, result),
        ReceiveEvent::Recorded(result) => lemma_next_recorded(m, result),
        ReceiveEvent::PayloadReceived { result, cancelled } => lemma_next_payload(
            m,
            result,
            cancelled,
        ),
        ReceiveEvent::Published(result) => lemma_next_publication(m, result),
        ReceiveEvent::Applied(result) => lemma_next_applied(m, result),
        ReceiveEvent::CleanedUp(result) => lemma_next_cleanup(m, result),
        ReceiveEvent::GuardDropped { staging_failed, journal_failed } => lemma_next_guard(
            m,
            staging_failed,
            journal_failed,
        ),
        _ => lemma_next_shutdown(m),
    }
}

/// No event leads back to an earlier step.
proof fn lemma_order_never_falls(m: ReceiveView, event: ReceiveEvent)
    requires
        m.wf(),
    ensures
        order(advanced(m, event).step) >= order(m.step),
        m.step is Applying && event is Applied ==> order(advanced(m, event).step) > order(m.step),
{
    reveal(advanced);
    if m.step is Ending {
        lemma_endings_move_on(m, event);
    } else {
        match event {
            ReceiveEvent::Local { result, cancelled } => {
                lemma_local_never_falls(m, result, cancelled);
            },
            ReceiveEvent::CardLoaded(_)
            | ReceiveEvent::HeaderRead(_)
            | ReceiveEvent::ManifestRead(_)
            | ReceiveEvent::UncertaintyRead { .. }
            | ReceiveEvent::Reserved(_) => {
                lemma_reading_never_falls(m, event);
            },
            _ => {
                lemma_other_never_falls(m, event);
            },
        }
    }
}

proof fn lemma_stays_behind(m: ReceiveView, events: Seq<ReceiveEvent>, k: int)
    requires
        m.wf(),
        effect_applied(m, events, k),
    ensures
        order(run(m, events).step) > order(Step::Applying),
    decreases events.len(),
{
    let before = events.drop_last();
    lemma_run_wf(m, before);
    lemma_order_never_falls(run(m, before), events.last());
    if k == events.len() - 1 {
        assert(events.subrange(0, k) =~= before);
    } else {
        assert(before.subrange(0, k) =~= events.subrange(0, k));
        assert(before[k] == events[k]);
        lemma_stays_behind(m, before, k);
    }
}

/// An activation applies its side effect at most once, whatever its events.
pub proof fn lemma_side_effect_is_applied_once(
    m: ReceiveView,
    events: Seq<ReceiveEvent>,
    i: int,
    j: int,
)
    requires
        m.wf(),
        effect_applied(m, events, i),
        effect_applied(m, events, j),
    ensures
        i == j,
{
    if i < j {
        let before = events.subrange(0, j);
        assert(before.subrange(0, i) =~= events.subrange(0, i));
        assert(before[i] == events[i]);
        lemma_stays_behind(m, before, i);
    } else if j < i {
        let before = events.subrange(0, i);
        assert(before.subrange(0, j) =~= events.subrange(0, j));
        assert(before[j] == events[j]);
        lemma_stays_behind(m, before, j);
    }
}

} // verus!
