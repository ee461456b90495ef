//! What is made, kept and shown.
use vstd::prelude::*;

use crate::activation::{
    ActivationJournalEntry, ActivationMode, ActivationState, ClipboardCacheRecord, FetchActivation,
};
use crate::announce::{announced_card, answer_from_shelf, OfferAck, OfferAnnouncement};
use crate::clipboard::{classify_clipboard_failure, ClipboardError};
use crate::controller::{Controller, PeerView};
use crate::desktop::{
    apply_peer_view, apply_refresh_error, ActivationGate, ActivationPermit, OperationGate,
    OperationPermit, PeerPanel,
};
use crate::destination::{collision_candidate, component_with_suffix, portable_component};
use crate::identity::InstallationIdentity;
use crate::ids::{hyphenated, ActivationId, DeviceId, MessageId, OfferId};
use crate::manifest::{ManifestReader, PlanCounts};
use crate::memory_store::{MemoryReceiveStore, ReceiveRecord};
use crate::model::{ContentKind, Receipt, ReceiptCode, TextEnvelope};
use crate::net_error::NetError;
use crate::offer_source::{inspect_path, SourcePreparationError};
use crate::outcome::ActivationOutcome;
use crate::path::HostPath;
use crate::payload::{PayloadReceive, StagedFile};
use crate::publish::{clipboard_cache_name, Publish};
use crate::receive::{Receive, SideEffectFailure};
use crate::report::MeshSendReport;
use crate::service::{ActivationOwner, OwnerRegistry};
use crate::source::SourceMetadata;
use crate::staging::{staging_removal_failed, IoFault};
use crate::store::{OfferCardInput, OfferCardRecord, StoreError};
use crate::stream::FileSend;
use crate::text::byte_len;
use crate::wire::{FetchHeader, FileEnd, FileStart, V2Limits};

verus! {

// The shelf.

/// The shelf answers an announcement by itself exactly where it holds the offer, or is full;
/// otherwise the card is stored as it was announced, for the device that was let in.
pub proof fn lemma_shelves_answer(
    announcement: &OfferAnnouncement,
    existing: &Option<OfferCardRecord>,
    live: u32,
    r: Option<OfferAck>,
    announced: OfferAnnouncement,
    source: DeviceId,
    card: OfferCardInput,
)
    requires
        call_ensures(answer_from_shelf, (announcement, existing, live), r),
        call_ensures(announced_card, (announced, source), card),
    ensures
        r is None <==> *existing is None && live < 10,
        r matches Some(ack) ==> {
            &&& ack@.offer_id == announcement.offer_id && ack@.live_entries == live
            &&& ack@.code is Duplicate <==> (*existing matches Some(known) && known.descriptor@
                == announcement.descriptor@)
            &&& ack@.code is RefusedConflict <==> (*existing matches Some(known)
                && known.descriptor@ != announcement.descriptor@)
            &&& ack@.code is RefusedCapacity <==> *existing is None
        },
        card.source_device == source,
        card.offer_id == announced.offer_id,
        card.descriptor == announced.descriptor,
        card.availability is Available,
{
}

// Names.

/// The first name that is tried is the name itself, the next ones are numbered, and every
/// one that is tried is portable.
pub proof fn lemma_names_that_are_tried(
    root: &str,
    kind: ContentKind,
    index: usize,
    r: Result<String, NetError>,
    part: &str,
    suffix: &str,
    suffixed: Result<String, NetError>,
)
    requires
        call_ensures(collision_candidate, (root, kind, index), r),
        call_ensures(component_with_suffix, (part, suffix), suffixed),
    ensures
        index == 1 && portable_component(root@) ==> (r matches Ok(name) && name@ == root@),
        r matches Ok(name) ==> portable_component(name@),
        suffixed matches Ok(name) ==> portable_component(name@) && (byte_len(part@) + byte_len(
            suffix@,
        ) <= 255 ==> name@ == part@ + suffix@),
{
    crate::name_laws::lemma_names_that_are_taken(root@, 255);
    crate::name_laws::lemma_suffixed_names(part@, suffix@);
    if let Ok(name) = r {
        let split = choose|split: Option<(Seq<char>, Seq<char>)>|
            crate::destination::text_result(r) == #[trigger] crate::destination::candidate_with(
                root@,
                kind,
                index as nat,
                split,
            );
        crate::destination::lemma_candidate_is_portable(root@, kind, index as nat, split);
    }
}

/// What is kept for the clipboard has the name of its activation.
pub proof fn lemma_cached_names(
    a: ActivationId,
    b: ActivationId,
    name_a: String,
    name_b: String,
)
    requires
        call_ensures(clipboard_cache_name, (a,), name_a),
        call_ensures(clipboard_cache_name, (b,), name_b),
    ensures
        name_a@ == "candidate-"@ + hyphenated(a.0),
        name_a@ == name_b@ ==> a == b,
{
    if name_a@ == name_b@ {
        let n = "candidate-"@.len() as int;
        assert(name_a@.skip(n) =~= hyphenated(a.0));
        assert(name_b@.skip(n) =~= hyphenated(b.0));
        crate::shelf_laws::lemma_written_identifiers(a.0, b.0, 0);
    }
}

// How things begin.

/// A publication, a payload, a manifest and a file begin with nothing done, for what they
/// were made for.
pub proof fn lemma_beginnings(
    id: ActivationId,
    mode: ActivationMode,
    kind: ContentKind,
    name: String,
    has_destination: bool,
    publish: Publish,
    counts: PlanCounts,
    digest: &Option<Vec<u8>>,
    files: Vec<StagedFile>,
    payload: PayloadReceive,
    header: &FetchHeader,
    reader: ManifestReader,
)
    requires
        call_ensures(Publish::new, (id, mode, kind, name, has_destination), publish),
        call_ensures(PayloadReceive::new, (id, counts, digest, files), payload),
        call_ensures(ManifestReader::new, (header,), reader),
    ensures
        publish@.step is MarkPublishing && publish@.index == 0,
        publish@.mode == mode && publish@.content_kind == kind && publish@.root_name == name@,
        publish@.request_id == id && publish@.has_destination == has_destination,
        payload@.request_id == id && payload@.counts == counts && payload@.files == files@,
        payload@.position == 0 && payload@.bytes_received == 0 && payload@.text is None,
        counts.content_kind is Text <==> payload@.step is ReadText,
        reader@.request_id == header.request_id && reader@.entries.len() == 0,
        reader@.announced_entries == header.manifest_entries,
        reader@.announced_bytes == header.manifest_encoded_bytes,
        reader@.next_index == 0 && reader@.encoded_bytes == 0 && reader@.end is None,
{
}

/// An activation begins with its card only where cleanup is not blocked, it was not
/// cancelled, and the peer is its source.
pub proof fn lemma_an_activation_begins(
    activation: FetchActivation,
    source: DeviceId,
    drawn_request: ActivationId,
    drawn_offer: OfferId,
    limits: V2Limits,
    cache: HostPath,
    blocked: bool,
    cancelled: bool,
    m: Receive,
)
    requires
        call_ensures(
            Receive::begin,
            (activation, source, drawn_request, drawn_offer, limits, cache, blocked, cancelled),
            m,
        ),
    ensures
        m@.step is LoadingCard ==> !blocked && !cancelled && source == activation@.source_device,
        !blocked && !cancelled && source == activation@.source_device && activation@.request_id
            != drawn_request && activation@.offer_id != drawn_offer ==> m@.step is LoadingCard,
        m@.activation == activation@,
{
    crate::arrival_laws::lemma_activations_begin(
        crate::receive::fresh_receive(activation@, limits, cache@),
        crate::receive::activation_matches(activation@, source, drawn_request, drawn_offer),
        blocked,
        cancelled,
    );
}

/// A file is announced and closed under its own request and number.
pub proof fn lemma_files_are_named(
    id: ActivationId,
    index: u32,
    bytes: u64,
    digest: Vec<u8>,
    m: FileSend,
    n: &FileSend,
    start: FileStart,
    end: FileEnd,
)
    requires
        call_ensures(FileSend::new, (id, index, bytes, digest), m),
        call_ensures(FileSend::start_message, (n,), start),
        call_ensures(FileSend::end_message, (n,), end),
    ensures
        m@.request_id == id && m@.entry_index == index && m@.byte_len == bytes,
        m@.remaining == bytes && m@.metadata_digest == digest@ && m@.step is CheckPath,
        start.request_id == n@.request_id && start.entry_index == n@.entry_index,
        start.byte_len == n@.byte_len,
        end.request_id == n@.request_id && end.entry_index == n@.entry_index,
        end.sha256@ == n@.digest,
{
}

// Messages and identities.

/// A message is made of what it was given, and is in order at once where its text is and it
/// does not expire before.
pub proof fn lemma_messages_are_made(
    source: DeviceId,
    target: DeviceId,
    at: u64,
    expires: Option<u64>,
    text: &str,
    kind: ContentKind,
    push: TextEnvelope,
    item: TextEnvelope,
    id: MessageId,
    named: TextEnvelope,
)
    requires
        call_ensures(
            TextEnvelope::<String>::clipboard_push,
            (source, target, at, expires, text),
            push,
        ),
        call_ensures(
            TextEnvelope::<String>::shelf_item,
            (source, target, at, expires, kind, text),
            item,
        ),
        call_ensures(
            TextEnvelope::<String>::shelf_item_with_id,
            (id, source, target, at, expires, kind, text),
            named,
        ),
    ensures
        push@.text == text@ && item@.text == text@ && named@.text == text@,
        push@.source_device == source && item@.source_device == source,
        named@.source_device == source,
        push@.target_device == target && item@.target_device == target,
        named@.target_device == target && named@.message_id == id,
        push@.delivery_mode is ClipboardPush && item@.delivery_mode is ShelfItem,
        named@.delivery_mode is ShelfItem,
        push@.content_kind is Text && item@.content_kind == kind && named@.content_kind == kind,
        0 < byte_len(text@) <= 1_048_576 && (expires matches Some(end) ==> at <= end)
            ==> push@.check(at) is Ok && item@.check(at) is Ok && named@.check(at) is Ok,
{
    crate::shelf_laws::lemma_messages_that_are_accepted(push@, at);
    crate::shelf_laws::lemma_messages_that_are_accepted(item@, at);
    crate::shelf_laws::lemma_messages_that_are_accepted(named@, at);
}

/// A receipt names its message and what became of it.
pub proof fn lemma_receipts_are_made(
    id: MessageId,
    applied: Receipt,
    again: Receipt,
    code: ReceiptCode,
    detail: &str,
    rejected: Receipt,
)
    requires
        call_ensures(Receipt::<String>::applied, (id,), applied),
        call_ensures(Receipt::<String>::duplicate_applied, (id,), again),
        call_ensures(Receipt::<String>::rejected, (id, code, detail), rejected),
    ensures
        applied@.message_id == id && again@.message_id == id && rejected@.message_id == id,
        applied@.code is Applied && again@.code is DuplicateApplied && rejected@.code == code,
        applied@.detail is None && again@.detail is None && rejected@.detail == Some(detail@),
        applied@.protocol_version == 1,
{
}

/// What an identity signs is accepted under its public key, for that message.
pub proof fn lemma_signatures_are_accepted(
    identity: &InstallationIdentity,
    message: &[u8],
    signature: Vec<u8>,
    key: &[u8],
    signed: &[u8],
    accepted: bool,
)
    requires
        call_ensures(InstallationIdentity::sign, (identity, message), signature),
        key@ == crate::identity::ed25519_public_key(identity.secret_key@),
        signed@ == signature@,
        call_ensures(InstallationIdentity::verify, (key, message, signed), accepted),
    ensures
        accepted,
        signature@.len() == 64,
{
}

/// A message is found exactly where it was recorded.
pub proof fn lemma_messages_are_found(
    store: &MemoryReceiveStore,
    id: MessageId,
    r: Option<ReceiveRecord>,
)
    requires
        call_ensures(MemoryReceiveStore::get, (store, id), r),
    ensures
        r is Some <==> store@.dom().contains(id.0),
        r matches Some(record) ==> record@ == store@[id.0],
{
}

// What is kept on disk.

/// A journal and a cache are kept only under absolute paths, and an activation may have
/// touched the clipboard exactly from the moment it was about to.
pub proof fn lemma_what_may_be_kept(
    entry: &ActivationJournalEntry,
    kept: Result<(), StoreError>,
    cache: &ClipboardCacheRecord,
    cached: Result<(), StoreError>,
    state: ActivationState,
    uncertain: bool,
    removal: &Result<(), IoFault>,
    failed: bool,
)
    requires
        call_ensures(ActivationJournalEntry::validate, (entry,), kept),
        call_ensures(ClipboardCacheRecord::validate, (cache,), cached),
        call_ensures(ActivationState::is_uncertain_side_effect, (state,), uncertain),
        call_ensures(staging_removal_failed, (removal,), failed),
    ensures
        kept is Ok <==> entry.staging_root.absolute,
        cached is Ok <==> cache.payload_path.absolute,
        uncertain <==> state is ApplyingClipboard || state is UncertainNoReplay,
        failed <==> (*removal matches Err(fault) && !(fault.kind is NotFound)),
{
}

/// A path that is to be offered is looked at first: a link is refused, and what cannot be
/// looked at.
pub proof fn lemma_paths_are_looked_at(
    metadata: Result<SourceMetadata, String>,
    r: Result<(), SourcePreparationError>,
)
    requires
        call_ensures(inspect_path, (metadata,), r),
    ensures
        r is Ok <==> (metadata matches Ok(m) && !m.is_symlink),
        metadata matches Ok(m) ==> (m.is_symlink ==> (r
            matches Err(SourcePreparationError::Symlink))),
{
}

// What is shown.

/// A clipboard error is uncertain exactly where the clipboard may have changed.
pub proof fn lemma_clipboard_errors(
    message: &str,
    plain: ClipboardError,
    doubtful: ClipboardError,
    error: ClipboardError,
    failure: SideEffectFailure,
    described: String,
)
    requires
        call_ensures(ClipboardError::new, (message,), plain),
        call_ensures(ClipboardError::uncertain, (message,), doubtful),
        call_ensures(classify_clipboard_failure, (error,), failure),
        call_ensures(ClipboardError::describe, (&error,), described),
    ensures
        !plain.may_have_happened() && doubtful.may_have_happened(),
        plain.text() == message@ && doubtful.text() == message@,
        failure is Uncertain <==> error.may_have_happened(),
        described@ == "clipboard error: "@ + error.text(),
{
}

/// What is shown of the devices is online exactly where one of them answered.
pub proof fn lemma_shown_devices(c: &Controller, r: PeerView)
    requires
        call_ensures(Controller::view, (c,), r),
    ensures
        r.online <==> crate::surface_laws::how_many_answered(c.peers@, c.reachable_peers@) > 0,
        c.selected_device matches Some(device) ==> (c.reachable_peers@.dom().contains(device.0)
            ==> r.name@ == c.reachable_peers@[device.0]@),
        !c.checked ==> r.status@
            == "Reachability not checked yet · refresh to find meshelf devices"@,
{
    crate::surface_laws::lemma_reachable_devices_are_named(c.peers@, c.reachable_peers@, 0);
    let names = crate::controller::answered_names(c.peers@, c.reachable_peers@);
    crate::order::lemma_sorting_keeps_length(names, true);
    if let Some(device) = c.selected_device {
        crate::surface_laws::lemma_status_of_devices(
            c.peers@.len(),
            names.len(),
            device,
            c.reachable_peers@,
            crate::controller::shown_names(c.peers@, c.reachable_peers@),
        );
    }
}

/// The window shows what it is told; an error leaves the device that is shown.
pub proof fn lemma_windows_show_what_they_are_told()
    ensures
        forall|p: &mut PeerPanel, view: PeerView| #[trigger]
            call_ensures(apply_peer_view, (p, view), ()) ==> final(p).default_peer == view.name
                && final(p).default_peer_online == view.online && final(p).status_text
                == view.status && final(p).reachable_names == view.reachable_names,
        forall|p: &mut PeerPanel, error: String| #[trigger]
            call_ensures(apply_refresh_error, (p, error), ()) ==> final(p).status_text == error
                && final(p).default_peer == p.default_peer && final(p).default_peer_online
                == p.default_peer_online,
{
}

/// One operation at a time, and two activations at most.
pub proof fn lemma_gates_of_the_window()
    ensures
        forall|g: &mut OperationGate, r: Option<OperationPermit>| #[trigger]
            call_ensures(OperationGate::try_enter, (g,), r) ==> (r is Some <==> !g.is_busy())
                && final(g).is_busy(),
        forall|g: &mut OperationGate, permit: OperationPermit| #[trigger]
            call_ensures(OperationGate::leave, (g, permit), ()) ==> !final(g).is_busy(),
        forall|g: &mut ActivationGate, r: Option<ActivationPermit>| #[trigger]
            call_ensures(ActivationGate::try_enter, (g,), r) ==> (r is Some <==> g.running() < 2)
                && (r is Some ==> final(g).running() == g.running() + 1) && (r is None
                ==> final(g).running() == g.running()),
        forall|g: &mut ActivationGate, permit: ActivationPermit| #[trigger]
            call_ensures(ActivationGate::leave, (g, permit), ()) ==> (g.running() > 0
                ==> final(g).running() == g.running() - 1),
{
}

/// An activation that is over is forgotten, and no other; one store has one owner.
pub proof fn lemma_owners()
    ensures
        forall|o: &mut ActivationOwner, id: ActivationId| #[trigger]
            call_ensures(ActivationOwner::finish, (o, id), ()) ==> final(o)@.live
                == crate::service::without(o@.live, id) && final(o)@.recovered == o@.recovered
                && final(o)@.cleanup_blocked == o@.cleanup_blocked,
        forall|g: &mut OwnerRegistry, path: &str, r: usize| #[trigger]
            call_ensures(OwnerRegistry::shared_owner, (g, path), r) ==> r < final(g).paths().len()
                && final(g).paths()[r as int] == path@ && g.paths().is_prefix_of(final(g).paths()),
{
    assert forall|g: &mut OwnerRegistry, path: &str, r: usize| #[trigger]
        call_ensures(OwnerRegistry::shared_owner, (g, path), r) implies g.paths().is_prefix_of(
        final(g).paths(),
    ) by {
        if !g.paths().contains(path@) {
            assert(g.paths().push(path@).subrange(0, g.paths().len() as int) =~= g.paths());
        }
    }
}

/// The words of an outcome say what became of the activation, and those of a report how many
/// devices have the offer.
pub proof fn lemma_words_that_are_shown(
    outcome: &ActivationOutcome,
    words: String,
    completed: bool,
    report: &MeshSendReport,
    status: String,
)
    requires
        call_ensures(ActivationOutcome::desktop_status, (outcome,), words),
        call_ensures(ActivationOutcome::is_completed, (*outcome,), completed),
        call_ensures(MeshSendReport::status, (report,), status),
    ensures
        words@ == outcome.status(),
        completed <==> *outcome is Completed,
        status@ == report@.status(),
{
}

} // verus!
