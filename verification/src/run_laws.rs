//! What the running parts do when they are told what happened.
use vstd::prelude::*;

use crate::activation::FetchActivation;
use crate::connection::{
    handle_v2_connection, ConnectionEvent, ConnectionStep, HandlerSlots, Operation,
};
use crate::failure::ReceiveFailure;
use crate::identity::{IdentityError, InstallationIdentity, StoredIdentity};
use crate::ids::{ActivationId, DeviceId, MessageId, OfferId};
use crate::manifest::{
    validate_header, validate_manifest, Manifest, ManifestFrame, ManifestReader, PlanCounts,
};
use crate::memory_store::{
    MemoryReceiveStore, ReceivePhase, ReceiveRecord, ReceiveState, TransitionOutcome,
};
use crate::model::{ContentKind, EnvelopeValidationError, TextEnvelope};
use crate::net::{bind_discovered_tailscale_address, select_discovered_ip, IpAddress, SocketAddress};
use crate::net_error::NetError;
use crate::offer::{OfferDescriptor, OfferDescriptorError};
use crate::outcome::ActivationRefuseCode;
use crate::path::HostPath;
use crate::payload::{PayloadEvent, PayloadReceive};
use crate::publish::{Publish, PublishEvent};
use crate::receive::{Effects, Receive, ReceiveAction, ReceiveEvent};
use crate::reservation::{FilesystemKey, ReservationError, ReservationLedger, ReservationPermit};
use crate::send::StreamSlots;
use crate::service::ActivationOwner;
use crate::settings::SaveDestination;
use crate::shelf_changes::ShelfChangeNotifier;
use crate::side_effect::{SideEffect, SideEffectEffects, SideEffectEvent};
use crate::staging::{
    cleanup_staging, finalize_payload, remove_published_cache_object, CacheRemoval, Finalization,
    IoFault, RemovalEvent, StagingCleanup,
};
use crate::stream::{FileEvent, FileSend};
use crate::text::byte_len;
use crate::transfer::{Transfer, TransferEvent};
use crate::trust::{
    require_v2_client_hello, ClientHello, DenyAll, ExactDeviceAllowList, TrustDecision, TrustGate,
};
use crate::walk::{Walk, WalkEvent};
use crate::wire::{FetchAdmissionCode, FetchHeader, V2Limits};

verus! {

/// Each running part takes what happened as its steps say.
pub proof fn lemma_parts_take_their_steps(
    publish: (Publish, PublishEvent, MessageId, Publish),
    payload: (PayloadReceive, PayloadEvent, PayloadReceive),
    transfer: (Transfer, TransferEvent, Transfer),
    file: (FileSend, FileEvent, FileSend),
    walk: (Walk, WalkEvent, Walk),
    effect: (SideEffect, SideEffectEvent, (SideEffect, SideEffectEffects)),
    receive: (Receive, ReceiveEvent, (Receive, Effects)),
)
    requires
        call_ensures(Publish::handle, (publish.0, publish.1, publish.2), publish.3),
        call_ensures(PayloadReceive::handle, (payload.0, payload.1), payload.2),
        call_ensures(Transfer::send_plan, (transfer.0, transfer.1), transfer.2),
        call_ensures(FileSend::stream_file, (file.0, file.1), file.2),
        call_ensures(Walk::walk_folder, (walk.0, walk.1), walk.2),
        call_ensures(SideEffect::apply_side_effect, (effect.0, effect.1), effect.2),
        call_ensures(Receive::handle, (receive.0, receive.1), receive.2),
    ensures
        publish.3@ == publish.0@.next(publish.1, publish.2),
        payload.2@ == payload.0@.next(payload.1),
        transfer.2@ == transfer.0@.next(transfer.1),
        file.2@ == file.0@.next(file.1),
        walk.2@ == walk.0@.next(walk.1),
        effect.2.0@.step == effect.0@.next(effect.1),
        effect.2.0@.text == effect.0@.text && effect.2.0@.published == effect.0@.published,
        effect.2.1 == effect.0@.effects(effect.1),
        receive.2.0@ == receive.0@.after(receive.1),
        receive.2.1 == receive.0@.effects(receive.1),
{
}

/// An activation that is asked what to do says what its step needs.
pub proof fn lemma_activations_say_what_to_do(m: &Receive, action: ReceiveAction, done: bool)
    requires
        call_ensures(Receive::action, (m,), action),
        call_ensures(Receive::is_done, (m,), done),
    ensures
        crate::receive::action_view(action) == m@.action(),
        action is Publish <==> m@.step is Publishing,
        action is ReceivePayload <==> m@.step is Transferring,
        action is ApplySideEffect <==> m@.step is Applying,
        action is Reserve <==> m@.step is Reserving,
        done ==> action is Finish,
{
}

/// A manifest and a header are taken exactly where nothing is wrong with them.
pub proof fn lemma_manifests_and_headers_are_checked(
    header: &FetchHeader,
    card: &OfferDescriptor,
    activation: &FetchActivation,
    manifest: &Manifest,
    limits: &V2Limits,
    taken: Result<PlanCounts, FetchAdmissionCode>,
    r: Result<(), FetchAdmissionCode>,
)
    requires
        call_ensures(validate_header, (header, card, activation), taken),
        call_ensures(validate_manifest, (header, card, manifest, limits), r),
    ensures
        taken is Ok <==> crate::manifest::header_answers(header@, card@, activation@),
        taken matches Ok(counts) ==> counts == crate::manifest::counts_of(card@),
        taken matches Err(code) ==> code is InvalidManifest,
        r is Ok <==> crate::manifest::manifest_error(header@, card@, manifest@, *limits) is None,
        r matches Err(code) ==> crate::manifest::manifest_error(
            header@,
            card@,
            manifest@,
            *limits,
        ) == Some(code),
{
}

/// A manifest is read frame by frame.
pub proof fn lemma_manifests_are_read(
    reader: ManifestReader,
    frame: ManifestFrame,
    limits: &V2Limits,
    r: Result<ManifestReader, ReceiveFailure>,
)
    requires
        call_ensures(ManifestReader::read_manifest, (reader, frame, limits), r),
    ensures
        r is Ok <==> reader@.next(frame, *limits) is Ok,
        r matches Ok(next) ==> reader@.next(frame, *limits) == Ok::<
            _,
            ReceiveFailure<Seq<char>>,
        >(next@),
{
}

/// A connection goes on only for a device that was let in.
pub proof fn lemma_connections_go_on_for_those_let_in(
    device: DeviceId,
    decision: TrustDecision,
    next: ConnectionStep,
)
    requires
        call_ensures(
            handle_v2_connection,
            (ConnectionStep::AskGate(device), ConnectionEvent::GateAnswered(decision)),
            next,
        ),
    ensures
        next matches ConnectionStep::WriteHello { accepted, reason } && (accepted == Some(device)
            <==> decision is Allow) && (accepted is None <==> decision is Deny) && (reason is Some
            <==> decision is Deny),
{
}

/// What an accepted device asks for is done for that device.
pub proof fn lemma_operations_are_done_for_their_device(
    device: DeviceId,
    operation: Operation,
    next: ConnectionStep,
)
    requires
        call_ensures(
            handle_v2_connection,
            (ConnectionStep::ReadOperation(device), ConnectionEvent::OperationRead(Ok(operation))),
            next,
        ),
    ensures
        operation is Announcement <==> next == ConnectionStep::<String>::HandleAnnouncement(device),
        (operation matches Operation::Fetch(Ok(_))) <==> next == ConnectionStep::<
            String,
        >::HandleFetch(device),
        operation is Other ==> next is Finished,
{
}

/// Where nobody is paired, nobody is let in; a list lets in exactly those on it.
pub proof fn lemma_gates(
    nobody: &DenyAll,
    list: &ExactDeviceAllowList,
    remote: SocketAddress,
    hello: &ClientHello,
    a: TrustDecision,
    b: TrustDecision,
    checked: Result<(), NetError>,
    operation: &str,
)
    requires
        call_ensures(<DenyAll as TrustGate>::authorize, (nobody, remote, hello), a),
        call_ensures(<ExactDeviceAllowList as TrustGate>::authorize, (list, remote, hello), b),
        call_ensures(require_v2_client_hello, (hello, operation), checked),
    ensures
        a is Deny,
        b is Allow <==> list.allowed@.contains(hello.device_id),
        checked is Ok <==> hello.protocol_version == 2 && crate::trust::pulls_offers(
            hello.capabilities@,
        ),
{
}

// What is counted.

/// Slots are given out one by one up to their number, and each can be given back.
pub proof fn lemma_slots_are_counted()
    ensures
        forall|s: &mut StreamSlots, r: bool| #[trigger]
            call_ensures(StreamSlots::try_acquire, (s,), r) ==> (r <==> s.in_use() < 2) && (r
                ==> final(s).in_use() == s.in_use() + 1) && (!r ==> final(s).in_use()
                == s.in_use()),
        forall|s: &mut StreamSlots| #[trigger]
            call_ensures(StreamSlots::release, (s,), ()) ==> (s.in_use() > 0 ==> final(s).in_use()
                == s.in_use() - 1),
        forall|s: &mut HandlerSlots, r: bool| #[trigger]
            call_ensures(HandlerSlots::try_acquire, (s,), r) ==> (r <==> s.in_use() < 16) && (r
                ==> final(s).in_use() == s.in_use() + 1) && (!r ==> final(s).in_use()
                == s.in_use()),
        forall|s: &mut HandlerSlots| #[trigger]
            call_ensures(HandlerSlots::release, (s,), ()) ==> (s.in_use() > 0 ==> final(s).in_use()
                == s.in_use() - 1),
{
}

/// At most two activations run at once, none of them twice, and one that is over makes room.
pub proof fn lemma_activations_are_counted()
    ensures
        forall|o: &mut ActivationOwner, id: ActivationId, r: Result<(), ActivationRefuseCode>|
         #[trigger]
            call_ensures(ActivationOwner::activate, (o, id), r) ==> (r is Ok <==> !o@.live.contains(
                id,
            ) && o@.live.len() < 2) && (r is Ok ==> final(o)@.live == o@.live.push(id)) && (r is Err
                ==> final(o)@ == o@) && (r matches Err(code) ==> (code is DuplicateActivation
                <==> o@.live.contains(id)) && (code is Busy <==> !o@.live.contains(id))),
        forall|o: &mut ActivationOwner, result: Result<(), NetError>, r: Result<(), NetError>|
         #[trigger]
            call_ensures(ActivationOwner::recover, (o, result), r) ==> (final(o)@.recovered
                <==> o@.recovered || result is Ok) && (r is Ok <==> o@.recovered || result is Ok)
                && final(o)@.live == o@.live,
        forall|o: &mut ActivationOwner| #[trigger]
            call_ensures(ActivationOwner::block_cleanup, (o,), ()) ==> final(o)@.cleanup_blocked
                && final(o)@.live == o@.live,
        forall|o: &mut ActivationOwner, flag: bool| #[trigger]
            call_ensures(ActivationOwner::set_clipboard_uncertain, (o, flag), ()) ==> final(o)@
                .uncertain_clipboard == flag && final(o)@.live == o@.live,
{
}

/// Room is reserved exactly where the file system holds what is reserved already, what is
/// asked for, and the headroom; what is given back is free again.
pub proof fn lemma_reservations_are_counted()
    ensures
        forall|
            l: &mut ReservationLedger,
            key: FilesystemKey,
            available: u64,
            total: u64,
            bytes: u64,
            r: Result<ReservationPermit, ReservationError>,
        | #[trigger]
            call_ensures(
                ReservationLedger::reserve_with_capacity,
                (l, key, available, total, bytes),
                r,
            ) ==> {
                let needed = bytes + crate::reservation::headroom(total);
                let held = crate::reservation::reserved_on(l@, key);
                &&& r is Ok <==> needed <= u64::MAX && held + needed <= available
                &&& r is Err ==> final(l)@ == l@
                &&& r matches Ok(permit) ==> permit.bytes() == needed && permit.key() == key
                    && crate::reservation::reserved_on(final(l)@, key) == held + needed
            },
        forall|l: &mut ReservationLedger, permit: ReservationPermit| #[trigger]
            call_ensures(ReservationLedger::release, (l, permit), ()) ==> (
            crate::reservation::reserved_on(l@, permit.key()) >= permit.bytes()
                ==> crate::reservation::reserved_on(final(l)@, permit.key())
                == crate::reservation::reserved_on(l@, permit.key()) - permit.bytes()),
{
}

/// Messages are recorded once, and move on only from the phase that was expected.
pub proof fn lemma_messages_are_recorded()
    ensures
        forall|s: &mut MemoryReceiveStore, m: &TextEnvelope, now: u64, r: ReceiveRecord| #[trigger]
            call_ensures(MemoryReceiveStore::record_if_absent, (s, m, now), r) ==> final(s)@
                .dom().contains(m.message_id.0) && r@ == final(s)@[m.message_id.0] && (
            s@.dom().contains(m.message_id.0) ==> final(s)@ == s@) && (!s@.dom().contains(
                m.message_id.0,
            ) ==> r@.envelope == m@ && r@.first_seen_unix_ms == now && r@.state.phase is Recorded),
        forall|
            s: &mut MemoryReceiveStore,
            id: MessageId,
            expected: ReceivePhase,
            next: ReceiveState,
            now: u64,
            r: TransitionOutcome,
        | #[trigger]
            call_ensures(MemoryReceiveStore::transition, (s, id, expected, next, now), r) ==> (
            r is Missing <==> !s@.dom().contains(id.0)) && (r is Changed
                <==> s@.dom().contains(id.0)
                && s@[id.0].state.phase == expected) && (!(r is Changed) ==> final(s)@ == s@) && (
            r is Changed ==> final(s)@[id.0].state == next && final(s)@[id.0].updated_at_unix_ms
                == now),
{
}

/// Who listens for changes of the shelf hears of each, from then on, until they leave.
pub proof fn lemma_changes_are_heard()
    ensures
        forall|n: &mut ShelfChangeNotifier, r: Option<u64>| #[trigger]
            call_ensures(ShelfChangeNotifier::subscribe, (n,), r) ==> (r matches Some(id)
                ==> final(n)@.subscribers.len() == n@.subscribers.len() + 1
                && final(n)@.subscribers.last().id == id && final(n)@.subscribers.last().open
                && final(n)@.subscribers.last().unread == 0),
        forall|n: &mut ShelfChangeNotifier| #[trigger]
            call_ensures(ShelfChangeNotifier::notify, (n,), ()) ==> final(n)@.subscribers
                == crate::shelf_changes::woken(n@.subscribers),
        forall|n: &mut ShelfChangeNotifier, id: u64, i: int|
            #![trigger call_ensures(ShelfChangeNotifier::received, (n, id), true),
                crate::shelf_changes::subscriber_at(n@.subscribers, id, i)]
            call_ensures(ShelfChangeNotifier::received, (n, id), true)
                && crate::shelf_changes::subscriber_at(n@.subscribers, id, i)
                && n@.subscribers[i].unread > 0 ==> final(n)@.subscribers[i].unread
                == n@.subscribers[i].unread - 1,
        forall|n: &mut ShelfChangeNotifier, id: u64| #[trigger]
            call_ensures(ShelfChangeNotifier::received, (n, id), false) ==> final(n)@ == n@,
        forall|n: &mut ShelfChangeNotifier, id: u64, i: int|
            #![trigger call_ensures(ShelfChangeNotifier::unsubscribe, (n, id), ()),
                crate::shelf_changes::subscriber_at(n@.subscribers, id, i)]
            call_ensures(ShelfChangeNotifier::unsubscribe, (n, id), ())
                && crate::shelf_changes::subscriber_at(n@.subscribers, id, i)
                ==> !final(n)@.subscribers[i].open,
{
}

// What is kept.

/// An identity that was stored is the one that is loaded; one that is new is handed out to
/// be stored.  A stored key that is not whole is an error.
pub proof fn lemma_identities_are_kept(
    entry: Option<StoredIdentity>,
    r: Result<(InstallationIdentity, Option<StoredIdentity>), IdentityError>,
    stored: &StoredIdentity,
    read: Result<InstallationIdentity, IdentityError>,
    identity: &InstallationIdentity,
    written: StoredIdentity,
)
    requires
        call_ensures(InstallationIdentity::load_or_create, (entry,), r),
        call_ensures(InstallationIdentity::from_stored, (stored,), read),
        call_ensures(InstallationIdentity::to_stored, (identity,), written),
    ensures
        entry matches Some(kept) ==> (r is Ok <==> kept.secret_key@.len() == 32),
        entry matches Some(kept) ==> (r matches Ok((loaded, new)) ==> loaded.device_id
            == kept.device_id && loaded.secret_key@ == kept.secret_key@ && new is None),
        entry is None ==> (r matches Ok((made, new)) && (new matches Some(kept) && kept.device_id
            == made.device_id && kept.secret_key@ == made.secret_key@)),
        *stored == written ==> (read matches Ok(again) && again.device_id == identity.device_id
            && again.secret_key@ == identity.secret_key@),
{
}

/// An identifier that is read back is the one that was written.
pub proof fn lemma_identifiers_are_read_back(
    device: DeviceId,
    text: String,
    shown: &str,
    read: Result<DeviceId, crate::ids::IdParseError>,
    offer: OfferId,
    offer_text: String,
    offer_shown: &str,
    offer_read: Result<OfferId, crate::ids::IdParseError>,
)
    requires
        call_ensures(DeviceId::text, (device,), text),
        call_ensures(DeviceId::from_str, (shown,), read),
        shown@ == text@,
        call_ensures(OfferId::text, (offer,), offer_text),
        call_ensures(OfferId::from_str, (offer_shown,), offer_read),
        offer_shown@ == offer_text@,
    ensures
        read == Ok::<DeviceId, crate::ids::IdParseError>(device),
        offer_read == Ok::<OfferId, crate::ids::IdParseError>(offer),
{
    assert(shown@ == crate::ids::hyphenated(device.0));
    assert(offer_shown@ == crate::ids::hyphenated(offer.0));
}

/// A card is valid exactly where its check says so, and the card of a text always is.
pub proof fn lemma_cards_are_checked(
    card: &OfferDescriptor,
    r: Result<(), OfferDescriptorError>,
    text: &str,
    made: Result<OfferDescriptor, OfferDescriptorError>,
    m: &TextEnvelope,
    now: u64,
    checked: Result<(), EnvelopeValidationError>,
)
    requires
        call_ensures(OfferDescriptor::validate, (card,), r),
        call_ensures(OfferDescriptor::text, (text,), made),
        call_ensures(TextEnvelope::<String>::validate, (m, now), checked),
    ensures
        r == card@.check(),
        made is Ok <==> 0 < byte_len(text@) <= 1_048_576,
        checked == m@.check(now),
{
}

/// Only an address that was discovered is bound, and it is one that was discovered that is
/// selected; a place of one's own is absolute.
pub proof fn lemma_addresses_and_places(
    address: SocketAddress,
    local: &Vec<IpAddress>,
    bound: Result<(), NetError>,
    selected: Option<IpAddress>,
    path: HostPath,
    place: Result<SaveDestination, String>,
)
    requires
        call_ensures(bind_discovered_tailscale_address, (address, local), bound),
        call_ensures(select_discovered_ip, (local,), selected),
        call_ensures(SaveDestination::custom, (path,), place),
    ensures
        bound is Ok ==> local@.contains(address.ip),
        selected is Some <==> local@.len() > 0,
        selected matches Some(ip) ==> local@.contains(ip),
        place is Ok <==> path.absolute,
        place matches Ok(chosen) ==> (chosen matches SaveDestination::Custom { path: p } && p@
            == path@),
{
    if local@.len() > 0 {
        crate::net::lemma_preferred_ip_is_discovered(local@);
    }
}

/// What is staged is removed, cached content is removed, and a payload is moved, step by
/// step.
pub proof fn lemma_files_are_moved_and_removed(
    cleanup: (StagingCleanup, RemovalEvent, bool, StagingCleanup),
    cache: (CacheRemoval, RemovalEvent, CacheRemoval),
    moved: (Finalization, Result<(), IoFault>, ContentKind, bool, Finalization),
)
    requires
        call_ensures(cleanup_staging, (cleanup.0, cleanup.1, cleanup.2), cleanup.3),
        call_ensures(remove_published_cache_object, (cache.0, cache.1), cache.2),
        call_ensures(finalize_payload, (moved.0, moved.1, moved.2, moved.3), moved.4),
    ensures
        cleanup.3@ == crate::staging::cleanup_next(cleanup.0@, cleanup.1, cleanup.2),
        cache.2@ == crate::staging::removal_next(cache.0@, cache.1),
        moved.4@ == crate::staging::finalization_next(moved.0@, moved.1, moved.2, moved.3),
{
}

} // verus!
