//! How the running parts begin, and what is made of what they leave.
use vstd::prelude::*;

use crate::activation::{ActivationJournalEntry, FetchActivation};
use crate::controller::PairedPeer;
use crate::coordinator::{announcements_for, offer_to_store, PeerAnnouncement};
use crate::desktop::{authorize_paired, PeerLookup};
use crate::destination::{relative_path, validate_relative_path};
use crate::failure::ReadFault;
use crate::ids::{DeviceId, OfferId};
use crate::model::ContentKind;
use crate::net::IpAddress;
use crate::net_error::NetError;
use crate::offer::OfferDescriptor;
use crate::offer_source::{walk_directory, PreparedOfferSource, SourcePreparationError};
use crate::order::{bytes_le, name_views, sort_names};
use crate::outcome::ActivationOutcome;
use crate::path::HostPath;
use crate::payload::PayloadReceive;
use crate::receive::{cleanup_result, destination_for, Attempt, Receive};
use crate::receiver::{
    cleanup_unindexed_cache_objects, read_header, record_attempt, startup_cleanup, HeaderFrame,
    RecoveryEffects, RecoveryEvent, RecoveryStep,
};
use crate::send::{fetch_header, manifest_end, send_refusal, FetchRequest, Refusal, StreamSlots};
use crate::side_effect::SideEffect;
use crate::source::SourceMetadata;
use crate::source_plan::{
    build_folder_plan, build_source_plan, finish_plan, start_folder_plan, OfferSource, PlanKind,
    SourceDraft, SourceFailure, SourcePlan,
};
use crate::staging::{prepare_staging, StagingStep};
use crate::store::{OfferAttemptStatus, OfferSourceInput, StoreError};
use crate::text::{byte_len, opt_view, split_on, truncate_utf8, views};
use crate::transfer::Transfer;
use crate::trust::{
    pulls_offers, read_server_hello, require_v2_server_hello, ClientHello, ServerHello,
    TrustDecision,
};
use crate::walk::{Walk, WalkStep};
use crate::wire::{
    FetchAbort, FetchAbortCode, FetchAdmissionCode, FetchComplete, FetchHeader, FetchRefusal,
    ManifestEnd, ManifestEntry, TextEnd, V2Limits,
};

verus! {

// The origin.

/// A plan is made of what the card and the source say together; a source of another kind
/// than its card is malformed.
pub proof fn lemma_sources_fit_their_cards(
    card: &OfferDescriptor,
    source: &OfferSource,
    r: Result<PlanKind, SourceFailure>,
)
    requires
        call_ensures(build_source_plan, (card, source), r),
    ensures
        r matches Ok(PlanKind::Text(plan)) ==> card@ is Text && (source matches OfferSource::Text {
            text,
        } && plan@.text == Some(text@)) && plan@.descriptor == card@,
        (r matches Ok(PlanKind::File)) <==> card@ is File && source is File,
        (r matches Ok(PlanKind::Folder)) <==> card@ is Folder && source is Folder,
        r is Ok <==> card@ is Text && source is Text || card@ is File && source is File || card@
            is Folder && source is Folder,
        r matches Err(failure) ==> failure is Malformed,
{
}

/// A folder is walked again exactly where it is still a directory of its name, no link, and
/// has a time; it is served exactly where the walk gave what was offered.
pub proof fn lemma_folders_are_walked_again(
    name: &str,
    metadata: Option<SourceMetadata>,
    basename: &Option<String>,
    limits: V2Limits,
    started: Result<Walk, SourceFailure>,
    walk: Walk,
    card: &OfferDescriptor,
    stored: &Vec<u8>,
    r: Result<SourceDraft, SourceFailure>,
)
    requires
        call_ensures(start_folder_plan, (name, metadata, basename, limits), started),
        call_ensures(build_folder_plan, (walk, card, stored), r),
    ensures
        started is Ok <==> (metadata matches Some(m) && m.is_directory && !m.is_symlink
            && m.modified is Some && opt_view(*basename) == Some(name@)),
        metadata is None ==> (started matches Err(SourceFailure::Unavailable)),
        metadata matches Some(m) ==> (!m.is_directory || m.is_symlink || opt_view(*basename) != Some(
            name@,
        ) ==> (started matches Err(SourceFailure::Changed))),
        r is Ok <==> {
            &&& walk@.step == WalkStep::<Seq<char>>::Finished(Ok(()))
            &&& crate::source_plan::counts_kept(walk@, card@)
            &&& crate::digest::sha256(walk@.transcript) == stored@
        },
        r matches Ok(draft) ==> draft@.manifest == walk@.manifest && draft@.files == walk@.files,
{
    crate::source_laws::lemma_folders_that_are_served(walk@, card@, stored@);
}

/// A folder that was walked to its end becomes an offer with what was counted and what was
/// committed to; a walk that failed does not.
pub proof fn lemma_walked_folders_are_offered(
    name: String,
    path: String,
    walk: Walk,
    r: Result<PreparedOfferSource, SourcePreparationError>,
)
    requires
        call_ensures(walk_directory, (name, path, walk), r),
    ensures
        r matches Ok(ready) ==> {
            &&& walk@.step == WalkStep::<Seq<char>>::Finished(Ok(()))
            &&& ready.descriptor@ == crate::offer_source::walked_descriptor(name@, walk@)
            &&& ready.source matches OfferSource::Folder { canonical_path, metadata_commitment }
                && canonical_path@ == path@ && metadata_commitment@ == crate::digest::sha256(
                walk@.transcript,
            )
        },
        walk@.step == WalkStep::<Seq<char>>::Finished(Ok(()))
            && crate::offer_source::walked_descriptor(name@, walk@).check() is Ok ==> r is Ok,
{
    if let WalkStep::Finished(Ok(unit)) = walk@.step {
        assert(unit == ());
    }
}

/// A plan that is finished keeps the draft's commitment, manifest and files, and two plans
/// are of one source exactly where these agree.
pub proof fn lemma_finished_plans(
    card: &OfferDescriptor,
    draft: SourceDraft,
    chunk_bytes: Option<usize>,
    encoded: Option<Vec<u8>>,
    limits: &V2Limits,
    r: Result<SourcePlan, SourceFailure>,
    a: &SourcePlan,
    b: &SourcePlan,
    same: bool,
)
    requires
        call_ensures(finish_plan, (card, draft, chunk_bytes, encoded, limits), r),
        call_ensures(SourcePlan::same_source, (a, b), same),
    ensures
        r matches Ok(plan) ==> plan@.descriptor == card@ && plan@.manifest == draft@.manifest
            && plan@.files == draft@.files && plan@.source_commitment == Some(draft@.commitment)
            && plan@.text is None,
        r is Ok <==> chunk_bytes is Some && encoded is Some && (card@ is Folder ==> chunk_bytes->0
            <= limits.max_manifest_bytes),
        same <==> a@.descriptor == b@.descriptor && a@.manifest == b@.manifest
            && a@.manifest_sha256 == b@.manifest_sha256 && a@.source_commitment
            == b@.source_commitment,
{
}

/// The header and the closing of a manifest repeat the request and say what the plan says.
pub proof fn lemma_headers_say_what_is_planned(
    request: &FetchRequest,
    plan: &SourcePlan,
    header: FetchHeader,
    end: ManifestEnd,
)
    requires
        call_ensures(fetch_header, (request, plan), header),
        call_ensures(manifest_end, (request, plan), end),
        plan@.manifest.len() <= u32::MAX,
        plan@.files.len() <= u32::MAX,
    ensures
        header@.request_id == request.request_id,
        header@.offer_id == request.offer_id,
        header@.descriptor == plan@.descriptor,
        header@.manifest_entries == plan@.manifest.len(),
        header@.manifest_sha256 == plan@.manifest_sha256,
        header@.manifest_encoded_bytes == plan@.manifest_encoded_bytes,
        header@.text_sha256 is Some <==> plan@.text is Some,
        plan@.text matches Some(text) ==> header@.text_sha256 == Some(
            crate::digest::sha256(vstd::utf8::encode_utf8(text)),
        ),
        end@.request_id == request.request_id,
        end@.entry_count == plan@.manifest.len(),
        end@.file_count == plan@.files.len(),
        end@.total_bytes == plan@.total_bytes,
        plan@.manifest_sha256 matches Some(digest) ==> end@.manifest_sha256 == digest,
{
}

/// A refusal names its request and its code, and says how many streams there are.
pub proof fn lemma_refusals_name_their_request(
    request: &FetchRequest,
    refusal: Refusal,
    slots: &StreamSlots,
    r: FetchRefusal,
    transfer: &Transfer,
    code: FetchAbortCode,
    abort: FetchAbort,
    text_end: TextEnd,
    text_complete: FetchComplete,
)
    requires
        call_ensures(send_refusal, (request, refusal, slots), r),
        call_ensures(Transfer::send_abort, (transfer, code), abort),
        call_ensures(Transfer::text_end, (transfer,), text_end),
        call_ensures(Transfer::text_complete, (transfer,), text_complete),
    ensures
        r.request_id == request.request_id && r.offer_id == request.offer_id,
        r.code == refusal.code,
        r.active_streams == slots.in_use() && r.max_active_streams == 2,
        abort.request_id == transfer@.request.request_id && abort.code == code,
        abort.files_sent == transfer@.files_sent && abort.bytes_sent == transfer@.bytes_sent,
        text_end.request_id == transfer@.request.request_id,
        text_complete.request_id == transfer@.request.request_id,
        text_complete.files_sent == 0,
        text_complete.content_set_sha256@ == text_end.sha256@,
        transfer@.plan.text matches Some(text) ==> text_end.sha256@ == crate::digest::sha256(
            vstd::utf8::encode_utf8(text),
        ) && text_complete.bytes_sent == vstd::utf8::encode_utf8(text).len(),
{
}

/// A transfer begins with its header, and what it sends is committed to from its manifest
/// on.
pub proof fn lemma_transfers_begin(
    request: FetchRequest,
    plan: SourcePlan,
    chunks: usize,
    buffer: usize,
    m: Transfer,
    t: Transfer,
    completed: (Transfer, FetchComplete),
)
    requires
        call_ensures(Transfer::new, (request, plan, chunks, buffer), m),
        call_ensures(Transfer::complete, (t,), completed),
    ensures
        m@.step is WriteHeader,
        m@.request == request && m@.plan == plan@ && m@.chunk_count == chunks,
        m@.files_sent == 0 && m@.bytes_sent == 0,
        plan@.manifest_sha256 matches Some(digest) ==> m@.content_set == digest,
        completed.1.request_id == t@.request.request_id,
        completed.1.files_sent == t@.files_sent,
        completed.1.bytes_sent == t@.bytes_sent,
        completed.1.content_set_sha256@ == crate::digest::sha256(t@.content_set),
        completed.0@.step == t@.step,
{
}

// The receiver.

/// What is received goes where it is to go: a text nowhere on disk, what is saved to its
/// destination, and what is for the clipboard into the cache.
pub proof fn lemma_where_content_goes(
    activation: &FetchActivation,
    card: &OfferDescriptor,
    cache: &HostPath,
    r: Result<Option<HostPath>, FetchAdmissionCode>,
)
    requires
        call_ensures(destination_for, (activation, card, cache), r),
    ensures
        card@ is Text ==> (r matches Ok(None)),
        !(card@ is Text) && activation@.mode is Clipboard ==> (r is Ok <==> cache@.absolute),
        !(card@ is Text) && activation@.mode is Save ==> (r is Ok <==> activation@.destination
            is Some && activation@.destination->0.absolute),
        r matches Ok(Some(path)) ==> path@.absolute && (activation@.mode is Save
            ==> activation@.destination == Some(path@)) && (activation@.mode is Clipboard ==> path@
            == cache@),
        r matches Err(code) ==> code is DestinationUnavailable,
{
    if let Ok(Some(path)) = r {
        crate::arrival_laws::lemma_destinations(activation@, card@, cache@, path@);
    }
}

/// An activation begins with its card, its payload with the files of its manifest, its side
/// effect with what was received, and its journal with what it is.
pub proof fn lemma_activations_hand_on_what_they_are(
    m: &Receive,
    payload: PayloadReceive,
    text: Option<String>,
    published: Option<String>,
    effect: SideEffect,
    root: HostPath,
    entry: ActivationJournalEntry,
)
    requires
        call_ensures(Receive::begin_payload, (m,), payload),
        call_ensures(Receive::begin_side_effect, (m, text, published), effect),
        call_ensures(Receive::journal_entry, (m, root), entry),
    ensures
        payload@.request_id == m@.activation.request_id,
        payload@.counts == m@.counts,
        payload@.files == crate::payload::staged_files(m@.entries),
        payload@.position == 0 && payload@.bytes_received == 0,
        effect@.is_text <==> m@.counts.content_kind is Text,
        effect@.mode == m@.activation.mode,
        effect@.text == opt_view(text) && effect@.published == opt_view(published),
        effect@.step is MarkApplying,
        entry.activation_id == m@.activation.request_id,
        entry.offer_id == m@.activation.offer_id,
        entry.source_device == m@.activation.source_device,
        entry.mode == m@.activation.mode,
        entry.staging_root == root,
        entry.state is Staging,
        entry.reserved_entries == m@.counts.file_count,
        entry.reserved_bytes == m@.counts.total_bytes,
{
}

/// An activation that is over is reported: as completed exactly where it ended without an
/// error.
pub proof fn lemma_finished_activations_are_reported(
    m: Receive,
    r: Result<ActivationOutcome, NetError>,
)
    requires
        call_ensures(Receive::receive, (m,), r),
    ensures
        m@.ending.error is None ==> r == Ok::<ActivationOutcome, NetError>(
            ActivationOutcome::Completed,
        ),
        m@.ending.error matches Some(error) ==> (error is FetchTerminal || error is FetchAborted
            || error is FetchRefused || error is FetchAdmissionRefused ==> r is Ok),
{
    if let Some(error) = m@.ending.error {
        crate::outcome_laws::lemma_errors_keep_their_meaning(error);
    }
}

/// The header is what came, where a header came; cleanup is over exactly where both parts
/// of it worked; an attempt is recorded as it was, unless its detail is too long.
pub proof fn lemma_what_is_left_is_recorded(
    frame: Result<HeaderFrame, ReadFault>,
    activation: &FetchActivation,
    header: Result<FetchHeader, NetError>,
    staging: Result<(), String>,
    journal: Result<(), StoreError>,
    cleaned: Result<(), NetError>,
    attempt: Attempt,
    recorded: Result<OfferAttemptStatus, NetError>,
)
    requires
        call_ensures(read_header, (frame, activation), header),
        call_ensures(cleanup_result, (staging, journal), cleaned),
        call_ensures(record_attempt, (attempt,), recorded),
    ensures
        header is Ok <==> (frame matches Ok(HeaderFrame::Header(_))),
        header matches Ok(h) ==> frame == Ok::<HeaderFrame, ReadFault>(HeaderFrame::Header(h)),
        cleaned is Ok <==> staging is Ok && journal is Ok,
        recorded is Ok <==> (attempt.detail matches Some(detail) ==> byte_len(detail@) <= 256),
        recorded matches Ok(status) ==> status@.code == attempt.code && status@.files_processed
            == attempt.files && status@.bytes_processed == attempt.bytes && status@.detail
            == opt_view(attempt.detail),
{
}

/// Recovery takes its steps, and sweeps from the cache exactly what was left by nobody.
pub proof fn lemma_recovery_takes_its_steps(
    step: RecoveryStep,
    event: RecoveryEvent,
    r: (RecoveryStep, RecoveryEffects),
    name: &Option<String>,
    path: &str,
    completed: &Option<String>,
    in_flight: &Option<String>,
    swept: bool,
)
    requires
        call_ensures(startup_cleanup, (step, event), r),
        call_ensures(cleanup_unindexed_cache_objects, (name, path, completed, in_flight), swept),
    ensures
        crate::receiver::recovery_view(r.0) == crate::receiver::recovery_next(
            crate::receiver::recovery_view(step),
            event,
        ),
        r.1 == crate::receiver::recovery_effects(crate::receiver::recovery_view(step), event),
        swept ==> opt_view(*completed) != Some(path@) && opt_view(*in_flight) != Some(path@)
            && *name is Some && "candidate-"@.is_prefix_of(name->0@),
        name is Some && (exists|rest: Seq<char>| name->0@ == #[trigger] ("candidate-"@ + rest))
            && opt_view(*completed) != Some(path@) && opt_view(*in_flight) != Some(path@) ==> swept,
{
    if let Some(text) = *name {
        crate::outcome_laws::lemma_what_is_swept(
            Seq::empty(),
            path@,
            opt_view(*completed),
            opt_view(*in_flight),
            text@,
        );
        if exists|rest: Seq<char>| text@ == #[trigger] ("candidate-"@ + rest) {
            let rest = choose|rest: Seq<char>| text@ == #[trigger] ("candidate-"@ + rest);
            crate::outcome_laws::lemma_what_is_swept(
                rest,
                path@,
                opt_view(*completed),
                opt_view(*in_flight),
                text@,
            );
        }
    } else {
        crate::outcome_laws::lemma_what_is_swept(
            Seq::empty(),
            path@,
            opt_view(*completed),
            opt_view(*in_flight),
            Seq::empty(),
        );
    }
}

// Who is at the other end.

/// A paired device is let in exactly at an address of it, under its key, and signed.
pub proof fn lemma_paired_devices_are_let_in(
    lookup: &PeerLookup,
    remote: IpAddress,
    hello: &ClientHello,
    signature_valid: bool,
    explain: bool,
    r: TrustDecision,
)
    requires
        call_ensures(authorize_paired, (lookup, remote, hello, signature_valid, explain), r),
    ensures
        r is Allow <==> (lookup matches PeerLookup::Paired(peer) && peer.addresses@.contains(remote)
            && peer.public_key@ == hello.public_key@ && signature_valid),
{
    crate::trust_laws::lemma_who_is_let_in(*lookup, remote, *hello, signature_valid, explain);
}

/// A server is taken exactly where it is the device that was expected, under the key that
/// was expected, and signed; it is used exactly where it speaks the version that pulls
/// offers and, where that is asked for, accepted.
pub proof fn lemma_servers_at_the_other_end(
    server: &ServerHello,
    signature_valid: bool,
    key: &Vec<u8>,
    device: DeviceId,
    operation: &str,
    taken: Result<(), NetError>,
    require_accepted: bool,
    used: Result<(), NetError>,
)
    requires
        call_ensures(read_server_hello, (server, signature_valid, key, device, operation), taken),
        call_ensures(require_v2_server_hello, (server, require_accepted, operation), used),
    ensures
        taken is Ok <==> signature_valid && (key@.len() > 0 ==> server.public_key@ == key@)
            && server.device_id == device,
        used is Ok <==> server.protocol_version == 2 && pulls_offers(server.capabilities@) && (
        require_accepted ==> server.accepted),
{
    crate::trust_laws::lemma_servers_that_are_taken(
        *server,
        signature_valid,
        key@,
        device,
        operation@,
    );
    crate::trust_laws::lemma_servers_that_are_used(*server, require_accepted, operation@);
}

/// An offer is stored for every paired device, and announced to every one of them.
pub proof fn lemma_offers_go_to_every_device(
    peers: &Vec<PairedPeer>,
    identity: DeviceId,
    offer_id: OfferId,
    card: &OfferDescriptor,
    at: u64,
    items: Vec<PeerAnnouncement>,
    prepared: PreparedOfferSource,
    stored: OfferSourceInput,
    i: int,
)
    requires
        call_ensures(announcements_for, (peers, identity, offer_id, card, at), items),
        call_ensures(offer_to_store, (offer_id, prepared, peers), stored),
        0 <= i < peers@.len(),
    ensures
        items@.len() == peers@.len(),
        items@[i].device_id == peers@[i].device_id,
        items@[i].announcement.target_device == peers@[i].device_id,
        items@[i].announcement.source_device == identity,
        items@[i].announcement.offer_id == offer_id,
        items@[i].announcement.descriptor@ == card@,
        stored.offer_id == offer_id,
        stored.source == prepared.source,
        stored.descriptor == prepared.descriptor,
        stored.announced_to@.len() == peers@.len(),
        stored.announced_to@[i] == peers@[i].device_id,
{
}

// Names and texts.

/// A path is taken exactly where it is not empty, not too long, and each of its parts is
/// portable; its parts are those between its slashes.  Names are sorted, and none is lost;
/// what is too long is cut, and nothing else.
pub proof fn lemma_paths_and_names(
    path: &str,
    checked: Result<(), String>,
    parts: Vec<String>,
    names: &Vec<Vec<u8>>,
    sorted: Vec<Vec<u8>>,
    text: &str,
    max: usize,
    cut: String,
)
    requires
        call_ensures(validate_relative_path, (path,), checked),
        call_ensures(relative_path, (path,), parts),
        call_ensures(sort_names, (names,), sorted),
        call_ensures(truncate_utf8, (text, max), cut),
    ensures
        checked is Ok <==> path@.len() > 0 && byte_len(path@) <= 4096 && forall|i: int|
            0 <= i < split_on(path@, '/').len() ==> crate::destination::portable_component(
                #[trigger] split_on(path@, '/')[i],
            ),
        views(parts@) == split_on(path@, '/'),
        name_views(sorted@).to_multiset() == name_views(names@).to_multiset(),
        forall|i: int, j: int|
            0 <= i < j < name_views(sorted@).len() ==> bytes_le(
                #[trigger] name_views(sorted@)[i],
                #[trigger] name_views(sorted@)[j],
            ),
        byte_len(cut@) <= max,
        cut@.is_prefix_of(text@),
        byte_len(text@) <= max ==> cut@ == text@,
{
    crate::name_laws::lemma_relative_paths_that_are_taken(path@);
    crate::order_laws::lemma_names_are_sorted(name_views(names@));
    crate::text_laws::lemma_shortening_is_least(text@, max as nat);
}

/// Staging begins with its parent and its root, and ends with a sync.
pub proof fn lemma_staging_begins_and_ends(
    kind: ContentKind,
    entries: &Vec<ManifestEntry>,
    steps: Vec<StagingStep>,
)
    requires
        call_ensures(prepare_staging, (kind, entries), steps),
    ensures
        steps@.len() >= 3,
        steps@[0] is EnsureParent,
        steps@[1] is CreateRoot,
        steps@.last() is SyncRoot,
{
    let all = crate::wire::entry_views(entries@);
    crate::arrival_laws::lemma_staging_order(kind, all);
    let views = crate::staging::step_views(steps@);
    assert(views.len() == steps@.len());
    assert(views[0] == steps@[0]@);
    assert(views[1] == steps@[1]@);
    assert(views.last() == steps@.last()@);
}

} // verus!
