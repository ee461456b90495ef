//! What the operations give back, each by itself and one after another.
use vstd::prelude::*;

use crate::activation::FetchActivation;
use crate::announce::{OfferAck, OfferAnnouncement};
use crate::client::{accept_ack, announce_offer_v2, fetch_v2, AckFrame};
use crate::commitment_laws::{
    lemma_a_change_while_sending_is_seen, lemma_a_changed_file_is_refused, same_object, spelled,
    told_apart,
};
use crate::destination::{before_first_dot, device_name, device_stem, validate_component};
use crate::ids::{DeviceId, MessageId, OfferId};
use crate::name_laws::{lemma_forbidden_characters, lemma_names_that_are_taken, well_spelled};
use crate::net_error::NetError;
use crate::offer::{DescriptorView, OfferDescriptor};
use crate::offer_laws::{
    lemma_one_line_loses_nothing_visible, lemma_preview_shows_what_fits, visible,
};
use crate::offer_source::{
    prepare_path, prepare_source, CanonicalPath, OfferInput, PathPreparation, Preparation,
    SourcePreparationError,
};
use crate::outcome::{classify_activation_result, ActivationOutcome};
use crate::publish::{Publish, PublishEvent, PublishStep};
use crate::publish_laws::lemma_a_taken_name_leads_to_the_next;
use crate::report::{
    announce_offer_plan, classify_announce_result, report_announce_outcome, AnnouncePeerOutcome,
    MeshSendReport,
};
use crate::report_laws::{
    lemma_nothing_stored_without_an_acknowledgement, lemma_stored_means_acknowledged,
};
use crate::send::{begin_fetch, handle_fetch, FetchEvent, FetchRequest, FetchStep, OfferFacts};
use crate::source::{
    metadata_bytes, plain_device_name, validate_offer_component, validate_source_component,
    SourceMetadata,
};
use crate::source_plan::{build_file_plan, OfferSource, SourceDraft, SourceFailure};
use crate::stream::{observe_file, verify_path_metadata, FileState, Observation};
use crate::text::{ascii_upper, byte_len, control, opt_view};
use crate::trust::ClientHello;
use crate::walk::LiveFile;

verus! {

// Offering and serving.

/// A file that was prepared as an offer is served by its origin exactly as long as it is
/// there under its name and nothing of it changed: not its identity, its length, its write
/// protection, nor its time of change.  One that changed is refused as changed.
pub proof fn lemma_an_offered_file_is_served_unchanged(
    canonical: CanonicalPath,
    offered: SourceMetadata,
    prepared: Result<PathPreparation, SourcePreparationError>,
    name: &str,
    commitment: &Vec<u8>,
    now: SourceMetadata,
    basename: &Option<String>,
    served: Result<SourceDraft, SourceFailure>,
)
    requires
        call_ensures(prepare_path, (canonical, offered), prepared),
        canonical.name matches Some(root_name) && root_name@ == name@,
        prepared matches Ok(PathPreparation::Ready(ready)) && (ready.source
            matches OfferSource::File { metadata_commitment, .. } && metadata_commitment@
            == commitment@),
        now.modified is Some,
        now.identity@.len() == offered.identity@.len(),
        told_apart(
            metadata_bytes("root"@, name@, now@),
            metadata_bytes("root"@, name@, offered@),
        ),
        call_ensures(
            build_file_plan,
            (name, offered.len, Some(now), basename, commitment),
            served,
        ),
    ensures
        ({
            let named = basename matches Some(b) && b@ == name@;
            let unchanged = named && !now.is_symlink && same_object(now@, offered@);
            &&& unchanged ==> served is Ok
            &&& !unchanged ==> (served matches Err(SourceFailure::Changed))
        }),
{
    lemma_names_that_are_taken(name@, 255);
    assert forall|i: int| 0 <= i < name@.len() implies #[trigger] name@[i] != '\0' by {
        lemma_forbidden_characters(name@[i]);
        crate::text_laws::lemma_control_characters(name@[i]);
    }
    assert(spelled(name@));
    let b = opt_view(*basename);
    lemma_a_changed_file_is_refused(name@, offered@, now@, b);
}

/// A regular file with a portable name can be offered, whatever characters its name has
/// besides control characters and the nine that are forbidden; its card says its name and
/// its length.
pub proof fn lemma_ordinary_files_can_be_offered(
    canonical: CanonicalPath,
    metadata: SourceMetadata,
    name: String,
    r: Result<PathPreparation, SourcePreparationError>,
)
    requires
        call_ensures(prepare_path, (canonical, metadata), r),
        canonical.name == Some(name),
        metadata.is_file,
        !metadata.is_symlink,
        metadata.modified is Some,
    ensures
        name@.len() > 0 && byte_len(name@) <= 255 && metadata.len <= 8_589_934_592 && name@.last()
            != ' ' && name@.last() != '.' && !plain_device_name(
            ascii_upper(before_first_dot(name@)),
        ) && (forall|i: int|
            0 <= i < name@.len() ==> !control(#[trigger] name@[i]) && !"<>:\"/\\|?*"@.contains(
                name@[i],
            )) ==> (r matches Ok(PathPreparation::Ready(ready)) && ready.descriptor@ == (
        DescriptorView::File { root_name: name@, total_bytes: metadata.len })),
        name@.len() == 0 || metadata.len > 8_589_934_592 || (exists|i: int|
            0 <= i < name@.len() && (control(#[trigger] name@[i]) || "<>:\"/\\|?*"@.contains(
                name@[i],
            ))) ==> r is Err,
{
    lemma_names_that_are_taken(name@, 255);
    assert forall|i: int| 0 <= i < name@.len() implies (control(#[trigger] name@[i])
        || "<>:\"/\\|?*"@.contains(name@[i]) <==> crate::destination::forbidden_char(
        name@[i],
    )) by {
        lemma_forbidden_characters(name@[i]);
    }
    crate::offer_laws::lemma_valid_root_names(name@);
    crate::offer_laws::lemma_valid_file_and_folder_descriptors(
        name@,
        metadata.len,
        0,
        0,
        0,
    );
}

/// A text can be offered exactly where it is neither empty nor too long; it is kept whole,
/// and its card shows every visible character of it, in order, as far as the preview goes.
pub proof fn lemma_texts_can_be_offered(
    text: String,
    r: Result<Preparation, SourcePreparationError>,
)
    requires
        call_ensures(prepare_source, (OfferInput::Text(text),), r),
    ensures
        r is Ok <==> 0 < byte_len(text@) <= 1_048_576,
        r matches Ok(preparation) ==> preparation matches Preparation::Ready(ready) && (
        ready.source matches OfferSource::Text { text: kept } && kept@ == text@)
            && ready.descriptor@ is Text && ready.descriptor@->utf8_bytes == byte_len(text@),
{
}

/// The preview of a text shows its visible characters in order, and all of them where it
/// has room left; it takes at most 256 bytes and stands on one line.
pub proof fn lemma_previews_show_what_is_visible(text: &str, r: String)
    requires
        call_ensures(OfferDescriptor::preview, (text,), r),
    ensures
        visible(r@).is_prefix_of(visible(text@)),
        byte_len(r@) <= 256,
        byte_len(r@) + 4 <= 256 ==> visible(r@) == visible(text@),
        forall|i: int| 0 <= i < r@.len() ==> !control(#[trigger] r@[i]),
{
    let line = crate::offer::one_line(text@);
    lemma_preview_shows_what_fits(text@);
    lemma_one_line_loses_nothing_visible(text@);
    let n = r@.len() as int;
    assert(line.subrange(0, n) =~= r@);
    lemma_visible_prefix(line, n);
    if n < line.len() {
        let longer = line.subrange(0, n + 1);
        assert(longer =~= r@.push(line[n]));
        crate::text::lemma_byte_len_push(r@, line[n]);
        crate::text::lemma_char_byte_len(line[n]);
    } else {
        assert(r@ =~= line);
    }
}

proof fn lemma_visible_prefix(s: Seq<char>, n: int)
    requires
        0 <= n <= s.len(),
    ensures
        visible(s.subrange(0, n)).is_prefix_of(visible(s)),
    decreases s.len(),
{
    if n == s.len() {
        assert(s.subrange(0, n) =~= s);
    } else {
        lemma_visible_prefix(s.drop_last(), n);
        assert(s.drop_last().subrange(0, n) =~= s.subrange(0, n));
        let inner = visible(s.drop_last());
        assert(inner.is_prefix_of(visible(s))) by {
            assert(visible(s).subrange(0, inner.len() as int) =~= inner);
        }
        let first = visible(s.subrange(0, n));
        assert(first =~= inner.subrange(0, first.len() as int));
        assert(first =~= visible(s).subrange(0, first.len() as int));
    }
}

/// The three checks of a name agree on its spelling: a name passes only where it is not
/// empty, holds no forbidden character and ends in neither a space nor a dot.
pub proof fn lemma_checked_names(
    name: &str,
    max_bytes: usize,
    component: Result<(), String>,
    served: bool,
    offered: bool,
)
    requires
        call_ensures(validate_component, (name,), component),
        call_ensures(validate_source_component, (name, max_bytes), served),
        call_ensures(validate_offer_component, (name,), offered),
    ensures
        component is Ok <==> well_spelled(name@) && byte_len(name@) <= 255 && !device_name(
            device_stem(name@),
        ),
        served <==> well_spelled(name@) && byte_len(name@) <= max_bytes && !device_name(
            device_stem(name@),
        ),
        offered <==> well_spelled(name@) && !plain_device_name(
            ascii_upper(before_first_dot(name@)),
        ),
{
    lemma_names_that_are_taken(name@, max_bytes as nat);
}

/// A file is as planned while it is sent exactly where nothing of it changed since it was
/// planned; one that cannot be looked at is unavailable.
pub proof fn lemma_files_are_watched_while_they_are_sent(
    file: &LiveFile,
    planned: SourceMetadata,
    now: Option<SourceMetadata>,
    seen: Observation,
    digest: &Vec<u8>,
    state: FileState,
)
    requires
        spelled(file.relative_name@),
        planned.modified is Some,
        digest@ == crate::digest::sha256(
            metadata_bytes(
                if file.is_root {
                    "root"@
                } else {
                    "entry"@
                },
                file.relative_name@,
                planned@,
            ),
        ),
        now matches Some(m) ==> m.modified is Some && m.identity@.len() == planned.identity@.len()
            && told_apart(
            metadata_bytes(
                if file.is_root {
                    "root"@
                } else {
                    "entry"@
                },
                file.relative_name@,
                m@,
            ),
            metadata_bytes(
                if file.is_root {
                    "root"@
                } else {
                    "entry"@
                },
                file.relative_name@,
                planned@,
            ),
        ),
        call_ensures(observe_file, (file, &now), seen),
        call_ensures(verify_path_metadata, (&seen, digest), state),
    ensures
        now is None ==> state is Unavailable,
        now matches Some(m) ==> (m.is_file && !m.is_symlink && planned.is_file ==> (
        state is AsPlanned <==> same_object(m@, planned@))),
        now matches Some(m) ==> (m.is_file && !m.is_symlink && planned.is_file && !same_object(
            m@,
            planned@,
        ) ==> state is Changed),
{
    reveal_strlit("root");
    reveal_strlit("entry");
    if let Some(m) = now {
        if let Observation::Seen(Some(d)) = seen {
            let kind = if file.is_root {
                "root"@
            } else {
                "entry"@
            };
            if d@ == crate::digest::sha256(metadata_bytes(kind, file.relative_name@, m@)) {
                lemma_a_change_while_sending_is_seen(
                    kind,
                    file.relative_name@,
                    planned@,
                    m@,
                    d,
                );
            }
        }
    }
}

// Saving.

/// What is saved, of whatever kind, moves on to the next name where a name is taken, and is
/// never given up because of it before the last number.
pub proof fn lemma_a_taken_name_is_not_the_end(
    p: Publish,
    name: Seq<char>,
    error: NetError,
    drawn: MessageId,
    q: Publish,
)
    requires
        p@.mode is Save,
        p@.step == PublishStep::Finalize(name),
        call_ensures(
            Publish::handle,
            (p, PublishEvent::Finalized { result: Err(error), name_taken: true }, drawn),
            q,
        ),
    ensures
        p@.index < 9999 ==> match crate::destination::candidate_name(
            p@.root_name,
            p@.content_kind,
            p@.index + 1,
        ) {
            Ok(next) => q@.step == PublishStep::Finalize(next) && q@.index == p@.index + 1,
            Err(_) => q@.step is Finished,
        },
        p@.index == 9999 ==> match crate::publish::fallback_name(p@.root_name, drawn) {
            Ok(next) => q@.step == PublishStep::Finalize(next),
            Err(_) => q@.step is Finished,
        },
{
    lemma_a_taken_name_leads_to_the_next(p@, name, Err(error), true, drawn);
}

// Announcing.

/// A device is reported to have stored an offer exactly where it acknowledged it, and an
/// announcement succeeds exactly where one did.
pub proof fn lemma_announcements_succeed_where_one_is_acknowledged(
    hostnames: Seq<String>,
    results: Seq<Result<OfferAck, NetError>>,
    outcomes: &Vec<AnnouncePeerOutcome>,
    report: MeshSendReport,
    told: Result<String, String>,
)
    requires
        hostnames.len() == results.len() == outcomes@.len(),
        forall|i: int|
            0 <= i < results.len() ==> call_ensures(
                classify_announce_result,
                (hostnames[i], results[i]),
                #[trigger] outcomes@[i],
            ),
        call_ensures(announce_offer_plan, (outcomes,), report),
        call_ensures(report_announce_outcome, (report,), told),
    ensures
        told is Ok <==> exists|i: int|
            0 <= i < results.len() && acknowledged(#[trigger] results[i]),
{
    lemma_nothing_stored_without_an_acknowledgement(outcomes@);
    assert forall|i: int| 0 <= i < results.len() implies (acknowledged(#[trigger] results[i])
        <==> outcomes@[i]@ is Stored) by {
        lemma_stored_means_acknowledged(hostnames[i]@, results[i]);
    }
    if exists|i: int| 0 <= i < outcomes@.len() && (#[trigger] outcomes@[i])@ is Stored {
        let i = choose|i: int| 0 <= i < outcomes@.len() && (#[trigger] outcomes@[i])@ is Stored;
        assert(acknowledged(results[i]));
    }
    if exists|i: int| 0 <= i < results.len() && acknowledged(#[trigger] results[i]) {
        let i = choose|i: int| 0 <= i < results.len() && acknowledged(#[trigger] results[i]);
        assert(outcomes@[i]@ is Stored);
    }
}

/// An announcement was acknowledged: as stored, or as stored before.
pub open spec fn acknowledged(result: Result<OfferAck, NetError>) -> bool {
    result matches Ok(ack) && (ack.code is Stored || ack.code is Duplicate)
}

/// One device's outcome: stored only where it acknowledged, and under its own name.
pub proof fn lemma_one_announcement(
    hostname: String,
    result: Result<OfferAck, NetError>,
    r: AnnouncePeerOutcome,
)
    requires
        call_ensures(classify_announce_result, (hostname, result), r),
    ensures
        r is Stored <==> acknowledged(result),
        r matches AnnouncePeerOutcome::Stored(name) ==> name@ == hostname@,
        r matches AnnouncePeerOutcome::Unavailable(name) ==> name@ == hostname@,
        result is Err ==> r is Unavailable || r is VersionMismatch,
{
    lemma_stored_means_acknowledged(hostname@, result);
}

/// An announcement is sent exactly where it was found valid, is the sender's own, and the
/// sender speaks the version that pulls offers; an acknowledgement is taken exactly where
/// it is one of that offer.
pub proof fn lemma_announcements_over_the_wire(
    hello: &ClientHello,
    announcement: &OfferAnnouncement,
    check: Result<(), String>,
    sent: Result<(), NetError>,
    frame: AckFrame,
    offer_id: OfferId,
    r: Result<OfferAck, NetError>,
)
    requires
        call_ensures(announce_offer_v2, (hello, announcement, check), sent),
        call_ensures(accept_ack, (frame, offer_id), r),
    ensures
        sent is Ok <==> check is Ok && hello.device_id == announcement.source_device
            && hello.protocol_version == 2 && crate::trust::pulls_offers(hello.capabilities@),
        r is Ok <==> (frame matches AckFrame::Ack(ack) && ack.offer_id == offer_id),
        r matches Ok(taken) ==> frame == AckFrame::Ack(taken),
{
}

// Pulling.

/// A fetch is asked for exactly where the request, the activation and the sender belong
/// together, and the sender speaks the version that pulls offers.
pub proof fn lemma_fetches_over_the_wire(
    hello: &ClientHello,
    request: &FetchRequest,
    activation: &FetchActivation,
    r: Result<(), NetError>,
)
    requires
        call_ensures(fetch_v2, (hello, request, activation), r),
    ensures
        r is Ok <==> {
            &&& hello.device_id == request.requester_device
            &&& activation.request_id == request.request_id
            &&& activation.source_device == request.source_device
            &&& activation.offer_id == request.offer_id
            &&& hello.protocol_version == 2
            &&& crate::trust::pulls_offers(hello.capabilities@)
        },
{
}

/// An origin looks an offer up only for a request that is meant for it and comes from the
/// device that was let in, and goes on only where the offer was announced to that device.
pub proof fn lemma_origins_serve_whom_they_announced_to(
    request: &FetchRequest,
    origin: DeviceId,
    authenticated: DeviceId,
    first: FetchStep,
    facts: Option<OfferFacts>,
    next: FetchStep,
)
    requires
        call_ensures(begin_fetch, (request, origin, authenticated), first),
        call_ensures(
            handle_fetch,
            (FetchStep::LoadOffer, FetchEvent::OfferLoaded(Ok(facts)), authenticated),
            next,
        ),
    ensures
        first is LoadOffer <==> request.source_device == origin && request.requester_device
            == authenticated,
        next is AcquireSlot <==> (facts matches Some(offer) && offer.announced_to@.contains(
            authenticated,
        ) && offer.source_fits),
        next is AcquireSlot || next is Refuse,
{
}

/// How an activation that ended is classified: it is completed exactly where there was no
/// error.
pub proof fn lemma_completed_activations(
    result: Result<(), NetError>,
    r: Result<ActivationOutcome, NetError>,
)
    requires
        call_ensures(classify_activation_result, (result,), r),
    ensures
        result is Ok ==> r == Ok::<ActivationOutcome, NetError>(ActivationOutcome::Completed),
{
}

} // verus!
