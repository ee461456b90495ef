//! What the command line, the window and the local channel do with what they are given.
use vstd::prelude::*;

use crate::activation::ActivationMode;
use crate::bootstrap::{
    check_enrollment, first_peer_with, first_word, DiscoveredPeer, EnrollmentRequest,
};
use crate::cli::{
    activate_reply, announce_reply, clipboard_requests, clipboard_source, command_named,
    headless_announce, parse_activate, parse_announce, parse_send_source, read_bounded_stdin,
    refuse_options, refuse_selector, resume_announce, shelf_reply, take_peer_selector,
    AnnounceSource, AnnounceStep, Command, ReplyError, SendSource,
};
use crate::controller::{accepts_discovered, Controller, PairedPeer, ProbeAnswer};
use crate::coordinator::{
    plan_from_shelf, plan_stored_offer, record_refusal, ActivationPlan, OfferPlan,
};
use crate::desktop::{
    build_activation_input, check_clipboard_item, clipboard_for_activation, create_and_announce,
    listener_address, parse_mode, sent_status, shelf_row, start_activation, ActivationGate,
    ActivationInput, ActivationPermit, ActiveActivations, ClipboardItem, Keyboard, ShelfRow,
};
use crate::ids::{hyphenated, parsed_uuid, ActivationId, DeviceId, OfferId};
use crate::local_control::{
    decode_request, dispatch, dispatch_with_runtime, encode_request, DispatchEvent, DispatchStep,
    LocalRequest, LocalResponse,
};
use crate::net::{IpAddress, SocketAddress};
use crate::offer::OfferDescriptor;
use crate::offer_source::OfferInput;
use crate::path::HostPath;
use crate::report::{announce_target, AnnounceTarget, MeshSendReport};
use crate::settings::SaveDestination;
use crate::store::{OfferCardRecord, OfferEligibilityUpdate, StoreError};
use crate::surface_laws::{
    lemma_activations_that_are_asked_for, lemma_activations_that_start_here, lemma_commands,
    lemma_peer_selectors, lemma_rows_that_can_be_activated, lemma_sources_of_a_send,
    lemma_sources_of_an_announcement,
};
use crate::text::{blank, byte_len, decimal, opt_view, views};
use crate::trust::{pulls_offers, ServerHello};

verus! {

// The command line.

/// A command is the one that is named, and nothing else.
pub proof fn lemma_named_commands(name: &str, r: Command)
    requires
        call_ensures(command_named, (name,), r),
    ensures
        r is Serve <==> name@ == "serve"@,
        r is Announce <==> name@ == "announce"@,
        r is Shelf <==> name@ == "shelf"@,
        r is Activate <==> name@ == "activate"@,
        r is Send <==> name@ == "send"@,
        r is Status <==> name@ == "status"@ || name@ == "refresh"@,
        r is ClipboardRead <==> name@ == "clipboard-read"@ || name@ == "paste-clipboard"@,
{
    lemma_commands(name@);
}

/// Options that a command does not take are refused, and only those; so is a device for
/// what is sent to all.
pub proof fn lemma_refused_options(
    command: &str,
    args: &Vec<String>,
    options: Result<(), String>,
    selector: &Option<String>,
    selected: Result<(), String>,
)
    requires
        call_ensures(refuse_options, (command, args), options),
        call_ensures(refuse_selector, (selector,), selected),
    ensures
        options is Ok <==> args@.len() == 0,
        selected is Ok <==> selector is None,
{
}

/// A selected device is taken out of the options, wherever it stands, and the others stay
/// as they are.
pub proof fn lemma_selected_devices(
    args: &Vec<String>,
    r: Result<(Option<String>, Vec<String>), String>,
    before: Seq<Seq<char>>,
    value: Seq<char>,
    after: Seq<Seq<char>>,
)
    requires
        call_ensures(take_peer_selector, (args,), r),
        !before.contains("--peer"@),
        !after.contains("--peer"@),
    ensures
        views(args@) == before ==> (r matches Ok((selector, rest)) && selector is None && views(
            rest@,
        ) == before),
        views(args@) == before + seq!["--peer"@, value] + after ==> (r matches Ok((selector, rest))
            && opt_view(selector) == Some(value) && views(rest@) == before + after),
        views(args@) == before + seq!["--peer"@] ==> r is Err,
{
    lemma_peer_selectors(before, value, after);
}

/// What is sent is the one source that is named.
pub proof fn lemma_named_sources(args: &Vec<String>, r: Result<SendSource, String>)
    requires
        call_ensures(parse_send_source, (args,), r),
    ensures
        r matches Ok(SendSource::Text(text)) ==> views(args@) == seq!["--text"@, text@],
        r matches Ok(SendSource::Clipboard) ==> views(args@) == seq!["--clipboard"@],
        r matches Ok(SendSource::Stdin) ==> views(args@) == seq!["--stdin"@],
        views(args@) == seq!["--clipboard"@] || views(args@) == seq!["--stdin"@] ==> r is Ok,
        args@.len() == 2 && args@[0]@ == "--text"@ ==> r is Ok,
{
    lemma_sources_of_a_send(views(args@));
    assert(views(args@).len() == args@.len());
}

/// What is announced is the one source that is named.
pub proof fn lemma_named_announcements(args: &Vec<String>, r: AnnounceStep)
    requires
        call_ensures(parse_announce, (args,), r),
    ensures
        args@.len() == 0 ==> r is Fail,
        args@.len() == 2 && args@[0]@ == "--text"@ ==> (r matches AnnounceStep::Announce(
            AnnounceSource::Text(text),
        ) && text@ == args@[1]@),
        args@.len() == 2 && args@[0]@ == "--path"@ ==> (r matches AnnounceStep::Announce(
            AnnounceSource::Path(path),
        ) && path@ == args@[1]@),
        r is Announce ==> args@.len() == 2,
        args@.len() > 0 && args@[0]@ == "--clipboard"@ ==> r is ReadClipboard,
        args@.len() > 0 && args@[0]@ == "--stdin"@ ==> r is ReadStdin,
{
    lemma_sources_of_an_announcement(
        views(args@),
        AnnounceSource::Text(Seq::<char>::empty()),
    );
    assert(views(args@).len() == args@.len());
    if args@.len() > 0 {
        assert(views(args@)[0] == args@[0]@);
    }
    if args@.len() > 1 {
        assert(views(args@)[1] == args@[1]@);
    }
}

/// What was read for an announcement is what is announced, where nothing follows it.
pub proof fn lemma_what_was_read_is_announced(
    args: &Vec<String>,
    read: AnnounceSource,
    r: AnnounceStep,
)
    requires
        call_ensures(resume_announce, (args, 1usize, None, read), r),
        args@.len() == 1,
    ensures
        r matches AnnounceStep::Announce(source) && source@ == read@,
{
    lemma_sources_of_an_announcement(views(args@), read@);
    assert(views(args@).len() == args@.len());
}

/// An activation is asked for by the identifier of its offer; it is saved exactly where
/// that is asked for too.
pub proof fn lemma_activations_from_the_command_line(
    args: &Vec<String>,
    r: Result<(OfferId, ActivationMode), String>,
)
    requires
        call_ensures(parse_activate, (args,), r),
    ensures
        r is Ok <==> {
            &&& args@.len() > 0
            &&& parsed_uuid(args@[0]@) is Some
            &&& forall|k: int| 1 <= k < args@.len() ==> (#[trigger] args@[k])@ == "--save"@
        },
        r matches Ok((offer, mode)) ==> parsed_uuid(args@[0]@) == Some(offer.0) && (mode is Save
            <==> args@.len() > 1),
{
    let texts = views(args@);
    lemma_activations_that_are_asked_for(texts);
    assert(texts.len() == args@.len());
    if args@.len() > 0 {
        assert(texts[0] == args@[0]@);
    }
    assert forall|k: int| 1 <= k < args@.len() implies ((#[trigger] args@[k])@ == "--save"@
        <==> texts[k] == "--save"@) by {}
    if crate::cli::activate_error(texts) is None {
        assert forall|k: int| 1 <= k < args@.len() implies (#[trigger] args@[k])@
            == "--save"@ by {
            assert(texts[k] == "--save"@);
        }
    }
}

/// What is read from the standard input is a text of at most a mebibyte, byte for byte.
pub proof fn lemma_standard_input(bytes: Vec<u8>, r: Result<String, String>)
    requires
        call_ensures(read_bounded_stdin, (bytes,), r),
    ensures
        r is Ok <==> bytes@.len() <= 1_048_576 && vstd::utf8::valid_utf8(bytes@),
        r matches Ok(text) ==> vstd::utf8::encode_utf8(text@) == bytes@,
{
}

/// What is on the clipboard is announced: a text as a text, and every file or folder by its
/// path; by command, only one of them.
pub proof fn lemma_clipboards_are_announced(
    item: ClipboardItem,
    requests: Vec<LocalRequest>,
    source: Result<AnnounceSource, String>,
    i: int,
)
    requires
        call_ensures(clipboard_requests, (item,), requests),
        call_ensures(clipboard_source, (item,), source),
    ensures
        item matches ClipboardItem::Text(text) ==> requests@.len() == 1 && requests@[0] == (
        LocalRequest::AnnounceText { text }) && (source matches Ok(AnnounceSource::Text(t)) && t
            == text),
        item matches ClipboardItem::Files(paths) ==> requests@.len() == paths@.len() && (
        source is Ok <==> paths@.len() == 1),
        item matches ClipboardItem::Files(paths) ==> (0 <= i < paths@.len() ==> (requests@[i]
            matches LocalRequest::AnnouncePath { path } && path@ == paths@[i]@)),
        item matches ClipboardItem::Files(paths) ==> (source matches Ok(s) ==> (s
            matches AnnounceSource::Path(path) && path@ == paths@[0]@)),
{
}

/// What the running program answered is told: an offer with how many it was announced to, a
/// shelf card by card, an activation that started; all else is an error.
pub proof fn lemma_replies_are_told(
    response: LocalResponse,
    announced: Result<String, ReplyError>,
    shelf: Result<Vec<String>, ReplyError>,
    activated: Result<(ActivationId, OfferId, ActivationMode), ReplyError>,
)
    requires
        call_ensures(announce_reply, (response,), announced),
        call_ensures(shelf_reply, (response,), shelf),
        call_ensures(activate_reply, (response,), activated),
    ensures
        announced is Ok <==> response is OfferCreated,
        shelf is Ok <==> response is Shelf,
        activated is Ok <==> response is ActivationStarted,
        response matches LocalResponse::OfferCreated { offer_id, announcements, .. } ==> (announced
            matches Ok(text) && text@ == "Announced offer "@ + hyphenated(offer_id.0) + " to "@
            + decimal(announcements@.len()) + " paired device(s)"@),
        response matches LocalResponse::Shelf { offers } ==> shelf->Ok_0@.len() == offers@.len(),
        response matches LocalResponse::ActivationStarted { activation_id, offer_id, mode } ==> (
        activated matches Ok((a, o, m)) && a == activation_id && o == offer_id && m == mode),
        response matches LocalResponse::Error { message } ==> (announced matches Err(
            ReplyError::Message(text),
        ) && text == message),
{
}

/// Without a window, an announcement succeeds exactly where some device stored the offer.
pub proof fn lemma_announcements_without_a_window(report: &MeshSendReport, r: Result<(), String>)
    requires
        call_ensures(headless_announce, (report,), r),
    ensures
        r is Ok <==> report.stored_on@.len() > 0,
{
}

// The local channel.

/// Each request does what it says: texts and paths are offered, offers are activated,
/// refusals recorded, settings loaded and stored, the shelf read; a text that is too long
/// is refused, and no other request.
pub proof fn lemma_requests_do_what_they_say(request: LocalRequest, r: DispatchStep)
    requires
        call_ensures(dispatch, (request,), r),
    ensures
        request matches LocalRequest::AnnounceText { text } ==> if byte_len(text@) <= 1_048_576 {
            r == DispatchStep::CreateOffer(OfferInput::Text(text))
        } else {
            r matches DispatchStep::Respond(LocalResponse::Error { .. })
        },
        request matches LocalRequest::AnnouncePath { path } ==> r == DispatchStep::CreateOffer(
            OfferInput::Path(path),
        ),
        request matches LocalRequest::ActivateOffer { offer_id, mode } ==> (r
            matches DispatchStep::PlanActivation { offer_id: o, mode: m } && o == offer_id && m
            == mode),
        request matches LocalRequest::RecordExplicitRefusal { offer_id, recipient } ==> (r
            matches DispatchStep::RecordRefusal { offer_id: o, recipient: d } && o == offer_id && d
            == recipient),
        request matches LocalRequest::SetSettings { settings } ==> r == DispatchStep::StoreSettings(
            settings,
        ),
        request is GetSettings <==> r is LoadSettings,
        request is Shelf <==> r is ReadShelf,
        request matches LocalRequest::CancelActivation { activation_id } ==> (r
            matches DispatchStep::Respond(LocalResponse::ActivationCancelled { activation_id: a })
            && a == activation_id),
{
}

/// A request is sent, and read, exactly where it is not too long.
pub proof fn lemma_requests_that_are_sent(
    bytes: usize,
    decoded: Result<(), String>,
    request: &LocalRequest,
    encoded: Result<(), String>,
)
    requires
        call_ensures(decode_request, (bytes,), decoded),
        call_ensures(encode_request, (request,), encoded),
    ensures
        decoded is Ok <==> bytes <= 6_307_840,
        decoded matches Err(error) ==> error@ == "serialized control request is "@ + decimal(
            bytes as nat,
        ) + " bytes; maximum is "@ + decimal(6_307_840),
        encoded is Ok <==> (*request matches LocalRequest::AnnounceText { text } ==> byte_len(text@)
            <= 1_048_576),
{
}

/// A request runs to its answer: what was stored is announced before it is answered, and
/// what was planned is carried out before it is answered.
pub proof fn lemma_requests_run_to_their_answers(
    step: DispatchStep,
    event: DispatchEvent,
    r: DispatchStep,
)
    requires
        call_ensures(dispatch_with_runtime, (step, event), r),
    ensures
        r matches DispatchStep::Respond(LocalResponse::OfferCreated { .. }) ==> step is Announce
            || step == r,
        r matches DispatchStep::Respond(LocalResponse::ActivationStarted { .. })
            ==> step is Activate || step == r,
        step is Announce && event == DispatchEvent::Done(Ok(())) ==> (r
            matches DispatchStep::Respond(LocalResponse::OfferCreated { .. })),
        step is Activate && event == DispatchEvent::Done(Ok(())) ==> (r
            matches DispatchStep::Respond(LocalResponse::ActivationStarted { .. })),
        step is CreateOffer && (event matches DispatchEvent::OfferCreated(Ok(Some(_))))
            ==> r is Announce,
        step is PlanActivation && (event matches DispatchEvent::Planned(Ok(_))) ==> r is Activate,
{
}

// The window.

/// What may be put on the clipboard or saved: the clipboard is used exactly where it is
/// asked for and there.
pub proof fn lemma_clipboards_that_are_used(
    mode: ActivationMode,
    available: bool,
    r: Result<bool, String>,
    text: &str,
    parsed: Result<ActivationMode, String>,
)
    requires
        call_ensures(clipboard_for_activation, (mode, available), r),
        call_ensures(parse_mode, (text,), parsed),
    ensures
        r == Ok::<bool, String>(true) <==> mode is Clipboard && available,
        r == Ok::<bool, String>(false) <==> mode is Save,
        r is Err <==> mode is Clipboard && !available,
        parsed == Ok::<ActivationMode, String>(ActivationMode::Clipboard) <==> text@
            == "clipboard"@,
        parsed is Ok <==> text@ == "clipboard"@ || text@ == "save"@,
{
    reveal_strlit("clipboard");
    reveal_strlit("save");
    assert("clipboard"@.len() == 9 && "save"@.len() == 4);
}

/// What is pasted is sent exactly where there is something to send.
pub proof fn lemma_what_can_be_pasted(item: &ClipboardItem, r: Result<(), String>)
    requires
        call_ensures(check_clipboard_item, (item,), r),
    ensures
        *item matches ClipboardItem::Text(text) ==> (r is Ok <==> !blank(text@)),
        *item matches ClipboardItem::Files(paths) ==> (r is Ok <==> paths@.len() > 0),
{
}

/// An activation is carried out against its origin: at an address of it, under its key, for
/// its offer, by this device, and saved only where it is to be saved.
pub proof fn lemma_activations_are_carried_out(
    plan: &ActivationPlan,
    device: DeviceId,
    peer: &Option<PairedPeer>,
    destination: Result<HostPath, String>,
    r: Result<ActivationInput, String>,
)
    requires
        call_ensures(build_activation_input, (plan, device, peer, destination), r),
    ensures
        r is Ok <==> {
            &&& *peer matches Some(origin) && origin.addresses@.len() > 0
            &&& plan.mode is Save ==> plan.destination is Some && destination is Ok
        },
        r matches Ok(input) ==> {
            &&& peer->0.addresses@.contains(input.address.ip)
            &&& input.address.port == 45_832
            &&& input.expected_server_public_key@ == peer->0.public_key@
            &&& input.request.request_id == plan.activation_id
            &&& input.request.offer_id == plan.offer_id
            &&& input.request.source_device == plan.source_device
            &&& input.request.requester_device == device
            &&& input.activation.request_id == plan.activation_id
            &&& input.activation.offer_id == plan.offer_id
            &&& input.activation.source_device == plan.source_device
            &&& input.activation.mode == plan.mode
            &&& input.activation.destination is Some <==> plan.mode is Save
            &&& plan.mode is Save ==> Ok::<HostPath, String>(input.activation.destination->0)
                == destination
        },
{
    lemma_activations_that_start_here(Set::empty(), 0, *plan, true, *peer, destination);
    if let Some(origin) = *peer {
        if origin.addresses@.len() > 0 {
            crate::net::lemma_preferred_ip_is_discovered(origin.addresses@);
        }
    }
}

/// An offer that was made is announced; without a paired device there is nobody to announce
/// it to.
pub proof fn lemma_offers_made_here(
    created: Result<Option<OfferPlan>, String>,
    r: Result<OfferPlan, String>,
)
    requires
        call_ensures(create_and_announce, (created,), r),
    ensures
        r is Ok <==> (created matches Ok(Some(_))),
        r matches Ok(plan) ==> created == Ok::<Option<OfferPlan>, String>(Some(plan)),
        created matches Err(error) ==> r == Err::<OfferPlan, String>(error),
{
}

/// What was sent one after another is told as sent exactly where all of it was.
pub proof fn lemma_what_was_sent_is_told(
    results: Vec<Result<String, String>>,
    r: Result<String, String>,
    i: int,
)
    requires
        call_ensures(sent_status, (results,), r),
        0 <= i < results@.len(),
        results@[i] is Err,
        forall|k: int| 0 <= k < i ==> (#[trigger] results@[k]) is Ok,
    ensures
        r matches Err(error) && error@ == results@[i]->Err_0@,
{
    assert(crate::desktop::first_failure(results@, i));
}

/// This device listens at one of the addresses that were discovered, or says that there is
/// none.
pub proof fn lemma_where_this_device_listens(
    discovered: &Option<Vec<IpAddress>>,
    r: Result<SocketAddress, String>,
)
    requires
        call_ensures(listener_address, (discovered,), r),
    ensures
        r is Ok <==> (*discovered matches Some(addresses) && addresses@.len() > 0),
        r matches Ok(address) ==> discovered->0@.contains(address.ip) && address.port == 45_832,
{
    if let Some(addresses) = *discovered {
        if addresses@.len() > 0 {
            crate::net::lemma_preferred_ip_is_discovered(addresses@);
        }
    }
}

// The devices.

/// A device that was discovered becomes paired exactly where it speaks the version that
/// pulls offers and signed its answer.
pub proof fn lemma_discovered_devices(server: &ServerHello, signature_valid: bool, r: bool)
    requires
        call_ensures(accepts_discovered, (server, signature_valid), r),
    ensures
        r <==> server.protocol_version == 2 && pulls_offers(server.capabilities@)
            && signature_valid,
{
}

/// What changes the devices changes nothing else: a refresh takes the new ones and forgets
/// the selection, and a pairing takes the new ones and selects the new device.
pub proof fn lemma_devices_are_refreshed()
    ensures
        forall|c: &mut Controller, peers: Vec<PairedPeer>| #[trigger]
            call_ensures(Controller::refresh_discovery, (c, peers), ()) ==> final(c).peers == peers
                && final(c).checked && final(c).selected_device is None && final(c).reachable_peers
                == c.reachable_peers,
        forall|c: &mut Controller, peers: Vec<PairedPeer>, device: DeviceId| #[trigger]
            call_ensures(Controller::accept_discovered, (c, peers, device), ()) ==> final(c).peers
                == peers && final(c).selected_device == Some(device) && final(c).checked
                == c.checked && final(c).reachable_peers == c.reachable_peers,
        forall|c: &mut Controller, candidates: &Vec<ProbeAnswer>, r: Result<(), String>| #[trigger]
            call_ensures(Controller::refresh_reachability, (c, candidates), r) ==> (r is Ok
                <==> c.checked) && final(c).peers == c.peers && final(c).checked == c.checked
                && final(c).selected_device == c.selected_device,
{
}

/// Selecting a device: an identifier of a paired device selects it, and nothing but a paired
/// device is ever selected by its name; without a selector the first one is, unless one is
/// selected already.
pub proof fn lemma_devices_are_selected()
    ensures
        forall|c: &mut Controller, r: Result<(), String>| #[trigger]
            call_ensures(Controller::select_peer, (c, None), r) ==> r is Ok && (
            c.selected_device is Some ==> final(c).selected_device == c.selected_device) && (
            c.selected_device is None && c.peers@.len() > 0 ==> final(c).selected_device == Some(
                c.peers@[0].device_id,
            )) && final(c).peers == c.peers,
        forall|c: &mut Controller, text: &str, r: Result<(), String>| #[trigger]
            call_ensures(Controller::select_peer, (c, Some(text)), r) ==> (r is Err
                ==> final(c).selected_device == c.selected_device) && (r is Ok && !(parsed_uuid(
                text@,
            ) is Some && crate::controller::paired(c.peers@, DeviceId(parsed_uuid(text@)->0)))
                ==> exists|i: int|
                0 <= i < c.peers@.len() && crate::text::ascii_lower(
                    (#[trigger] c.peers@[i]).hostname@,
                ) == crate::text::ascii_lower(text@) && final(c).selected_device == Some(
                    c.peers@[i].device_id,
                )) && final(c).peers == c.peers,
{
    assert forall|c: &mut Controller, text: &str, r: Result<(), String>| #[trigger]
        call_ensures(Controller::select_peer, (c, Some(text)), r) && r is Ok && !(parsed_uuid(
            text@,
        ) is Some && crate::controller::paired(
            c.peers@,
            DeviceId(parsed_uuid(text@)->0),
        )) implies exists|i: int|
        0 <= i < c.peers@.len() && crate::text::ascii_lower((#[trigger] c.peers@[i]).hostname@)
            == crate::text::ascii_lower(text@) && final(c).selected_device == Some(
            c.peers@[i].device_id,
        ) by {
        let i = choose|i: int|
            #[trigger] crate::controller::named_at(c.peers@, text@, i)
                && final(c).selected_device == Some(c.peers@[i].device_id);
        assert(crate::controller::named_at(c.peers@, text@, i));
        assert(crate::text::ascii_lower(c.peers@[i].hostname@) == crate::text::ascii_lower(text@));
    }
}

/// A device that is not paired is not announced to.
pub proof fn lemma_devices_that_are_not_paired(
    peers: &Vec<PairedPeer>,
    device: DeviceId,
    offer_id: OfferId,
    r: Option<AnnounceTarget>,
)
    requires
        call_ensures(announce_target, (peers, device, offer_id), r),
        forall|k: int| 0 <= k < peers@.len() ==> (#[trigger] peers@[k]).device_id != device,
    ensures
        r is None,
{
    assert forall|k: int| !#[trigger] crate::report::peer_at(peers@, device, k) by {}
}

// Offers and plans.

/// An offer is planned for everyone exactly where it was stored.
pub proof fn lemma_stored_offers_are_planned(
    identity: DeviceId,
    offer_id: OfferId,
    peers: &Vec<PairedPeer>,
    descriptor: OfferDescriptor,
    at: u64,
    stored: Result<(), StoreError>,
    r: Result<OfferPlan, String>,
)
    requires
        call_ensures(plan_stored_offer, (identity, offer_id, peers, descriptor, at, stored), r),
    ensures
        r is Ok <==> stored is Ok,
        r matches Ok(plan) ==> plan.offer_id == offer_id && plan.descriptor@ == descriptor@
            && plan.announcements@.len() == peers@.len() && forall|i: int|
            0 <= i < peers@.len() ==> (#[trigger] plan.announcements@[i]).device_id
                == peers@[i].device_id && plan.announcements@[i].announcement.target_device
                == peers@[i].device_id && plan.announcements@[i].announcement.source_device
                == identity && plan.announcements@[i].announcement.offer_id == offer_id
                && plan.announcements@[i].announcement.created_at_unix_ms == at,
{
}

/// A shelf without a card of an offer has nothing to activate; from the only card of an
/// offer its activation is planned where the card allows it.
pub proof fn lemma_shelves_are_planned_from(
    cards: &Vec<OfferCardRecord>,
    offer_id: OfferId,
    mode: ActivationMode,
    destination: Result<SaveDestination, String>,
    drawn: ActivationId,
    r: Result<ActivationPlan, String>,
    i: int,
)
    requires
        call_ensures(plan_from_shelf, (cards, offer_id, mode, destination, drawn), r),
    ensures
        (forall|k: int| 0 <= k < cards@.len() ==> (#[trigger] cards@[k]).offer_id != offer_id)
            ==> r is Err,
        0 <= i < cards@.len() && cards@[i].offer_id == offer_id && (forall|k: int|
            0 <= k < i ==> (#[trigger] cards@[k]).offer_id != offer_id) ==> {
            let refused = mode is Save && cards@[i].descriptor@ is Text
                || cards@[i].availability is SourceChanged;
            &&& r is Ok <==> !refused && (mode is Save ==> destination is Ok)
            &&& r matches Ok(plan) ==> plan.source_device == cards@[i].source_device
                && plan.offer_id == offer_id && plan.mode == mode && plan.activation_id == drawn
                && plan.descriptor@ == cards@[i].descriptor@
        },
{
    crate::shelf_laws::lemma_activations_that_are_planned(
        r,
        cards@,
        offer_id,
        mode,
        destination,
        drawn,
        i,
    );
    if 0 <= i < cards@.len() {
        crate::shelf_laws::lemma_cards_that_are_refused(cards@[i], mode);
    }
}

/// A refusal is recorded exactly where the store took it.
pub proof fn lemma_recorded_refusals(
    reply: Result<OfferEligibilityUpdate, StoreError>,
    r: Result<(), String>,
)
    requires
        call_ensures(record_refusal, (reply,), r),
    ensures
        r is Ok <==> reply is Ok,
{
}

/// A row shows a card that can be activated exactly where nothing of it is under way and its
/// source has not changed.
pub proof fn lemma_shown_rows(
    names: &std::collections::HashMap<u128, String>,
    index: usize,
    record: &OfferCardRecord,
    progress: Option<String>,
    keyboard: Keyboard,
    r: ShelfRow,
)
    requires
        call_ensures(shelf_row, (names, index, record, progress, keyboard), r),
    ensures
        r@.can_activate <==> progress is None && !(record.availability is SourceChanged),
        r@.can_save <==> !(record.descriptor@ is Text),
        r@.offer_id == hyphenated(record.offer_id.0),
{
    lemma_rows_that_can_be_activated(
        names@,
        index as nat,
        *record,
        opt_view(progress),
        keyboard,
    );
}

/// A device may enrol exactly where its request is not too long, identifies it, and comes
/// from an address of the node that it names.
pub proof fn lemma_enrolments(
    bytes: usize,
    request: &EnrollmentRequest,
    signature_valid: bool,
    source: IpAddress,
    peers: &Vec<DiscoveredPeer>,
    r: Result<(), String>,
    i: int,
)
    requires
        call_ensures(check_enrollment, (bytes, request, signature_valid, Some(source), peers), r),
        first_peer_with(peers@, source, i),
    ensures
        r is Ok <==> {
            &&& bytes <= 65_536
            &&& !blank(request.node_id@)
            &&& request.addresses@.contains(source)
            &&& request.public_key@.len() == 32
            &&& signature_valid
            &&& opt_view(peers@[i].node_id) == Some(request.node_id@)
        },
{
}

/// A name selects a device exactly where a paired device has it, case left aside; an
/// identifier exactly where that device is paired.
pub proof fn lemma_names_that_select()
    ensures
        forall|c: &mut Controller, text: &str, r: Result<(), String>, i: int|
            #![trigger call_ensures(Controller::select_peer, (c, Some(text)), r), c.peers@[i]]
            call_ensures(Controller::select_peer, (c, Some(text)), r) && 0 <= i < c.peers@.len()
                && crate::text::ascii_lower(c.peers@[i].hostname@) == crate::text::ascii_lower(
                text@,
            ) ==> r is Ok,
        forall|c: &mut Controller, text: &str, r: Result<(), String>, id: DeviceId|
            #![trigger call_ensures(Controller::select_peer, (c, Some(text)), r),
                crate::controller::paired(c.peers@, id)]
            call_ensures(Controller::select_peer, (c, Some(text)), r) && parsed_uuid(text@) == Some(
                id.0,
            ) && crate::controller::paired(c.peers@, id) ==> r is Ok && final(c).selected_device
                == Some(id),
{
    assert forall|c: &mut Controller, text: &str, r: Result<(), String>, i: int|
        #![trigger call_ensures(Controller::select_peer, (c, Some(text)), r), c.peers@[i]]
        call_ensures(Controller::select_peer, (c, Some(text)), r) && 0 <= i < c.peers@.len()
            && crate::text::ascii_lower(c.peers@[i].hostname@) == crate::text::ascii_lower(
            text@,
        ) implies r is Ok by {
        let k = lemma_first_named(c.peers@, text@, i);
        assert(crate::controller::named_at(c.peers@, text@, k));
    }
}

proof fn lemma_first_named(peers: Seq<PairedPeer>, name: Seq<char>, i: int) -> (k: int)
    requires
        0 <= i < peers.len(),
        crate::text::ascii_lower(peers[i].hostname@) == crate::text::ascii_lower(name),
    ensures
        0 <= k <= i,
        crate::controller::named_at(peers, name, k),
    decreases i,
{
    if exists|j: int|
        0 <= j < i && crate::text::ascii_lower((#[trigger] peers[j]).hostname@)
            == crate::text::ascii_lower(name) {
        let j = choose|j: int|
            0 <= j < i && crate::text::ascii_lower((#[trigger] peers[j]).hostname@)
                == crate::text::ascii_lower(name);
        lemma_first_named(peers, name, j)
    } else {
        i
    }
}

/// After the devices were probed, those are reachable that answered, under the name that
/// they answered with last; where they were never looked for, none is.
pub proof fn lemma_devices_that_answered()
    ensures
        forall|c: &mut Controller, candidates: &Vec<ProbeAnswer>, r: Result<(), String>| #[trigger]
            call_ensures(Controller::refresh_reachability, (c, candidates), r) ==> (r is Ok
                ==> crate::controller::name_map(final(c).reachable_peers@)
                == crate::controller::answers(c.peers@, candidates@)) && (r is Err
                ==> crate::controller::name_map(final(c).reachable_peers@) == Map::<
                u128,
                Seq<char>,
            >::empty()),
{
}

/// The first word of a text is what stands between its first white space, if any, and the
/// next; a text without one is blank.
pub proof fn lemma_first_words(value: &str, r: Option<String>)
    requires
        call_ensures(first_word, (value,), r),
    ensures
        r is Some <==> !blank(value@),
        r matches Some(word) ==> word@.len() > 0 && (forall|i: int|
            0 <= i < word@.len() ==> !crate::text::whitespace(#[trigger] word@[i])) && exists|
            before: Seq<char>,
            after: Seq<char>,
        |
            #![trigger before + word@ + after]
            value@ == before + word@ + after && blank(before) && (after.len() > 0
                ==> crate::text::whitespace(after[0])),
{
    if let Some(word) = r {
        let (from, to) = choose|from: int, to: int|
            #[trigger] crate::bootstrap::word_at(value@, from, to) && word@ == value@.subrange(
                from,
                to,
            );
        let before = value@.subrange(0, from);
        let after = value@.subrange(to, value@.len() as int);
        assert(value@ =~= before + word@ + after);
        assert forall|i: int| 0 <= i < before.len() implies crate::text::whitespace(
            #[trigger] before[i],
        ) by {
            assert(before[i] == value@[i]);
        }
        assert forall|i: int| 0 <= i < word@.len() implies !crate::text::whitespace(
            #[trigger] word@[i],
        ) by {
            assert(word@[i] == value@[from + i]);
        }
        if after.len() > 0 {
            assert(after[0] == value@[to]);
        }
    }
}

/// An activation that may start takes its place among those that run, with its own handle,
/// and leaves the others as they are; one that may not changes nothing.
pub proof fn lemma_activations_take_their_place<H>(
    plan: &ActivationPlan,
    cancel: H,
    available: bool,
    device: DeviceId,
    peer: &Option<PairedPeer>,
    destination: Result<HostPath, String>,
)
    ensures
        forall|
            g: &mut ActivationGate,
            a: &mut ActiveActivations<H>,
            r: Result<(ActivationPermit, ActivationInput), String>,
        | #[trigger]
            call_ensures(
                start_activation::<H>,
                (g, a, plan, cancel, available, device, peer, destination),
                r,
            ) ==> (r is Err ==> final(g).running() == g.running() && final(a).offers@ == a.offers@)
                && (r is Ok ==> final(g).running() == g.running() + 1 && !a.offers@.dom().contains(
                plan.offer_id.0,
            ) && final(a).offers@.dom() == a.offers@.dom().insert(plan.offer_id.0) && final(a)
                .offers@[plan.offer_id.0].cancel == cancel && g.running() < 2),
{
    assert forall|
        g: &mut ActivationGate,
        a: &mut ActiveActivations<H>,
        r: Result<(ActivationPermit, ActivationInput), String>,
    | #[trigger]
        call_ensures(
            start_activation::<H>,
            (g, a, plan, cancel, available, device, peer, destination),
            r,
        ) && r is Ok implies g.running() < 2 && !a.offers@.dom().contains(plan.offer_id.0) by {
        lemma_activations_that_start_here(
            a.offers@.dom(),
            g.running(),
            *plan,
            available,
            *peer,
            destination,
        );
    }
}

} // verus!
