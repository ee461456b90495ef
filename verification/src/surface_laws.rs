//! What the command line, the window and the local channel show and start.
use vstd::prelude::*;

use crate::cli::{
    activate_error, announce_after, announce_from, card_text, kind_word, named_command,
    peer_selection, send_source, unknown_option, AnnounceSource, AnnounceStep, SendSource,
};
use crate::controller::{
    answered_names, answers, names_text, paired, pairs_with, peer_status, shown_name, shown_names,
    PairedPeer, ProbeAnswer,
};
use crate::coordinator::{ActivationPlan, OfferPlan};
use crate::desktop::{hostnames, input_error, row_of, start_refusal, Keyboard};
use crate::ids::{hyphenated, parsed_uuid, DeviceId};
use crate::local_control::{
    dispatch_next, DispatchEvent, DispatchStep, LocalResponse, MAX_SERIALIZED_TEXT_REQUEST_BYTES,
};
use crate::offer::DescriptorView;
use crate::offer_source::OfferInput;
use crate::order::joined;
use crate::path::HostPath;
use crate::settings::UserSettings;
use crate::store::OfferCardRecord;
use crate::text::decimal;
use crate::trust::{pulls_offers, ServerHello};

verus! {

/// Each command has its names, and no other text is a command.
pub proof fn lemma_commands(name: Seq<char>)
    ensures
        named_command(name) is Serve <==> name == "serve"@,
        named_command(name) is Announce <==> name == "announce"@,
        named_command(name) is Shelf <==> name == "shelf"@,
        named_command(name) is Activate <==> name == "activate"@,
        named_command(name) is Status <==> name == "status"@ || name == "refresh"@,
        named_command(name) is ClipboardRead <==> name == "clipboard-read"@ || name
            == "paste-clipboard"@,
        named_command(name) is Send <==> name == "send"@,
{
    reveal_strlit("serve");
    reveal_strlit("announce");
    reveal_strlit("shelf");
    reveal_strlit("activate");
    reveal_strlit("status");
    reveal_strlit("refresh");
    reveal_strlit("clipboard-read");
    reveal_strlit("paste-clipboard");
    reveal_strlit("send");
    assert("serve"@.len() == 5 && "shelf"@.len() == 5);
    assert("announce"@.len() == 8 && "activate"@.len() == 8);
    assert("status"@.len() == 6 && "refresh"@.len() == 7 && "send"@.len() == 4);
    assert("clipboard-read"@.len() == 14 && "paste-clipboard"@.len() == 15);
    assert("serve"@[1] == 'e' && "shelf"@[1] == 'h');
    assert("announce"@[0] == 'a' && "activate"@[0] == 'a' && "announce"@[1] == 'n');
    assert("activate"@[1] == 'c');
}

proof fn lemma_no_selector(args: Seq<Seq<char>>)
    requires
        !args.contains("--peer"@),
    ensures
        peer_selection(args) == Some((None::<Seq<char>>, args)),
    decreases args.len(),
{
    if args.len() == 0 {
        assert(args =~= Seq::<Seq<char>>::empty());
    } else {
        let rest = args.skip(1);
        assert(args.contains(args[0]));
        if rest.contains("--peer"@) {
            let i = choose|i: int| 0 <= i < rest.len() && rest[i] == "--peer"@;
            assert(args[i + 1] == "--peer"@);
        }
        lemma_no_selector(rest);
        assert(seq![args[0]] + rest =~= args);
    }
}

/// Options without a selector are kept as they are.  A selector and its value are taken
/// out, wherever they stand, and the others keep their order; a selector without a value
/// is refused.
pub proof fn lemma_peer_selectors(before: Seq<Seq<char>>, value: Seq<char>, after: Seq<Seq<char>>)
    requires
        !before.contains("--peer"@),
        !after.contains("--peer"@),
    ensures
        peer_selection(before) == Some((None::<Seq<char>>, before)),
        peer_selection(before + seq!["--peer"@, value] + after) == Some(
            (Some(value), before + after),
        ),
        peer_selection(before + seq!["--peer"@]) is None,
    decreases before.len(),
{
    lemma_no_selector(before);
    let all = before + seq!["--peer"@, value] + after;
    let cut = before + seq!["--peer"@];
    if before.len() == 0 {
        assert(all[0] == "--peer"@ && all[1] == value);
        assert(all.skip(2) =~= after);
        lemma_no_selector(after);
        assert(before + after =~= after);
        assert(cut[0] == "--peer"@ && cut.len() == 1);
    } else {
        let rest = before.skip(1);
        assert(before.contains(before[0]));
        if rest.contains("--peer"@) {
            let i = choose|i: int| 0 <= i < rest.len() && rest[i] == "--peer"@;
            assert(before[i + 1] == "--peer"@);
        }
        lemma_peer_selectors(rest, value, after);
        assert(all.skip(1) =~= rest + seq!["--peer"@, value] + after);
        assert(cut.skip(1) =~= rest + seq!["--peer"@]);
        assert(seq![before[0]] + (rest + after) =~= before + after);
        assert(all[0] == before[0]);
        assert(cut[0] == before[0]);
    }
}

proof fn lemma_option_words()
    ensures
        "--clipboard"@ != "--stdin"@,
        "--clipboard"@ != "--text"@,
        "--clipboard"@ != "--path"@,
        "--stdin"@ != "--text"@,
        "--stdin"@ != "--path"@,
        "--text"@ != "--path"@,
{
    reveal_strlit("--clipboard");
    reveal_strlit("--stdin");
    reveal_strlit("--text");
    reveal_strlit("--path");
    assert("--text"@[2] == 't' && "--path"@[2] == 'p');
    assert("--stdin"@.len() == 7 && "--text"@.len() == 6 && "--path"@.len() == 6);
}

proof fn lemma_no_second_source(args: Seq<Seq<char>>, chosen: SendSource<Seq<char>>)
    ensures
        args.len() == 0 ==> send_source(args, Some(chosen)) == Ok::<_, Seq<char>>(chosen),
        args.len() > 0 ==> send_source(args, Some(chosen)) is Err,
{
}

/// Something is sent exactly where one source is named and nothing else: the clipboard,
/// the standard input, or a text.
pub proof fn lemma_sources_of_a_send(args: Seq<Seq<char>>)
    ensures
        send_source(args, None) == Ok::<SendSource<Seq<char>>, Seq<char>>(SendSource::Clipboard)
            <==> args == seq!["--clipboard"@],
        send_source(args, None) == Ok::<SendSource<Seq<char>>, Seq<char>>(SendSource::Stdin)
            <==> args == seq!["--stdin"@],
        send_source(args, None) matches Ok(SendSource::Text(text)) ==> args == seq!["--text"@, text],
        args.len() == 2 && args[0] == "--text"@ ==> send_source(args, None) == Ok::<_, Seq<char>>(
            SendSource::Text(args[1]),
        ),
{
    lemma_option_words();
    if args.len() > 0 {
        lemma_no_second_source(args.skip(1), SendSource::Clipboard);
        lemma_no_second_source(args.skip(1), SendSource::Stdin);
        if args.len() > 1 {
            lemma_no_second_source(args.skip(2), SendSource::Text(args[1]));
        }
        assert(args.len() == 1 ==> args =~= seq![args[0]]);
        assert(args.len() == 2 ==> args =~= seq![args[0], args[1]]);
        assert(args.skip(1).len() == args.len() - 1);
    }
    assert(seq!["--clipboard"@][0] == "--clipboard"@);
    assert(seq!["--stdin"@][0] == "--stdin"@);
}

/// Something is announced exactly where one source is named and nothing else.  A text or
/// a path is announced as it was given; for the clipboard and for the standard input
/// something is read first, and no second source may follow.
pub proof fn lemma_sources_of_an_announcement(args: Seq<Seq<char>>, read: AnnounceSource<Seq<char>>)
    ensures
        args.len() == 0 ==> announce_from(args, 0, None) is Fail,
        args.len() == 2 && args[0] == "--text"@ ==> announce_from(args, 0, None)
            == AnnounceStep::Announce(AnnounceSource::Text(args[1])),
        args.len() == 2 && args[0] == "--path"@ ==> announce_from(args, 0, None)
            == AnnounceStep::Announce(AnnounceSource::Path(args[1])),
        announce_from(args, 0, None) is Announce ==> args.len() == 2 && (args[0] == "--text"@
            || args[0] == "--path"@),
        args.len() > 0 && args[0] == "--clipboard"@ ==> announce_from(args, 0, None) == (
        AnnounceStep::ReadClipboard { next: 1, chosen: None::<AnnounceSource<Seq<char>>> }),
        args.len() > 0 && args[0] == "--stdin"@ ==> announce_from(args, 0, None) == (
        AnnounceStep::ReadStdin { next: 1, chosen: None::<AnnounceSource<Seq<char>>> }),
        args.len() == 1 ==> announce_after(args, 1, None, read) == AnnounceStep::Announce(read),
        announce_after(args, 0, Some(read), read) is Fail,
{
    lemma_option_words();
    reveal_with_fuel(announce_from, 3);
}

proof fn lemma_only_save(args: Seq<Seq<char>>, i: int)
    requires
        0 <= i,
    ensures
        unknown_option(args, i) is None <==> forall|k: int|
            i <= k < args.len() ==> #[trigger] args[k] == "--save"@,
    decreases args.len() - i,
{
    if i < args.len() {
        lemma_only_save(args, i + 1);
        if args[i] != "--save"@ {
            assert(!(args[i] == "--save"@));
        }
    }
}

/// An offer is activated exactly where its identifier comes first, and nothing but the
/// option to save follows.
pub proof fn lemma_activations_that_are_asked_for(args: Seq<Seq<char>>)
    ensures
        activate_error(args) is None <==> {
            &&& args.len() > 0
            &&& parsed_uuid(args[0]) is Some
            &&& forall|k: int| 1 <= k < args.len() ==> #[trigger] args[k] == "--save"@
        },
{
    lemma_only_save(args, 1);
}

/// A card is listed by its offer, its origin and its kind, with tabs between them.
pub proof fn lemma_listed_cards(card: OfferCardRecord)
    ensures
        card_text(card) == hyphenated(card.offer_id.0) + "\t"@ + hyphenated(card.source_device.0)
            + "\t"@ + kind_word(card.descriptor@),
        kind_word(card.descriptor@) == (if card.descriptor@ is Text {
            "text"@
        } else if card.descriptor@ is File {
            "file"@
        } else {
            "folder"@
        }),
{
}

// The devices.

/// The name under which a paired device answered last is the one that counts; one that is
/// not paired, or did not answer, has none.
pub proof fn lemma_answers_of_devices(
    peers: Seq<PairedPeer>,
    candidates: Seq<ProbeAnswer>,
    device: DeviceId,
    i: int,
)
    ensures
        !paired(peers, device) ==> !answers(peers, candidates).dom().contains(device.0),
        paired(peers, device) && 0 <= i < candidates.len() && candidates[i].device_id == device && (
        forall|k: int| i < k < candidates.len() ==> (#[trigger] candidates[k]).device_id != device)
            ==> answers(peers, candidates).dom().contains(device.0) && answers(
            peers,
            candidates,
        )[device.0] == candidates[i].hostname@,
    decreases candidates.len(),
{
    crate::controller::lemma_only_paired_devices_are_reachable(peers, candidates, device);
    if candidates.len() > 0 {
        let before = candidates.drop_last();
        let n = candidates.len() - 1;
        lemma_answers_of_devices(peers, before, device, i);
        if paired(peers, device) && 0 <= i < n && candidates[i].device_id == device && (forall|
            k: int,
        |
            i < k < candidates.len() ==> (#[trigger] candidates[k]).device_id != device) {
            assert(before[i] == candidates[i]);
            assert forall|k: int| i < k < before.len() implies (
            #[trigger] before[k]).device_id != device by {
                assert(before[k] == candidates[k]);
            }
            assert(candidates[n].device_id != device);
        }
    }
}

/// Every paired device that answered is among the names, and there are as many names as
/// such devices.
pub proof fn lemma_reachable_devices_are_named(
    peers: Seq<PairedPeer>,
    reachable: Map<u128, String>,
    i: int,
)
    ensures
        0 <= i < peers.len() && reachable.dom().contains(peers[i].device_id.0) ==> answered_names(
            peers,
            reachable,
        ).contains(reachable[peers[i].device_id.0]@),
        answered_names(peers, reachable).len() == how_many_answered(peers, reachable),
        shown_names(peers, reachable).to_multiset() == answered_names(
            peers,
            reachable,
        ).to_multiset(),
    decreases peers.len(),
{
    crate::order::lemma_sorting_keeps_texts(answered_names(peers, reachable), true);
    if peers.len() > 0 {
        let before = peers.drop_last();
        lemma_reachable_devices_are_named(before, reachable, i);
        let all = answered_names(peers, reachable);
        if 0 <= i < peers.len() && reachable.dom().contains(peers[i].device_id.0) {
            if i < before.len() {
                assert(before[i] == peers[i]);
                let name = reachable[peers[i].device_id.0]@;
                let names = answered_names(before, reachable);
                let k = choose|k: int| 0 <= k < names.len() && names[k] == name;
                assert(all[k] == name);
            } else {
                assert(all[all.len() - 1] == reachable[peers[i].device_id.0]@);
            }
        }
    }
}

/// How many of some devices answered.
pub open spec fn how_many_answered(peers: Seq<PairedPeer>, reachable: Map<u128, String>) -> nat
    decreases peers.len(),
{
    if peers.len() == 0 {
        0
    } else {
        how_many_answered(peers.drop_last(), reachable) + if reachable.dom().contains(
            peers.last().device_id.0,
        ) {
            1nat
        } else {
            0nat
        }
    }
}

/// The status tells whether devices were looked for, whether any is paired, and how many
/// answered; the name is that of the selected device where it answered.
pub proof fn lemma_status_of_devices(
    paired_count: nat,
    reachable_count: nat,
    selected: DeviceId,
    reachable: Map<u128, String>,
    names: Seq<Seq<char>>,
)
    ensures
        peer_status(false, paired_count, reachable_count)
            == "Reachability not checked yet · refresh to find meshelf devices"@,
        peer_status(true, 0, 0) == "No paired meshelf devices · refresh to discover devices"@,
        paired_count > 0 ==> peer_status(true, paired_count, 0)
            == "No paired meshelf devices are reachable · refresh to retry"@,
        peer_status(true, paired_count, 1) == "1 device reachable · paste text or copied files"@,
        reachable_count > 1 ==> peer_status(true, paired_count, reachable_count) == decimal(
            reachable_count,
        ) + " devices reachable · paste text or copied files"@,
        reachable.dom().contains(selected.0) ==> shown_name(Some(selected), reachable, names)
            == reachable[selected.0]@,
        !reachable.dom().contains(selected.0) && names.len() > 0 ==> shown_name(
            Some(selected),
            reachable,
            names,
        ) == names[0],
        names.len() > 0 ==> shown_name(None, reachable, names) == names[0],
        names.len() == 0 ==> shown_name(None, reachable, names) == "Not configured"@,
        names.len() > 0 ==> names_text(true, names) == joined(names, "\n"@) && names_text(
            false,
            names,
        ) == joined(names, "\n"@),
        names.len() == 0 ==> names_text(true, names) == "No meshelf devices are reachable"@
            && names_text(false, names) == "Reachability not checked yet"@,
{
}

/// A server that was discovered is paired with exactly where it speaks version 2, pulls
/// offers and signed its answer.
pub proof fn lemma_servers_that_are_paired_with(server: ServerHello, signature_valid: bool)
    ensures
        pairs_with(server, signature_valid) <==> server.protocol_version == 2 && pulls_offers(
            server.capabilities@,
        ) && signature_valid,
{
}

/// A device has the hostname of its last entry among the peers.
pub proof fn lemma_hostnames_of_devices(peers: Seq<PairedPeer>, i: int)
    requires
        0 <= i < peers.len(),
        forall|k: int|
            i < k < peers.len() ==> (#[trigger] peers[k]).device_id != peers[i].device_id,
    ensures
        hostnames(peers).dom().contains(peers[i].device_id.0),
        hostnames(peers)[peers[i].device_id.0] == peers[i].hostname@,
    decreases peers.len(),
{
    let before = peers.drop_last();
    let n = peers.len() - 1;
    if i < n {
        assert(peers[n].device_id != peers[i].device_id);
        assert(before[i] == peers[i]);
        assert forall|k: int| i < k < before.len() implies (#[trigger] before[k]).device_id
            != before[i].device_id by {
            assert(before[k] == peers[k]);
        }
        lemma_hostnames_of_devices(before, i);
    }
}

// The shelf.

/// A row shows its offer: its identifier, where it comes from, its kind, its size in
/// bytes, and of a text the preview, of a file or folder the name, and of a folder what
/// it holds.
pub proof fn lemma_rows_show_their_offers(
    names: Map<u128, String>,
    index: nat,
    record: OfferCardRecord,
    progress: Option<Seq<char>>,
    keyboard: Keyboard,
)
    ensures
        ({
            let row = row_of(names, index, record, progress, keyboard);
            let nothing = Seq::<char>::empty();
            &&& row.offer_id == hyphenated(record.offer_id.0)
            &&& names.dom().contains(record.source_device.0) ==> row.origin_device
                == names[record.source_device.0]@
            &&& !names.dom().contains(record.source_device.0) ==> row.origin_device == hyphenated(
                record.source_device.0,
            )
            &&& row.detail == "From "@ + row.origin_device
            &&& match record.descriptor@ {
                DescriptorView::Text { utf8_bytes, preview, .. } => {
                    &&& row.kind == "Text"@ && row.icon == "📝"@
                    &&& row.size == decimal(utf8_bytes as nat) + " bytes"@
                    &&& row.preview == preview && row.name == nothing && row.counts == nothing
                },
                DescriptorView::File { root_name, total_bytes } => {
                    &&& row.kind == "File"@ && row.icon == "📄"@
                    &&& row.size == decimal(total_bytes as nat) + " bytes"@
                    &&& row.preview == nothing && row.name == root_name && row.counts == nothing
                },
                DescriptorView::Folder {
                    root_name,
                    total_bytes,
                    entry_count,
                    file_count,
                    directory_count,
                } => {
                    &&& row.kind == "Folder"@ && row.icon == "📁"@
                    &&& row.size == decimal(total_bytes as nat) + " bytes"@
                    &&& row.preview == nothing && row.name == root_name
                    &&& row.counts == decimal(entry_count as nat) + " entries · "@ + decimal(
                        file_count as nat,
                    ) + " files · "@ + decimal(directory_count as nat) + " folders"@
                },
            }
        }),
{
}

/// A row can be activated exactly where nothing of it is under way and its source has not
/// changed; a text cannot be saved.  The first five rows have keys, numbered from one.
pub proof fn lemma_rows_that_can_be_activated(
    names: Map<u128, String>,
    index: nat,
    record: OfferCardRecord,
    progress: Option<Seq<char>>,
    keyboard: Keyboard,
)
    ensures
        ({
            let row = row_of(names, index, record, progress, keyboard);
            &&& row.can_activate <==> progress is None && !(record.availability is SourceChanged)
            &&& row.can_save <==> !(record.descriptor@ is Text)
            &&& row.active <==> progress is Some
            &&& progress matches Some(text) ==> row.progress == text
            &&& progress is None ==> row.progress.len() == 0
            &&& record.availability is Available ==> row.availability == "available"@
            &&& record.availability is SourceUnavailable ==> row.availability
                == "source unavailable"@
            &&& record.availability is SourceChanged ==> row.availability == "source changed"@
            &&& index < 5 && keyboard is Other ==> row.shortcut == "Ctrl+"@ + decimal(index + 1)
                && row.save_shortcut == "Alt+"@ + decimal(index + 1)
            &&& index < 5 && keyboard is Mac ==> row.shortcut == "⌘"@ + decimal(index + 1)
                && row.save_shortcut == "⌥"@ + decimal(index + 1)
            &&& index >= 5 ==> row.shortcut == "click"@ && row.save_shortcut == "save"@
        }),
{
}

/// An activation starts exactly where its offer is not activating already, fewer than two
/// are running, the clipboard is there where it is needed, its origin is paired and has an
/// address, and where it is saved, there is a place for it.
pub proof fn lemma_activations_that_start_here(
    active: Set<u128>,
    running: nat,
    plan: ActivationPlan,
    clipboard_available: bool,
    peer: Option<PairedPeer>,
    destination: Result<HostPath, String>,
)
    ensures
        start_refusal(active, running, plan, clipboard_available, peer, destination) is None <==> {
            &&& !active.contains(plan.offer_id.0)
            &&& running < 2
            &&& plan.mode is Clipboard ==> clipboard_available
            &&& peer matches Some(origin) && origin.addresses@.len() > 0
            &&& plan.mode is Save ==> plan.destination is Some && destination is Ok
        },
        input_error(plan, peer, destination) is None <==> {
            &&& peer matches Some(origin) && origin.addresses@.len() > 0
            &&& plan.mode is Save ==> plan.destination is Some && destination is Ok
        },
{
    if let Some(origin) = peer {
        if origin.addresses@.len() > 0 {
            crate::net::lemma_preferred_ip_is_discovered(origin.addresses@);
        }
    }
}

// The local channel.

/// An offer that was stored is announced, and answered with what was announced; one that
/// was not, or could not be announced, is answered with the error, and without a paired
/// device it is answered that there is none.
pub proof fn lemma_requests_to_offer(input: OfferInput, plan: OfferPlan, error: String)
    ensures
        ({
            let create = DispatchStep::CreateOffer(input);
            let announce = DispatchStep::Announce(plan);
            let failed = DispatchStep::Respond(LocalResponse::Error { message: error });
            &&& dispatch_next(create, DispatchEvent::OfferCreated(Ok(Some(plan)))) == announce
            &&& dispatch_next(create, DispatchEvent::OfferCreated(Ok(None)))
                == DispatchStep::Respond(LocalResponse::NoPeers)
            &&& dispatch_next(create, DispatchEvent::OfferCreated(Err(error))) == failed
            &&& dispatch_next(announce, DispatchEvent::Done(Ok(()))) matches DispatchStep::Respond(
                LocalResponse::OfferCreated { offer_id, descriptor, announcements },
            ) && offer_id == plan.offer_id && descriptor == plan.descriptor && announcements
                == plan.announcements
            &&& dispatch_next(announce, DispatchEvent::Done(Err(error))) == failed
        }),
{
}

/// An activation that was planned is carried out, and answered as started; one that was
/// refused, or failed, is answered as refused.
pub proof fn lemma_requests_to_activate(step: DispatchStep, plan: ActivationPlan, error: String)
    requires
        step is PlanActivation,
    ensures
        ({
            let refused = DispatchStep::Respond(
                LocalResponse::ActivationRefused { message: error },
            );
            let activate = DispatchStep::Activate(plan);
            &&& dispatch_next(step, DispatchEvent::Planned(Ok(plan))) == activate
            &&& dispatch_next(step, DispatchEvent::Planned(Err(error))) == refused
            &&& dispatch_next(activate, DispatchEvent::Done(Ok(()))) == DispatchStep::Respond(
                LocalResponse::ActivationStarted {
                    activation_id: plan.activation_id,
                    offer_id: plan.offer_id,
                    mode: plan.mode,
                },
            )
            &&& dispatch_next(activate, DispatchEvent::Done(Err(error))) == refused
        }),
{
}

/// The shelf, the settings and a refusal are answered with what came back.
pub proof fn lemma_requests_to_read(
    step: DispatchStep,
    cards: Vec<OfferCardRecord>,
    settings: UserSettings,
    error: String,
)
    ensures
        ({
            let failed = DispatchStep::Respond(LocalResponse::Error { message: error });
            &&& step is ReadShelf ==> dispatch_next(step, DispatchEvent::Shelf(Ok(cards)))
                == DispatchStep::Respond(LocalResponse::Shelf { offers: cards }) && dispatch_next(
                step,
                DispatchEvent::Shelf(Err(error)),
            ) == failed
            &&& step is LoadSettings || step is StoreSettings ==> dispatch_next(
                step,
                DispatchEvent::Settings(Ok(settings)),
            ) == DispatchStep::Respond(LocalResponse::Settings { settings }) && dispatch_next(
                step,
                DispatchEvent::Settings(Err(error)),
            ) == failed
            &&& step is RecordRefusal ==> dispatch_next(step, DispatchEvent::Done(Ok(())))
                == DispatchStep::Respond(LocalResponse::RefusalRecorded) && dispatch_next(
                step,
                DispatchEvent::Done(Err(error)),
            ) == failed
            &&& MAX_SERIALIZED_TEXT_REQUEST_BYTES == 6_307_840
        }),
{
}

} // verus!
