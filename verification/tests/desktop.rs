use std::cell::{Cell, RefCell};
use std::collections::HashMap;

use meshelf::activation::ActivationMode;
use meshelf::controller::{PairedPeer, PeerView, MESHELF_PORT};
use meshelf::coordinator::{ActivationPlan, OfferPlan};
use meshelf::desktop::{
    apply_peer_view, apply_refresh_error, authorize_paired, build_activation_input,
    capture_peer_names, check_clipboard_item, clipboard_for_activation, create_and_announce,
    destination_label, item_shortcut, listener_address, parse_mode, paste_shortcut,
    pulling_status, refresh_shortcut, save_shortcut, sent_status, shelf_row, shelf_rows,
    shelf_shortcut_help, start_activation, ActivationGate, ActiveActivation, ActiveActivations,
    ClipboardItem,
    DiscoveryEventLoop, DiscoveryRefreshTrigger, Keyboard, OperationGate, PeerLookup, PeerPanel,
    ShelfRow,
};
use meshelf::ids::{ActivationId, DeviceId, OfferId};
use meshelf::net::{select_discovered_ip, select_discovered_socket, IpAddress};
use meshelf::offer::{CardAvailability, OfferDescriptor, MAX_OFFER_PREVIEW_BYTES};
use meshelf::path::HostPath;
use meshelf::settings::SaveDestination;
use meshelf::store::OfferCardRecord;
use meshelf::trust::{ClientHello, TrustDecision};
use tokio::sync::watch;

#[test]
fn mixed_family_peer_selects_listener_family_for_bind_and_activation() {
    // ::1 and 127.0.0.1
    let ipv6 = IpAddress::V6(1);
    let ipv4 = IpAddress::V4(u32::from_be_bytes([127, 0, 0, 1]));
    let addresses = vec![ipv6, ipv4];
    let bind = select_discovered_ip(&addresses).expect("bind");
    let dial = select_discovered_socket(&addresses, MESHELF_PORT).expect("dial");
    assert_eq!(bind, ipv4);
    assert_eq!(dial.ip, bind);
}

#[test]
fn operation_gate_allows_only_one_in_flight_operation() {
    let mut gate = OperationGate::default();
    let first = gate.try_enter().expect("first operation starts");
    assert!(gate.try_enter().is_none());
    gate.leave(first);
    assert!(gate.try_enter().is_some());
}

#[test]
fn third_activation_shows_busy_and_queues_nothing() {
    let mut gate = ActivationGate::default();
    let first = gate.try_enter().expect("first activation starts");
    let second = gate.try_enter().expect("second activation starts");
    assert!(gate.try_enter().is_none());
    gate.leave(first);
    gate.leave(second);
    assert!(gate.try_enter().is_some());
}

#[test]
fn discovery_has_no_repeating_timer() {
    let refreshes = Cell::new(0);
    assert!(DiscoveryEventLoop.dispatch(DiscoveryRefreshTrigger::Launch, || {
        refreshes.set(refreshes.get() + 1);
        true
    }));
    let start = std::time::Instant::now();
    while start.elapsed() < std::time::Duration::from_millis(10) {}
    assert_eq!(refreshes.get(), 1);
}

#[test]
fn launch_refreshes_reachability_once() {
    let refreshes = Cell::new(0);
    assert!(DiscoveryEventLoop.dispatch(DiscoveryRefreshTrigger::Launch, || {
        refreshes.set(refreshes.get() + 1);
        true
    }));
    assert_eq!(refreshes.get(), 1);
}

#[test]
fn explicit_refresh_updates_reachability() {
    let reachability = RefCell::new("stale".to_owned());
    assert!(DiscoveryEventLoop.dispatch(DiscoveryRefreshTrigger::Explicit, || {
        *reachability.borrow_mut() = "BZOT".to_owned();
        true
    }));
    assert_eq!(*reachability.borrow(), "BZOT");
}

#[test]
fn user_operation_refreshes_reachability_before_acting() {
    let order = RefCell::new(Vec::new());
    assert!(DiscoveryEventLoop.dispatch(DiscoveryRefreshTrigger::BeforeUserOperation, || {
        order.borrow_mut().push("refresh");
        true
    }));
    order.borrow_mut().push("act");
    assert_eq!(*order.borrow(), ["refresh", "act"]);
}

fn test_panel() -> PeerPanel {
    PeerPanel {
        default_peer: String::new(),
        default_peer_online: false,
        status_text: String::new(),
        reachable_names: String::new(),
    }
}

#[test]
fn generated_ui_status_tooltip_uses_reachable_list() {
    let mut panel = test_panel();
    apply_peer_view(
        &mut panel,
        PeerView {
            name: "BZOT".to_owned(),
            online: true,
            status: "2 devices reachable · paste text or copied files".to_owned(),
            reachable_names: "BMBA\nBZOT".to_owned(),
        },
    );

    assert_eq!(panel.reachable_names, "BMBA\nBZOT");
    assert_eq!(panel.default_peer, "BZOT");
    assert!(panel.default_peer_online);
}

#[test]
fn failed_refresh_does_not_leave_stale_reachable_names() {
    let mut panel = test_panel();
    apply_peer_view(
        &mut panel,
        PeerView {
            name: "BZOT".to_owned(),
            online: true,
            status: "1 device reachable · paste text or copied files".to_owned(),
            reachable_names: "BZOT".to_owned(),
        },
    );

    apply_refresh_error(&mut panel, "Refresh failed".to_owned());

    assert_eq!(panel.reachable_names, "Reachability unavailable");
    assert_eq!(panel.status_text, "Refresh failed");
    assert_eq!(panel.default_peer, "BZOT");
}

fn test_card(descriptor: OfferDescriptor, availability: CardAvailability) -> OfferCardRecord {
    OfferCardRecord {
        source_device: DeviceId::new(),
        offer_id: OfferId::new(),
        descriptor,
        received_sequence: 1,
        availability,
        last_attempt: None,
    }
}

fn production_row(record: OfferCardRecord, progress: Option<String>) -> ShelfRow {
    shelf_row(&HashMap::new(), 0, &record, progress, Keyboard::Other)
}

fn row_text(row: &ShelfRow) -> String {
    [
        row.icon.as_str(),
        row.offer_id.as_str(),
        row.kind.as_str(),
        row.origin_device.as_str(),
        row.name.as_str(),
        row.size.as_str(),
        row.preview.as_str(),
        row.counts.as_str(),
        row.availability.as_str(),
        row.progress.as_str(),
        row.detail.as_str(),
        row.shortcut.as_str(),
        row.save_shortcut.as_str(),
    ]
    .join(" ")
}

#[test]
fn text_shelf_row_contains_preview_but_not_the_full_text() {
    let full_text = format!("unique-full-text-{}", "x".repeat(400));
    let descriptor = OfferDescriptor::text(&full_text).expect("descriptor");
    let expected_preview = match &descriptor {
        OfferDescriptor::Text { preview, .. } => preview.clone(),
        _ => unreachable!(),
    };
    let row = production_row(test_card(descriptor, CardAvailability::Available), None);
    assert_eq!(row.preview.as_str(), expected_preview);
    assert!(row.preview.len() <= MAX_OFFER_PREVIEW_BYTES);
    assert!(row.preview.len() < full_text.len());
    assert!(!row_text(&row).contains(&full_text));
}

fn report_file() -> OfferDescriptor {
    OfferDescriptor::File { root_name: "report.txt".to_owned(), total_bytes: 42 }
}

fn hello_text() -> OfferDescriptor {
    OfferDescriptor::Text { utf8_bytes: 5, line_count: 1, preview: "hello".to_owned() }
}

#[test]
fn file_shelf_row_contains_no_receiver_path_before_activation() {
    let row = production_row(test_card(report_file(), CardAvailability::Available), None);
    let row_text = row_text(&row);
    assert!(row_text.contains("report.txt"));
    assert!(!row_text.contains('/'));
    assert!(!row_text.contains('\\'));
    assert_eq!(row.kind.as_str(), "File");
    assert!(row.can_save);
}

#[test]
fn alternate_activation_is_refused_while_that_offer_is_active() {
    let card = test_card(report_file(), CardAvailability::Available);
    let row = production_row(card, Some("Pulling…".to_owned()));
    assert!(row.can_save);
    assert!(!row.can_activate);
    assert!(row.active);
    assert_eq!(row.progress, "Pulling…");
}

#[test]
fn source_changed_status_disables_the_card() {
    let row = production_row(test_card(report_file(), CardAvailability::SourceChanged), None);
    assert_eq!(row.availability.as_str(), "source changed");
    assert!(!row.can_activate);
}

#[test]
fn offline_status_keeps_manual_retry_available() {
    let row = production_row(test_card(hello_text(), CardAvailability::SourceUnavailable), None);
    assert!(row.can_activate);
    assert_eq!(row.availability.as_str(), "source unavailable");
}

#[test]
fn a_folder_row_names_its_counts() {
    let card = test_card(
        OfferDescriptor::Folder {
            root_name: "bundle".to_owned(),
            total_bytes: 10,
            entry_count: 3,
            file_count: 2,
            directory_count: 1,
        },
        CardAvailability::Available,
    );
    let source = card.source_device;
    let offer = card.offer_id;
    let names = HashMap::from([(source.0, "BZOT".to_owned())]);
    let row = shelf_row(&names, 4, &card, None, Keyboard::Mac);
    assert_eq!(row.icon, "📁");
    assert_eq!(row.kind, "Folder");
    assert_eq!(row.name, "bundle");
    assert_eq!(row.size, "10 bytes");
    assert_eq!(row.counts, "3 entries · 2 files · 1 folders");
    assert_eq!(row.origin_device, "BZOT");
    assert_eq!(row.detail, "From BZOT");
    assert_eq!(row.offer_id, offer.text());
    assert_eq!(row.shortcut, "⌘5");
    assert_eq!(row.save_shortcut, "⌥5");
    let later = shelf_row(&names, 5, &card, None, Keyboard::Mac);
    assert_eq!(later.shortcut, "click");
    assert_eq!(later.save_shortcut, "save");
}

#[test]
fn shortcuts_follow_the_keyboard() {
    assert_eq!(paste_shortcut(Keyboard::Mac), "⌘V");
    assert_eq!(paste_shortcut(Keyboard::Other), "Ctrl+V");
    assert_eq!(refresh_shortcut(Keyboard::Mac), "⌘R");
    assert_eq!(refresh_shortcut(Keyboard::Other), "Ctrl+R");
    assert_eq!(item_shortcut(Keyboard::Other, 12), "Ctrl+12");
    assert_eq!(save_shortcut(Keyboard::Other, 1), "Alt+1");
    assert!(shelf_shortcut_help(Keyboard::Mac).contains("⌥1–5"));
    assert!(shelf_shortcut_help(Keyboard::Other).contains("Alt+1–5"));
}

#[test]
fn save_activation_does_not_require_a_clipboard_adapter() {
    assert!(!clipboard_for_activation(ActivationMode::Save, false).expect("save mode"));
    assert!(clipboard_for_activation(ActivationMode::Clipboard, false).is_err());
    assert!(clipboard_for_activation(ActivationMode::Clipboard, true).expect("clipboard"));
}

#[test]
fn a_second_activation_does_not_drop_the_first_cancel_handle() {
    let mut active = ActiveActivations::default();
    let offer_id = OfferId::new();
    let (first_cancel, first_receiver) = watch::channel(false);
    assert!(active.register_active_activation(
        offer_id,
        ActiveActivation {
            cancel: first_cancel,
            progress: "Pulling…".to_owned(),
        },
    ));
    let (second_cancel, _second_receiver) = watch::channel(false);
    assert!(!active.register_active_activation(
        offer_id,
        ActiveActivation {
            cancel: second_cancel,
            progress: "Pulling…".to_owned(),
        },
    ));

    active
        .offers
        .get(&offer_id.0)
        .expect("first activation remains")
        .cancel
        .send(true)
        .expect("first cancel handle");
    assert!(first_receiver.has_changed().expect("first cancel state"));
    assert!(*first_receiver.borrow());
    active.remove_active_activation(offer_id);
    assert!(active.offers.is_empty());
}

fn plan(mode: ActivationMode, destination: Option<SaveDestination>) -> ActivationPlan {
    ActivationPlan {
        activation_id: ActivationId::from_uuid(9),
        source_device: DeviceId::from_uuid(2),
        offer_id: OfferId::from_uuid(3),
        descriptor: report_file(),
        mode,
        destination,
    }
}

fn peer() -> PairedPeer {
    PairedPeer {
        device_id: DeviceId::from_uuid(2),
        hostname: "BZOT".to_owned(),
        addresses: vec![IpAddress::V6(1), IpAddress::V4(0x7f00_0001)],
        public_key: vec![7; 32],
    }
}

#[test]
fn a_planned_activation_asks_its_source() {
    let directory = HostPath { text: "/downloads".to_owned(), absolute: true };
    let input = build_activation_input(
        &plan(ActivationMode::Save, Some(SaveDestination::Downloads)),
        DeviceId::from_uuid(1),
        &Some(peer()),
        Ok(directory),
    )
    .expect("input");
    assert_eq!(input.address.ip, IpAddress::V4(0x7f00_0001));
    assert_eq!(input.address.port, 45832);
    assert_eq!(input.nonce, ActivationId::from_uuid(9).text());
    assert_eq!(input.request.request_id, ActivationId::from_uuid(9));
    assert_eq!(input.request.source_device, DeviceId::from_uuid(2));
    assert_eq!(input.request.requester_device, DeviceId::from_uuid(1));
    assert_eq!(input.activation.destination.expect("directory").text, "/downloads");
    assert_eq!(input.expected_server_public_key, vec![7; 32]);
}

#[test]
fn each_obstacle_to_an_activation_is_named() {
    let local = DeviceId::from_uuid(1);
    let nowhere = || Err("no downloads directory".to_owned());
    let save = plan(ActivationMode::Save, Some(SaveDestination::Downloads));
    assert_eq!(
        build_activation_input(&save, local, &None, nowhere()).expect_err("unpaired"),
        "the offer's source device is not paired"
    );
    let mut lost = peer();
    lost.addresses.clear();
    assert_eq!(
        build_activation_input(&save, local, &Some(lost), nowhere()).expect_err("no address"),
        "the offer's source device has no address"
    );
    assert_eq!(
        build_activation_input(&plan(ActivationMode::Save, None), local, &Some(peer()), nowhere())
            .expect_err("no setting"),
        "save activation has no destination setting"
    );
    assert_eq!(
        build_activation_input(&save, local, &Some(peer()), nowhere()).expect_err("no directory"),
        "no downloads directory"
    );
    assert!(build_activation_input(
        &plan(ActivationMode::Clipboard, None),
        local,
        &Some(peer()),
        nowhere()
    )
    .expect("clipboard")
    .activation
    .destination
    .is_none());
}

#[test]
fn an_activation_starts_once_and_two_run_at_most() {
    let local = DeviceId::from_uuid(1);
    let mut gate = ActivationGate::default();
    let mut active = ActiveActivations::new();
    let nowhere = || Err(String::new());
    let mut first = plan(ActivationMode::Clipboard, None);
    first.offer_id = OfferId::from_uuid(10);
    assert_eq!(
        start_activation(&mut gate, &mut active, &first, (), false, local, &Some(peer()), nowhere())
            .expect_err("no clipboard"),
        "Clipboard adapter is unavailable"
    );
    assert_eq!(
        start_activation(&mut gate, &mut active, &first, (), true, local, &None, nowhere())
            .expect_err("unpaired"),
        "the offer's source device is not paired"
    );
    assert!(active.offers.is_empty());
    let (permit, _) =
        start_activation(&mut gate, &mut active, &first, (), true, local, &Some(peer()), nowhere())
            .expect("first");
    assert_eq!(active.offers.get(&10).expect("noted").progress, "Pulling…");
    assert_eq!(
        start_activation(&mut gate, &mut active, &first, (), true, local, &Some(peer()), nowhere())
            .expect_err("again"),
        "This offer is already activating; nothing queued"
    );
    let mut second = plan(ActivationMode::Clipboard, None);
    second.offer_id = OfferId::from_uuid(11);
    assert!(start_activation(&mut gate, &mut active, &second, (), true, local, &Some(peer()), nowhere())
        .is_ok());
    let mut third = plan(ActivationMode::Clipboard, None);
    third.offer_id = OfferId::from_uuid(12);
    assert_eq!(
        start_activation(&mut gate, &mut active, &third, (), true, local, &Some(peer()), nowhere())
            .expect_err("third"),
        "Two activations are already in progress; nothing queued"
    );
    active.remove_active_activation(first.offer_id);
    gate.leave(permit);
    assert!(start_activation(&mut gate, &mut active, &third, (), true, local, &Some(peer()), nowhere())
        .is_ok());
}

#[test]
fn modes_are_read_by_name() {
    assert_eq!(parse_mode("clipboard"), Ok(ActivationMode::Clipboard));
    assert_eq!(parse_mode("save"), Ok(ActivationMode::Save));
    assert_eq!(parse_mode("Save").expect_err("case"), "The activation mode is invalid");
    assert_eq!(pulling_status(ActivationMode::Clipboard), "Pulling offer to the clipboard…");
    assert_eq!(
        pulling_status(ActivationMode::Save),
        "Pulling offer to the configured destination…"
    );
}

#[test]
fn an_empty_clipboard_sends_nothing() {
    assert_eq!(
        check_clipboard_item(&ClipboardItem::Text(" \t\n\u{3000}".to_owned())).expect_err("blank"),
        "Clipboard contains no text to send"
    );
    assert_eq!(
        check_clipboard_item(&ClipboardItem::Files(Vec::new())).expect_err("none"),
        "Clipboard contains no files or folders"
    );
    assert!(check_clipboard_item(&ClipboardItem::Text(" x".to_owned())).is_ok());
    assert!(check_clipboard_item(&ClipboardItem::Files(vec!["/a".to_owned()])).is_ok());
}

#[test]
fn what_was_sent_is_reported_up_to_the_first_failure() {
    let ok = |s: &str| Ok(s.to_owned());
    assert_eq!(sent_status(vec![ok("a"), ok("b")]), Ok("a; b".to_owned()));
    assert_eq!(
        sent_status(vec![ok("a"), Err("x".to_owned()), Err("y".to_owned())]),
        Err("x".to_owned())
    );
    assert_eq!(sent_status(Vec::new()), Ok(String::new()));
}

#[test]
fn an_offer_needs_a_paired_device() {
    assert_eq!(
        create_and_announce(Ok(None)).expect_err("alone"),
        "no other meshelf device is paired"
    );
    assert_eq!(create_and_announce(Err("broken".to_owned())).expect_err("error"), "broken");
    let plan = OfferPlan {
        offer_id: OfferId::from_uuid(5),
        descriptor: report_file(),
        announcements: Vec::new(),
    };
    assert_eq!(
        create_and_announce(Ok(Some(plan))).expect("plan").offer_id,
        OfferId::from_uuid(5)
    );
}

#[test]
fn rows_follow_the_shelf() {
    let mut a = peer();
    a.device_id = DeviceId::from_uuid(2);
    let names = capture_peer_names(&vec![a]);
    let mut first = test_card(report_file(), CardAvailability::Available);
    first.source_device = DeviceId::from_uuid(2);
    let second = test_card(hello_text(), CardAvailability::Available);
    let mut active = ActiveActivations::new();
    active.register_active_activation(
        second.offer_id,
        ActiveActivation { cancel: (), progress: "Pulling…".to_owned() },
    );
    let rows = shelf_rows(&names, &active, vec![first, second], Keyboard::Other);
    assert_eq!(rows.len(), 2);
    assert_eq!(rows[0].origin_device, "BZOT");
    assert!(rows[0].can_activate);
    assert_eq!(rows[1].progress, "Pulling…");
    assert!(!rows[1].can_activate);
    assert_eq!(rows[1].shortcut, "Ctrl+2");
}

#[test]
fn the_listener_binds_a_discovered_address() {
    assert_eq!(
        listener_address(&None).expect_err("no status"),
        "Tailscale status is unavailable"
    );
    assert_eq!(
        listener_address(&Some(Vec::new())).expect_err("no address"),
        "Tailscale supplied no local address"
    );
    let address = listener_address(&Some(vec![IpAddress::V6(5)])).expect("address");
    assert_eq!(address.ip, IpAddress::V6(5));
    assert_eq!(address.port, MESHELF_PORT);
}

#[test]
fn destinations_have_a_label() {
    assert_eq!(destination_label(&SaveDestination::Downloads), "Downloads");
    let custom = SaveDestination::custom(HostPath::new("/srv/in")).expect("absolute");
    assert_eq!(destination_label(&custom), "/srv/in");
}

fn hello(key: Vec<u8>) -> ClientHello {
    ClientHello {
        protocol_version: 2,
        device_id: DeviceId::from_uuid(2),
        device_name: "BZOT".to_owned(),
        nonce: "n".to_owned(),
        capabilities: Vec::new(),
        public_key: key,
        signature: Vec::new(),
    }
}

fn denial(decision: TrustDecision) -> String {
    match decision {
        TrustDecision::Allow => panic!("allowed"),
        TrustDecision::Deny(reason) => reason,
    }
}

#[test]
fn only_a_paired_peer_is_let_in() {
    let known = PeerLookup::Paired(peer());
    let here = IpAddress::V4(0x7f00_0001);
    assert!(matches!(
        authorize_paired(&known, here, &hello(vec![7; 32]), true, true),
        TrustDecision::Allow
    ));
    assert_eq!(
        denial(authorize_paired(&known, here, &hello(vec![7; 32]), false, true)),
        "approved peer key or Tailscale address does not match"
    );
    assert_eq!(
        denial(authorize_paired(&known, IpAddress::V4(1), &hello(vec![7; 32]), true, true)),
        "approved peer key or Tailscale address does not match"
    );
    assert_eq!(
        denial(authorize_paired(&known, here, &hello(vec![7; 3]), true, true)),
        "peer hello has no valid installation key"
    );
    assert_eq!(
        denial(authorize_paired(&known, here, &hello(vec![7; 3]), true, false)),
        "approved peer key or Tailscale address does not match"
    );
    assert_eq!(
        denial(authorize_paired(&PeerLookup::Unknown, here, &hello(vec![7; 32]), true, true)),
        "meshelf installation has not been approved"
    );
    assert_eq!(
        denial(authorize_paired(&PeerLookup::Unavailable, here, &hello(vec![7; 32]), true, true)),
        "local meshelf state is unavailable"
    );
}
