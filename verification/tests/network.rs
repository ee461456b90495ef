use meshelf::announce::{OfferAck, OfferAckCode, OfferAnnouncement};
use meshelf::bootstrap::{
    check_bootstrap_length, check_bootstrap_request, check_bootstrap_source, check_enrollment,
    first_word, DiscoveredPeer, EnrollmentRequest,
};
use meshelf::client::{accept_ack, announce_offer_v2, fetch_v2, AckFrame, PeerClient};
use meshelf::connection::{
    handle_v2_connection, ConnectionEvent, ConnectionStep, HandlerSlots, Operation,
};
use meshelf::activation::{ActivationMode, FetchActivation};
use meshelf::ids::{DeviceId, OfferId};
use meshelf::net::{bind_discovered_tailscale_address, IpAddress, SocketAddress};
use meshelf::net_error::NetError;
use meshelf::offer::OfferDescriptor;
use meshelf::send::FetchRequest;
use meshelf::trust::{
    read_server_hello, refuse_excess_connection, require_v2_client_hello,
    require_v2_server_hello, v1_client_refusal_reason, ClientHello, DenyAll, ExactDeviceAllowList,
    ServerHello, TailnetPeerAllowList, TrustDecision, TrustGate,
};
use meshelf::wire::{V2_MAX_INBOUND_HANDLERS, V2_PROTOCOL_VERSION};

fn here(ip: u32) -> SocketAddress {
    SocketAddress { ip: IpAddress::V4(ip), port: 45832 }
}

#[test]
fn production_hello_advertises_only_offer_pull_v2() {
    let hello = ClientHello::new(DeviceId::new(), "BMST", "nonce");
    assert_eq!(hello.protocol_version, V2_PROTOCOL_VERSION);
    assert_eq!(hello.capabilities, vec!["offer-pull-v2"]);
}

fn client(device: DeviceId) -> ClientHello {
    ClientHello::new(device, "BZOT", "nonce")
}

fn server(device: DeviceId) -> ServerHello {
    ServerHello {
        protocol_version: V2_PROTOCOL_VERSION,
        device_id: device,
        device_name: "BMBA".to_owned(),
        accepted: true,
        reason: None,
        capabilities: vec!["offer-pull-v2".to_owned()],
        public_key: vec![1; 32],
        signature: vec![2; 64],
    }
}

#[test]
fn only_discovered_addresses_are_bound() {
    let discovered = vec![IpAddress::V4(5)];
    assert!(bind_discovered_tailscale_address(here(5), &discovered).is_ok());
    assert!(matches!(
        bind_discovered_tailscale_address(here(6), &discovered),
        Err(NetError::UnsafeBind(_))
    ));
    assert!(matches!(
        bind_discovered_tailscale_address(here(0), &vec![IpAddress::V4(0)]),
        Err(NetError::UnsafeBind(_))
    ));
}

#[test]
fn gates_decide_by_device_and_address() {
    let device = DeviceId::new();
    let hello = client(device);
    assert!(matches!(DenyAll.authorize(here(1), &hello), TrustDecision::Deny(_)));
    assert!(matches!(
        ExactDeviceAllowList::new(vec![device]).authorize(here(1), &hello),
        TrustDecision::Allow
    ));
    assert!(matches!(
        ExactDeviceAllowList::new(vec![DeviceId::new()]).authorize(here(1), &hello),
        TrustDecision::Deny(_)
    ));
    let list = TailnetPeerAllowList::new(vec![(device, vec![IpAddress::V4(1)])]);
    assert!(matches!(list.authorize(here(1), &hello), TrustDecision::Allow));
    assert!(matches!(list.authorize(here(2), &hello), TrustDecision::Deny(_)));
    assert!(matches!(
        list.authorize(here(1), &client(DeviceId::new())),
        TrustDecision::Deny(_)
    ));
}

#[test]
fn an_old_client_is_told_to_update() {
    let device = DeviceId::from_uuid(1);
    let named = v1_client_refusal_reason("BZOT", device, 1);
    assert!(named.contains("BZOT"));
    assert!(named.contains("protocol version 1"));
    assert!(named.to_ascii_lowercase().contains("update"));
    let unnamed = v1_client_refusal_reason("", device, 1);
    assert!(unnamed.contains(&device.text()), "{unnamed}");
}

#[test]
fn excess_connections_are_told_the_limit() {
    let device = DeviceId::from_uuid(1);
    let reason = refuse_excess_connection(device);
    assert!(reason.contains("16"), "{reason}");
}

#[test]
fn greetings_must_speak_this_version() {
    assert!(require_v2_client_hello(&client(DeviceId::new()), "announce").is_ok());
    let mut old = client(DeviceId::new());
    old.protocol_version = 1;
    assert!(matches!(
        require_v2_client_hello(&old, "announce"),
        Err(NetError::Rejected(text)) if text == "announce requires protocol 2 and offer-pull-v2"
    ));
    assert!(require_v2_server_hello(&server(DeviceId::new()), true, "announce").is_ok());
    let mut old = server(DeviceId::new());
    old.protocol_version = 1;
    assert!(matches!(
        require_v2_server_hello(&old, true, "announce"),
        Err(NetError::Rejected(text)) if text == "announce server uses an unsupported protocol version"
    ));
}

#[test]
fn an_announcement_needs_a_server_with_the_capability() {
    let mut bare = server(DeviceId::new());
    bare.capabilities.clear();
    let result = require_v2_server_hello(&bare, true, "v2 announcement");
    assert!(
        matches!(result, Err(NetError::Rejected(reason)) if reason.contains("offer-pull-v2"))
    );
}

#[test]
fn a_fetch_needs_a_server_with_the_capability() {
    let mut bare = server(DeviceId::new());
    bare.capabilities.clear();
    let result = require_v2_server_hello(&bare, true, "v2 fetch");
    assert!(
        matches!(result, Err(NetError::Rejected(reason)) if reason.contains("offer-pull-v2"))
    );
}

#[test]
fn a_server_must_be_the_expected_one() {
    let device = DeviceId::new();
    let key = vec![1; 32];
    let hello = server(device);
    assert!(read_server_hello(&hello, true, &key, device, "fetch").is_ok());
    for (signed, expected_key, expected_device) in [
        (false, key.clone(), device),
        (true, vec![9; 32], device),
        (true, key.clone(), DeviceId::new()),
    ] {
        assert!(matches!(
            read_server_hello(&hello, signed, &expected_key, expected_device, "fetch"),
            Err(NetError::IdentityMismatch(_))
        ));
    }
}

#[test]
fn inbound_handlers_are_limited() {
    let mut slots = HandlerSlots::new();
    for _ in 0..V2_MAX_INBOUND_HANDLERS {
        assert!(slots.try_acquire());
    }
    assert!(!slots.try_acquire());
    slots.release();
    assert!(slots.try_acquire());
    assert!(!slots.try_acquire());
}

fn greeted(device: DeviceId, decision: TrustDecision) -> ConnectionStep {
    let step = handle_v2_connection(
        ConnectionStep::ReadHello,
        ConnectionEvent::HelloRead { result: Ok(client(device)), signature_valid: true },
    );
    assert!(matches!(step, ConnectionStep::AskGate(asked) if asked == device));
    handle_v2_connection(step, ConnectionEvent::GateAnswered(decision))
}

#[test]
fn a_trusted_client_gets_one_operation() {
    let device = DeviceId::new();
    let step = greeted(device, TrustDecision::Allow);
    assert!(matches!(
        &step,
        ConnectionStep::WriteHello { accepted: Some(d), reason: None } if *d == device
    ));
    let step = handle_v2_connection(step, ConnectionEvent::Done(Ok(())));
    assert!(matches!(step, ConnectionStep::ReadOperation(d) if d == device));
    let step =
        handle_v2_connection(step, ConnectionEvent::OperationRead(Ok(Operation::Announcement)));
    assert!(matches!(step, ConnectionStep::HandleAnnouncement(d) if d == device));
    let step = handle_v2_connection(step, ConnectionEvent::Done(Ok(())));
    let step = handle_v2_connection(step, ConnectionEvent::Done(Ok(())));
    assert!(!matches!(step, ConnectionStep::ReadOperation(_)));
}

#[test]
fn an_untrusted_client_gets_no_operation() {
    let step = greeted(DeviceId::new(), TrustDecision::Deny("not paired".to_owned()));
    assert!(matches!(
        &step,
        ConnectionStep::WriteHello { accepted: None, reason: Some(reason) } if reason == "not paired"
    ));
    let step = handle_v2_connection(step, ConnectionEvent::Done(Ok(())));
    assert!(!matches!(
        step,
        ConnectionStep::ReadOperation(_) | ConnectionStep::HandleAnnouncement(_)
    ));
}

#[test]
fn an_old_client_gets_no_operation() {
    let mut old = client(DeviceId::new());
    old.protocol_version = 1;
    let step = handle_v2_connection(
        ConnectionStep::ReadHello,
        ConnectionEvent::HelloRead { result: Ok(old), signature_valid: true },
    );
    assert!(matches!(
        &step,
        ConnectionStep::WriteHello { accepted: None, reason: Some(reason) }
            if reason.contains("BZOT") && reason.contains("protocol version 1")
    ));
    let step = handle_v2_connection(step, ConnectionEvent::Done(Ok(())));
    assert!(!matches!(step, ConnectionStep::ReadOperation(_)));
}

#[test]
fn an_unsigned_greeting_is_turned_away() {
    let step = handle_v2_connection(
        ConnectionStep::ReadHello,
        ConnectionEvent::HelloRead { result: Ok(client(DeviceId::new())), signature_valid: false },
    );
    assert!(matches!(step, ConnectionStep::WriteHello { accepted: None, .. }));
}

#[test]
fn announcements_are_checked_before_they_are_sent() {
    let device = DeviceId::new();
    let announcement = |source| {
        OfferAnnouncement::new(
            OfferId::from_uuid(1),
            source,
            DeviceId::new(),
            1,
            OfferDescriptor::text("x").expect("text"),
        )
    };
    let hello = client(device);
    assert!(announce_offer_v2(&hello, &announcement(device), Ok(())).is_ok());
    assert!(announce_offer_v2(&hello, &announcement(DeviceId::new()), Ok(())).is_err());
    assert!(announce_offer_v2(&hello, &announcement(device), Err("bad".to_owned())).is_err());
    let ack = |id| OfferAck {
        offer_id: OfferId::from_uuid(id),
        code: OfferAckCode::Stored,
        live_entries: 1,
        max_live_entries: 10,
        pruned_entries: 0,
        detail: None,
    };
    assert!(accept_ack(AckFrame::Ack(ack(1)), OfferId::from_uuid(1)).is_ok());
    assert!(accept_ack(AckFrame::Ack(ack(2)), OfferId::from_uuid(1)).is_err());
    assert!(accept_ack(AckFrame::Other, OfferId::from_uuid(1)).is_err());
    let client = PeerClient::with_timeouts(1000, 2000);
    assert_eq!(client.connect_timeout_ms, 1000);
    assert_eq!(client.io_timeout_ms, 2000);
}

#[test]
fn fetches_are_checked_before_they_are_sent() {
    let device = DeviceId::new();
    let source = DeviceId::new();
    let request = FetchRequest::new(OfferId::new(), source, device);
    let activation = |request: &FetchRequest| {
        FetchActivation::new(
            request.request_id,
            request.source_device,
            request.offer_id,
            ActivationMode::Clipboard,
            None,
        )
    };
    assert!(fetch_v2(&client(device), &request, &activation(&request)).is_ok());
    assert!(fetch_v2(&client(DeviceId::new()), &request, &activation(&request)).is_err());
    let other = FetchRequest::new(OfferId::new(), source, device);
    assert!(fetch_v2(&client(device), &request, &activation(&other)).is_err());
}

fn enrollment() -> EnrollmentRequest {
    EnrollmentRequest {
        node_id: "node".to_owned(),
        hostname: "BZOT".to_owned(),
        addresses: vec![IpAddress::V4(9)],
        device_id: DeviceId::from_uuid(1),
        public_key: vec![1; 32],
    }
}

#[test]
fn an_enrollment_must_be_identified() {
    assert!(check_bootstrap_length(65_536).is_ok());
    assert_eq!(
        check_bootstrap_length(65_537).expect_err("long"),
        "SSH bootstrap request is too large"
    );
    assert!(check_bootstrap_request(&enrollment(), true).is_ok());
    let fault = "SSH bootstrap request lacks a valid signed installation identity";
    assert_eq!(check_bootstrap_request(&enrollment(), false).expect_err("unsigned"), fault);
    let mut blank = enrollment();
    blank.node_id = " \t".to_owned();
    assert_eq!(check_bootstrap_request(&blank, true).expect_err("blank"), fault);
    let mut nowhere = enrollment();
    nowhere.addresses.clear();
    assert_eq!(check_bootstrap_request(&nowhere, true).expect_err("nowhere"), fault);
    let mut short = enrollment();
    short.public_key.pop();
    assert_eq!(check_bootstrap_request(&short, true).expect_err("short"), fault);
}

#[test]
fn an_enrollment_must_come_from_its_device() {
    let peers = |node: &str| {
        vec![DiscoveredPeer { node_id: Some(node.to_owned()), addresses: vec![IpAddress::V4(9)] }]
    };
    let from = |ip, peers: Vec<DiscoveredPeer>| check_bootstrap_source(&enrollment(), ip, &peers);
    assert!(from(Some(IpAddress::V4(9)), peers("node")).is_ok());
    assert_eq!(
        from(None, peers("node")).expect_err("no source"),
        "SSH_CONNECTION did not expose a source address"
    );
    assert_eq!(
        from(Some(IpAddress::V4(8)), peers("node")).expect_err("other source"),
        "SSH source is not one of the requesting device's Tailscale addresses"
    );
    assert_eq!(
        from(Some(IpAddress::V4(9)), Vec::new()).expect_err("unknown"),
        "SSH source is not a discovered remote Tailscale peer"
    );
    assert_eq!(
        from(Some(IpAddress::V4(9)), peers("other")).expect_err("other node"),
        "SSH source Tailscale identity does not match the bootstrap request"
    );
    assert_eq!(first_word("  100.1.2.3 55 x"), Some("100.1.2.3".to_owned()));
    assert_eq!(first_word(" \t"), None);
}

#[test]
fn an_enrollment_is_checked_in_order() {
    let peers =
        vec![DiscoveredPeer { node_id: Some("node".to_owned()), addresses: vec![IpAddress::V4(9)] }];
    let source = Some(IpAddress::V4(9));
    assert!(check_enrollment(65_536, &enrollment(), true, source, &peers).is_ok());
    assert_eq!(
        check_enrollment(65_537, &enrollment(), false, None, &peers).expect_err("long"),
        "SSH bootstrap request is too large"
    );
    assert_eq!(
        check_enrollment(9, &enrollment(), false, None, &peers).expect_err("unsigned"),
        "SSH bootstrap request lacks a valid signed installation identity"
    );
    assert_eq!(
        check_enrollment(9, &enrollment(), true, None, &peers).expect_err("no source"),
        "SSH_CONNECTION did not expose a source address"
    );
    assert_eq!(
        check_enrollment(9, &enrollment(), true, source, &Vec::new()).expect_err("unknown"),
        "SSH source is not a discovered remote Tailscale peer"
    );
}
