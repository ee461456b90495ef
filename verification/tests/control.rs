use std::collections::HashMap;

use meshelf::announce::{OfferAck, OfferAckCode};
use meshelf::controller::{
    accepts_discovered, Controller, PairedPeer, ProbeAnswer, MESHELF_PORT,
};
use meshelf::identity::InstallationIdentity;
use meshelf::ids::{DeviceId, OfferId};
use meshelf::net::IpAddress;
use meshelf::net_error::NetError;
use meshelf::report::{
    announce_offer_plan, classify_announce_result, reason_is_protocol_update,
    report_announce_outcome, AnnouncePeerOutcome, MeshSendReport,
};
use meshelf::trust::{v1_client_refusal_reason, ServerHello};
use meshelf::wire::V2_PROTOCOL_VERSION;

fn test_controller() -> Controller {
    Controller::new(Vec::new())
}

fn peer_of(hostname: &str, address: Option<IpAddress>, identity: &InstallationIdentity) -> PairedPeer {
    PairedPeer {
        device_id: identity.device_id,
        hostname: hostname.to_owned(),
        addresses: address.into_iter().collect(),
        public_key: identity.public_key().to_vec(),
    }
}

fn pair_test_peer(controller: &mut Controller, hostname: &str) -> DeviceId {
    let identity = InstallationIdentity::generate();
    controller.peers.push(peer_of(hostname, None, &identity));
    identity.device_id
}

fn mark_refresh_complete(controller: &mut Controller) {
    controller.checked = true;
}

fn signed_probe_answer(identity: &InstallationIdentity, hostname: &str) -> ServerHello {
    ServerHello {
        protocol_version: V2_PROTOCOL_VERSION,
        device_id: identity.device_id,
        device_name: hostname.to_owned(),
        accepted: false,
        reason: None,
        capabilities: vec!["offer-pull-v2".to_owned()],
        public_key: identity.public_key().to_vec(),
        signature: vec![0; 64],
    }
}

fn answer(hostname: &str, device_id: DeviceId) -> ProbeAnswer {
    ProbeAnswer { hostname: hostname.to_owned(), device_id }
}

#[test]
fn valid_signed_tailscale_discovery_pairs_without_ssh() {
    let mut controller = test_controller();
    let peer_identity = InstallationIdentity::generate();
    let peer_id = peer_identity.device_id;
    let address = IpAddress::V4(0x645a_7678);
    let hello = signed_probe_answer(&peer_identity, "BZOT");
    assert!(accepts_discovered(&hello, true));
    assert!(!accepts_discovered(&hello, false));

    controller.accept_discovered(vec![peer_of("BZOT", Some(address), &peer_identity)], peer_id);

    let paired = controller
        .peers
        .iter()
        .find(|peer| peer.device_id == peer_id)
        .expect("peer stored automatically");
    assert_eq!(paired.hostname, "BZOT");
    assert_eq!(paired.public_key, peer_identity.public_key());
    assert_eq!(controller.selected_device, Some(peer_id));
}

#[test]
fn stale_resident_controller_preserves_already_paired_peer() {
    let mut controller = test_controller();
    let peer_identity = InstallationIdentity::generate();
    let peer_id = peer_identity.device_id;
    let address = IpAddress::V4(0x645a_7678);

    controller.refresh_discovery(vec![peer_of("BZOT", Some(address), &peer_identity)]);
    controller.refresh_reachability(&Vec::new()).expect("resident refresh");

    let paired = controller
        .peers
        .iter()
        .find(|peer| peer.device_id == peer_id)
        .expect("external peer remains paired");
    assert_eq!(paired.hostname, "BZOT");
    assert_eq!(paired.public_key, peer_identity.public_key());
}

#[test]
fn discovery_phase_records_local_status_before_reachability_probes() {
    let mut controller = test_controller();
    let peer_identity = InstallationIdentity::generate();
    let peer_address = IpAddress::V4(0x645a_7678);

    controller.refresh_discovery(vec![peer_of("BZOT", Some(peer_address), &peer_identity)]);

    assert!(controller.checked);
    assert!(controller.reachable_peers.is_empty());
    assert_eq!(controller.peers[0].addresses, vec![peer_address]);
}

#[test]
fn status_counts_only_reachable_peers_not_paired_ones() {
    let mut controller = test_controller();
    let reachable = pair_test_peer(&mut controller, "BZOT");
    pair_test_peer(&mut controller, "BMBA");
    controller.reachable_peers.insert(reachable.0, "BZOT".to_owned());
    controller.selected_device = Some(reachable);
    mark_refresh_complete(&mut controller);

    let view = controller.view();

    assert_eq!(view.status, "1 device reachable · paste text or copied files");
    assert_eq!(view.reachable_names, "BZOT");
}

#[test]
fn status_before_first_refresh_does_not_claim_readiness() {
    let mut controller = test_controller();
    pair_test_peer(&mut controller, "BZOT");

    let view = controller.view();

    assert_eq!(
        view.status,
        "Reachability not checked yet · refresh to find meshelf devices"
    );
    assert_eq!(view.reachable_names, "Reachability not checked yet");
    assert!(!view.status.contains("ready"));
}

#[test]
fn status_with_paired_but_unreachable_peers_says_none_are_reachable() {
    let mut controller = test_controller();
    pair_test_peer(&mut controller, "BMBA");
    mark_refresh_complete(&mut controller);

    let view = controller.view();

    assert_eq!(
        view.status,
        "No paired meshelf devices are reachable · refresh to retry"
    );
    assert_eq!(view.reachable_names, "No meshelf devices are reachable");
}

#[test]
fn status_singular_and_plural_and_zero_all_read_correctly() {
    let mut zero = test_controller();
    mark_refresh_complete(&mut zero);
    assert_eq!(
        zero.view().status,
        "No paired meshelf devices · refresh to discover devices"
    );

    let mut one = test_controller();
    let one_id = pair_test_peer(&mut one, "BZOT");
    one.reachable_peers.insert(one_id.0, "BZOT".to_owned());
    mark_refresh_complete(&mut one);
    assert_eq!(
        one.view().status,
        "1 device reachable · paste text or copied files"
    );

    let mut many = test_controller();
    let first = pair_test_peer(&mut many, "BMBA");
    let second = pair_test_peer(&mut many, "BZOT");
    many.reachable_peers.insert(first.0, "BMBA".to_owned());
    many.reachable_peers.insert(second.0, "BZOT".to_owned());
    mark_refresh_complete(&mut many);
    assert_eq!(
        many.view().status,
        "2 devices reachable · paste text or copied files"
    );
}

#[test]
fn reachable_list_names_only_peers_that_answered_the_probe() {
    let mut controller = test_controller();
    let bmba = pair_test_peer(&mut controller, "BMBA");
    let bzot = pair_test_peer(&mut controller, "BZOT");
    pair_test_peer(&mut controller, "BZDROPPED");
    controller.reachable_peers.insert(bmba.0, "BMBA".to_owned());
    controller.reachable_peers.insert(bzot.0, "BZOT".to_owned());
    mark_refresh_complete(&mut controller);

    let view = controller.view();

    assert_eq!(view.reachable_names, "BMBA\nBZOT");
    assert!(!view.reachable_names.contains("BZDROPPED"));
}

#[test]
fn refresh_inserts_only_peers_that_answered_the_probe() {
    let mut controller = test_controller();
    let bzot_identity = InstallationIdentity::generate();
    let bmba_identity = InstallationIdentity::generate();
    let bzot = bzot_identity.device_id;
    let bmba = bmba_identity.device_id;
    controller.refresh_discovery(vec![
        peer_of("BZOT", Some(IpAddress::V4(0x645a_7678)), &bzot_identity),
        peer_of("BMBA", Some(IpAddress::V4(0x645a_7679)), &bmba_identity),
    ]);

    controller.refresh_reachability(&vec![answer("BZOT", bzot)]).expect("fake refresh");

    assert_eq!(controller.reachable_peers.len(), 1);
    assert_eq!(controller.reachable_peers.get(&bzot.0), Some(&"BZOT".to_owned()));
    assert!(!controller.reachable_peers.contains_key(&bmba.0));
}

#[test]
fn refresh_clears_the_previous_reachable_set_before_repopulating() {
    let mut controller = test_controller();
    let bzot_identity = InstallationIdentity::generate();
    let bmba_identity = InstallationIdentity::generate();
    let bzot = bzot_identity.device_id;
    let bmba = bmba_identity.device_id;
    controller.reachable_peers.insert(bzot.0, "BZOT".to_owned());
    controller.refresh_discovery(vec![
        peer_of("BZOT", Some(IpAddress::V4(0x645a_767a)), &bzot_identity),
        peer_of("BMBA", Some(IpAddress::V4(0x645a_767b)), &bmba_identity),
    ]);

    controller.refresh_reachability(&vec![answer("BMBA", bmba)]).expect("fake refresh");

    assert_eq!(controller.reachable_peers.len(), 1);
    assert!(!controller.reachable_peers.contains_key(&bzot.0));
    assert_eq!(controller.reachable_peers.get(&bmba.0), Some(&"BMBA".to_owned()));
}

#[test]
fn refresh_that_answers_for_an_unpaired_device_does_not_make_it_reachable() {
    let mut controller = test_controller();
    let unpaired_identity = InstallationIdentity::generate();
    let address = IpAddress::V4(0x645a_767c);
    controller.refresh_discovery(Vec::new());
    controller
        .refresh_reachability(&vec![answer("UNPAIRED", unpaired_identity.device_id)])
        .expect("fake refresh");
    assert!(accepts_discovered(&signed_probe_answer(&unpaired_identity, "UNPAIRED"), true));
    controller.accept_discovered(
        vec![peer_of("UNPAIRED", Some(address), &unpaired_identity)],
        unpaired_identity.device_id,
    );

    let view = controller.view();

    assert!(controller.reachable_peers.is_empty());
    assert_eq!(view.reachable_names, "No meshelf devices are reachable");
    assert!(controller
        .peers
        .iter()
        .any(|peer| peer.device_id == unpaired_identity.device_id));
}

#[test]
fn reachability_needs_a_completed_discovery() {
    let mut controller = test_controller();
    let error = controller.refresh_reachability(&Vec::new()).expect_err("no discovery yet");
    assert_eq!(error, "Tailscale discovery has not completed; refresh and retry");
}

#[test]
fn a_peer_is_selected_by_identifier_or_by_name() {
    let mut controller = test_controller();
    let bmba = pair_test_peer(&mut controller, "BMBA");
    let bzot = pair_test_peer(&mut controller, "BZOT");
    controller.select_peer(None).expect("first");
    assert_eq!(controller.selected_device, Some(bmba));
    controller.select_peer(Some("bzot")).expect("by name");
    assert_eq!(controller.selected_device, Some(bzot));
    controller.select_peer(Some(&bmba.text())).expect("by identifier");
    assert_eq!(controller.selected_device, Some(bmba));
    assert_eq!(
        controller.select_peer(Some("nobody")).expect_err("unknown"),
        "trusted meshelf peer not found: nobody"
    );
    assert_eq!(controller.selected_device, Some(bmba));
}

#[test]
fn the_selected_name_is_shown_and_names_are_sorted_without_regard_to_case() {
    let mut controller = test_controller();
    let b = pair_test_peer(&mut controller, "beta");
    let a = pair_test_peer(&mut controller, "Alpha");
    let c = pair_test_peer(&mut controller, "Gamma");
    controller.reachable_peers = HashMap::from([
        (b.0, "beta".to_owned()),
        (a.0, "Alpha".to_owned()),
        (c.0, "Gamma".to_owned()),
    ]);
    mark_refresh_complete(&mut controller);
    assert_eq!(controller.view().reachable_names, "Alpha\nbeta\nGamma");
    assert_eq!(controller.view().name, "Alpha");
    controller.selected_device = Some(c);
    assert_eq!(controller.view().name, "Gamma");
    assert!(controller.view().online);
    controller.reachable_peers.clear();
    assert_eq!(controller.view().name, "Not configured");
    assert!(!controller.view().online);
}

#[test]
fn a_discovered_device_must_pull_offers_in_this_version() {
    let identity = InstallationIdentity::generate();
    let mut hello = signed_probe_answer(&identity, "BZOT");
    hello.protocol_version = 1;
    assert!(!accepts_discovered(&hello, true));
    let mut hello = signed_probe_answer(&identity, "BZOT");
    hello.capabilities.clear();
    assert!(!accepts_discovered(&hello, true));
}

#[test]
fn version_mismatch_is_reported_distinctly_from_unreachable() {
    let mismatch = classify_announce_result(
        "BZOT".to_owned(),
        Err(NetError::ProtocolMismatch {
            peer: "BZOT".to_owned(),
            version: 1,
            expected: V2_PROTOCOL_VERSION,
        }),
    );
    let unreachable = classify_announce_result(
        "BMBA".to_owned(),
        Err(NetError::Unavailable(
            "announce connect timed out".to_owned(),
        )),
    );
    let mut report = MeshSendReport {
        stored_on: Vec::new(),
        unavailable: Vec::new(),
        version_mismatch: Vec::new(),
    };
    match mismatch {
        AnnouncePeerOutcome::VersionMismatch(reason) => report.version_mismatch.push(reason),
        other => panic!("expected version mismatch, got {other:?}"),
    }
    match unreachable {
        AnnouncePeerOutcome::Unavailable(hostname) => report.unavailable.push(hostname),
        other => panic!("expected unavailable, got {other:?}"),
    }

    let message = report.status();

    assert_eq!(report.unavailable, ["BMBA"]);
    assert!(report
        .version_mismatch
        .iter()
        .any(|reason| reason.contains("BZOT")));
    assert!(!report.unavailable.iter().any(|name| name.contains("BZOT")));
    assert!(message.contains("BMBA"));
    assert!(message.contains("unavailable"));
    assert!(message.contains("BZOT"));
    assert!(
        !message.contains("unavailable BMBA, BZOT")
            && !message.contains("unavailable: BMBA, BZOT")
            && !message.contains("unavailable BZOT")
    );
}

#[test]
fn version_mismatch_message_names_the_peer_and_says_to_update() {
    let from_server_hello = classify_announce_result(
        "BZOT".to_owned(),
        Err(NetError::ProtocolMismatch {
            peer: "BZOT".to_owned(),
            version: 1,
            expected: V2_PROTOCOL_VERSION,
        }),
    );
    let AnnouncePeerOutcome::VersionMismatch(message) = from_server_hello else {
        panic!("v1 server hello must be a version mismatch");
    };
    assert!(message.contains("BZOT"));
    assert!(message.contains("protocol 1"));
    assert!(message.to_ascii_lowercase().contains("update"));
    assert!(message.contains("protocol 2"));

    let listener_reason = v1_client_refusal_reason("BZOT", DeviceId::new(), 1);
    let from_listener = classify_announce_result(
        "BZOT".to_owned(),
        Err(NetError::Rejected(listener_reason.clone())),
    );
    let AnnouncePeerOutcome::VersionMismatch(carried) = from_listener else {
        panic!("listener refusal reason must reach the sender");
    };
    assert_eq!(carried, listener_reason);
    assert!(carried.contains("BZOT"));
    assert!(carried.contains("protocol version 1"));
    assert!(carried.to_ascii_lowercase().contains("update"));
}

#[test]
fn partial_announcement_reports_which_peers_missed_it_and_why() {
    let report = MeshSendReport {
        stored_on: vec!["BMST".to_owned()],
        unavailable: vec!["BMBA".to_owned()],
        version_mismatch: vec![NetError::ProtocolMismatch {
            peer: "BZOT".to_owned(),
            version: 1,
            expected: V2_PROTOCOL_VERSION,
        }
        .describe()],
    };

    let status = report_announce_outcome(report).expect("partial success is not total failure");

    assert!(status.contains("1 device") || status.contains("BMST"));
    assert!(status.contains("BMBA"));
    assert!(status.contains("unavailable"));
    assert!(status.contains("BZOT"));
    assert!(status.contains("protocol 1"));
    assert!(status.to_ascii_lowercase().contains("update"));
    assert!(
        !status.contains("unavailable BMBA, BZOT")
            && !status.contains("unavailable: BMBA, BZOT")
            && !status.contains("unavailable BZOT")
    );
    assert_ne!(status, "Added to 1 device");
    assert!(!status.eq_ignore_ascii_case("offer announced to the mesh"));
}

fn ack(code: OfferAckCode) -> OfferAck {
    OfferAck {
        offer_id: OfferId::from_uuid(1),
        code,
        live_entries: 1,
        max_live_entries: 10,
        pruned_entries: 0,
        detail: None,
    }
}

#[test]
fn every_peer_is_counted_once_in_the_report() {
    let outcomes = vec![
        classify_announce_result("A".to_owned(), Ok(ack(OfferAckCode::Stored))),
        classify_announce_result("B".to_owned(), Ok(ack(OfferAckCode::Duplicate))),
        classify_announce_result("C".to_owned(), Ok(ack(OfferAckCode::RefusedCapacity))),
        classify_announce_result("D".to_owned(), Err(NetError::Io("reset".to_owned()))),
        classify_announce_result(
            "E".to_owned(),
            Err(NetError::ProtocolMismatch { peer: "E".to_owned(), version: 1, expected: 2 }),
        ),
    ];
    let report = announce_offer_plan(&outcomes);
    assert_eq!(
        report.stored_on.len() + report.unavailable.len() + report.version_mismatch.len(),
        outcomes.len()
    );
    assert_eq!(report.stored_on, ["A", "B"]);
    assert_eq!(report.version_mismatch.len(), 1);
    assert!(!reason_is_protocol_update("please wait"));
    assert_eq!(MESHELF_PORT, 45832);
}

#[test]
fn an_announcement_that_nobody_stored_is_an_error() {
    let report = MeshSendReport {
        stored_on: Vec::new(),
        unavailable: vec!["BMBA".to_owned()],
        version_mismatch: Vec::new(),
    };
    let status = report.status();
    assert_eq!(report_announce_outcome(report).expect_err("nobody"), status);
    assert!(status.contains("BMBA"));
}
