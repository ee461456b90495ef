use std::cell::RefCell;
use std::collections::HashMap;

use meshelf::activation::ActivationMode;
use meshelf::announce::{
    announced_card, answer_from_shelf, OfferAckCode, OfferAnnouncement, OfferAnnouncementHandler,
};
use meshelf::controller::PairedPeer;
use meshelf::coordinator::{Coordinator, OfferPlan};
use meshelf::desktop::{shelf_rows, ActiveActivations, Keyboard};
use meshelf::identity::InstallationIdentity;
use meshelf::ids::{ActivationId, DeviceId, OfferId};
use meshelf::local_control::{
    decode_request, dispatch, dispatch_with_runtime, encode_request, DispatchEvent, DispatchStep,
    LocalRequest, LocalResponse, LocalRuntime, NoopRuntime, MAX_SERIALIZED_TEXT_REQUEST_BYTES,
};
use meshelf::net::IpAddress;
use meshelf::net_error::NetError;
use meshelf::offer::{
    CardAvailability, OfferDescriptor, MAX_OFFER_PREVIEW_BYTES, MAX_TEXT_BYTES,
};
use meshelf::offer_source::{
    prepare_source, OfferInput, Preparation, PreparedOfferSource, SourcePreparationError,
};
use meshelf::path::HostPath;
use meshelf::settings::{settings_schema_version, SaveDestination, UserSettings};
use meshelf::shelf_changes::{NotifyingOfferCardStore, ShelfChangeNotifier};
use meshelf::source_plan::OfferSource;
use meshelf::store::{
    OfferCardInput, OfferCardInsert, OfferCardRecord, OfferCardStore, OfferEligibilityUpdate,
    OfferSourceInput, OfferSourceInsert, OfferSourceRecord, OfferSourceStore, StoreError,
};
use meshelf::wire::V2_MAX_LIVE_ENTRIES;

fn copy_card(card: &OfferCardRecord) -> OfferCardRecord {
    OfferCardRecord {
        source_device: card.source_device,
        offer_id: card.offer_id,
        descriptor: card.descriptor.clone(),
        received_sequence: card.received_sequence,
        availability: card.availability,
        last_attempt: None,
    }
}

fn copy_source(source: &OfferSource) -> OfferSource {
    match source {
        OfferSource::Text { text } => OfferSource::Text { text: text.clone() },
        OfferSource::File { canonical_path, metadata_commitment } => OfferSource::File {
            canonical_path: canonical_path.clone(),
            metadata_commitment: metadata_commitment.clone(),
        },
        OfferSource::Folder { canonical_path, metadata_commitment } => OfferSource::Folder {
            canonical_path: canonical_path.clone(),
            metadata_commitment: metadata_commitment.clone(),
        },
    }
}

fn copy_record(record: &OfferSourceRecord) -> OfferSourceRecord {
    OfferSourceRecord {
        offer_id: record.offer_id,
        descriptor: record.descriptor.clone(),
        creation_sequence: record.creation_sequence,
        announced_to: record.announced_to.clone(),
        source: copy_source(&record.source),
    }
}

#[derive(Default)]
struct Memory {
    cards: RefCell<Vec<OfferCardRecord>>,
    sources: RefCell<Vec<OfferSourceRecord>>,
}

impl OfferCardStore for &Memory {
    fn get_offer_card(
        &self,
        source_device: DeviceId,
        offer_id: OfferId,
    ) -> Result<Option<OfferCardRecord>, StoreError> {
        Ok(self
            .cards
            .borrow()
            .iter()
            .find(|card| card.source_device == source_device && card.offer_id == offer_id)
            .map(copy_card))
    }

    fn read_offer_shelf(&self) -> Result<Vec<OfferCardRecord>, StoreError> {
        Ok(self.cards.borrow().iter().map(copy_card).collect())
    }

    fn insert_offer_card(&mut self, input: OfferCardInput) -> Result<OfferCardInsert, StoreError> {
        let record = OfferCardRecord {
            source_device: input.source_device,
            offer_id: input.offer_id,
            descriptor: input.descriptor,
            received_sequence: 1,
            availability: input.availability,
            last_attempt: None,
        };
        self.cards.borrow_mut().push(copy_card(&record));
        Ok(OfferCardInsert { record, inserted: true, purged: 0 })
    }
}

impl OfferSourceStore for &Memory {
    fn insert_offer_source(
        &mut self,
        input: OfferSourceInput,
    ) -> Result<OfferSourceInsert, StoreError> {
        let mut sources = self.sources.borrow_mut();
        if let Some(known) = sources.iter().find(|record| record.offer_id == input.offer_id) {
            if known.descriptor != input.descriptor {
                return Err(StoreError::new("offer id conflict"));
            }
            return Ok(OfferSourceInsert {
                record: copy_record(known),
                inserted: false,
                purged: 0,
            });
        }
        let record = OfferSourceRecord {
            offer_id: input.offer_id,
            descriptor: input.descriptor,
            creation_sequence: 1,
            announced_to: input.announced_to,
            source: input.source,
        };
        sources.push(copy_record(&record));
        Ok(OfferSourceInsert { record, inserted: true, purged: 0 })
    }

    fn remove_explicit_refusal(
        &mut self,
        offer_id: OfferId,
        recipient: DeviceId,
    ) -> Result<OfferEligibilityUpdate, StoreError> {
        let mut sources = self.sources.borrow_mut();
        let Some(record) = sources.iter_mut().find(|record| record.offer_id == offer_id) else {
            return Err(StoreError::new("unknown offer"));
        };
        let before = record.announced_to.len();
        record.announced_to.retain(|device| *device != recipient);
        Ok(OfferEligibilityUpdate {
            recipient_was_eligible: record.announced_to.len() < before,
            offer_deleted: false,
            remaining_recipients: record.announced_to.len() as u32,
        })
    }

    fn get_offer_source(
        &self,
        offer_id: OfferId,
    ) -> Result<Option<OfferSourceRecord>, StoreError> {
        Ok(self
            .sources
            .borrow()
            .iter()
            .find(|record| record.offer_id == offer_id)
            .map(copy_record))
    }
}

struct FailingStore;

impl OfferSourceStore for FailingStore {
    fn insert_offer_source(
        &mut self,
        _input: OfferSourceInput,
    ) -> Result<OfferSourceInsert, StoreError> {
        Err(StoreError::new("injected commit failure"))
    }

    fn remove_explicit_refusal(
        &mut self,
        _offer_id: OfferId,
        _recipient: DeviceId,
    ) -> Result<OfferEligibilityUpdate, StoreError> {
        Err(StoreError::new("injected removal failure"))
    }

    fn get_offer_source(
        &self,
        _offer_id: OfferId,
    ) -> Result<Option<OfferSourceRecord>, StoreError> {
        unreachable!("not used")
    }
}

struct FailingCards;

impl OfferCardStore for FailingCards {
    fn get_offer_card(
        &self,
        _source_device: DeviceId,
        _offer_id: OfferId,
    ) -> Result<Option<OfferCardRecord>, StoreError> {
        unreachable!("not used")
    }

    fn read_offer_shelf(&self) -> Result<Vec<OfferCardRecord>, StoreError> {
        Err(StoreError::new("disk gone"))
    }

    fn insert_offer_card(&mut self, _input: OfferCardInput) -> Result<OfferCardInsert, StoreError> {
        unreachable!("not used")
    }
}

fn paired(identity: &InstallationIdentity) -> Vec<PairedPeer> {
    vec![PairedPeer {
        device_id: identity.device_id,
        hostname: "peer".to_owned(),
        addresses: vec![IpAddress::V4(0x6440_0002)],
        public_key: identity.public_key().to_vec(),
    }]
}

fn text_source(text: &str) -> Result<PreparedOfferSource, SourcePreparationError> {
    match prepare_source(OfferInput::Text(text.to_owned()))? {
        Preparation::Ready(prepared) => Ok(prepared),
        Preparation::Inspect(_) => panic!("a text needs no inspection"),
    }
}

type Coord<'a> = Coordinator<&'a Memory, &'a Memory>;

fn setup(memory: &Memory) -> (Coord<'_>, Vec<PairedPeer>, DeviceId) {
    let identity = InstallationIdentity::generate();
    let peer = InstallationIdentity::generate();
    let coordinator = Coordinator::new(identity.device_id, memory).with_card_store(memory);
    (coordinator, paired(&peer), peer.device_id)
}

#[test]
fn store_commit_precedes_first_announcement_plan() {
    let memory = Memory::default();
    let (mut coordinator, peers, peer_id) = setup(&memory);
    let plan = coordinator
        .create_offer(&peers, text_source("durable first"), 7)
        .expect("create")
        .expect("plan");
    let stored = (&memory).get_offer_source(plan.offer_id).expect("read source").expect("stored");
    assert_eq!(stored.announced_to, vec![peer_id]);
    assert_eq!(plan.announcements[0].device_id, peer_id);
    assert_eq!(plan.announcements[0].hostname, "peer");
    assert_eq!(plan.announcements[0].announcement.created_at_unix_ms, 7);
    assert_eq!(plan.announcements[0].announcement.source_device, coordinator.identity);
}

#[test]
fn store_failure_produces_zero_attempts() {
    let identity = InstallationIdentity::generate();
    let peer = InstallationIdentity::generate();
    let mut coordinator: Coordinator<FailingStore, FailingCards> =
        Coordinator::new(identity.device_id, FailingStore);
    let error = coordinator
        .create_offer(&paired(&peer), text_source("will fail"), 1)
        .expect_err("not stored");
    assert_eq!(error, "could not durably store offer: store error: injected commit failure");
    assert_eq!(
        coordinator
            .record_explicit_refusal(OfferId::new(), peer.device_id)
            .expect_err("not recorded"),
        "could not record explicit refusal: store error: injected removal failure"
    );
}

#[test]
fn no_peers_creates_no_offer() {
    let memory = Memory::default();
    let (mut coordinator, _peers, _peer_id) = setup(&memory);
    assert!(coordinator
        .create_offer(&Vec::new(), text_source("no recipient"), 1)
        .expect("create")
        .is_none());
    assert!(memory.sources.borrow().is_empty());
}

#[test]
fn duplicate_creation_is_idempotent_or_conflict() {
    let memory = Memory::default();
    let (mut coordinator, peers, _peer_id) = setup(&memory);
    let id = OfferId::new();
    let first = coordinator
        .create_offer_with_id(id, &peers, text_source("same"), 1)
        .expect("first")
        .expect("plan");
    let second = coordinator
        .create_offer_with_id(id, &peers, text_source("same"), 1)
        .expect("duplicate")
        .expect("plan");
    assert_eq!(first.offer_id, second.offer_id);
    assert_eq!(memory.sources.borrow().len(), 1);
    assert!(coordinator
        .create_offer_with_id(id, &peers, text_source("different"), 1)
        .is_err());
}

#[test]
fn coordinator_restart_reads_the_same_offer_authority() {
    let memory = Memory::default();
    let (mut coordinator, peers, _peer_id) = setup(&memory);
    let plan = coordinator
        .create_offer(&peers, text_source("survives resident restart"), 1)
        .expect("create")
        .expect("plan");
    drop(coordinator);
    let (reopened, _, _) = setup(&memory);
    assert_eq!(
        reopened
            .offer_store
            .get_offer_source(plan.offer_id)
            .expect("read")
            .expect("source")
            .announced_to
            .len(),
        1
    );
}

#[test]
fn an_unusable_source_stores_nothing() {
    let memory = Memory::default();
    let (mut coordinator, peers, _) = setup(&memory);
    assert_eq!(
        coordinator.create_offer(&peers, text_source(""), 1).expect_err("empty"),
        text_source("").expect_err("empty").describe()
    );
    assert!(memory.sources.borrow().is_empty());
}

#[test]
fn a_refusal_leaves_the_offer_to_the_others() {
    let memory = Memory::default();
    let (mut coordinator, peers, peer_id) = setup(&memory);
    let plan = coordinator.create_offer(&peers, text_source("x"), 1).expect("ok").expect("plan");
    coordinator.record_explicit_refusal(plan.offer_id, peer_id).expect("recorded");
    assert!(memory.sources.borrow()[0].announced_to.is_empty());
}

fn test_card(descriptor: OfferDescriptor, availability: CardAvailability) -> OfferCardRecord {
    OfferCardRecord {
        source_device: DeviceId::new(),
        offer_id: OfferId::new(),
        descriptor,
        received_sequence: 1,
        availability,
        last_attempt: None,
    }
}

fn report_card(availability: CardAvailability) -> OfferCardRecord {
    test_card(
        OfferDescriptor::File { root_name: "report.txt".to_owned(), total_bytes: 42 },
        availability,
    )
}

#[test]
fn alternate_text_activation_is_refused_locally_without_a_network_request() {
    let memory = Memory::default();
    let (mut coordinator, _, _) = setup(&memory);
    let card = test_card(
        OfferDescriptor::Text { utf8_bytes: 5, line_count: 1, preview: "hello".to_owned() },
        CardAvailability::Available,
    );
    let offer_id = card.offer_id;
    memory.cards.borrow_mut().push(card);
    let error = coordinator
        .plan_activation(offer_id, ActivationMode::Save, Ok(SaveDestination::Downloads))
        .expect_err("text save mode must be refused before transport");
    assert!(error.contains("text offers cannot use save activation"));
}

fn custom(path: &str) -> SaveDestination {
    SaveDestination::Custom { path: HostPath { text: path.to_owned(), absolute: true } }
}

fn custom_path(destination: Option<SaveDestination>) -> String {
    match destination {
        Some(SaveDestination::Custom { path }) => path.text,
        _ => panic!("expected a custom destination"),
    }
}

#[test]
fn custom_destination_change_affects_future_activations_only() {
    let memory = Memory::default();
    let (mut coordinator, _, _) = setup(&memory);
    let card = report_card(CardAvailability::Available);
    let offer_id = card.offer_id;
    memory.cards.borrow_mut().push(card);
    let first = coordinator
        .plan_activation(offer_id, ActivationMode::Save, Ok(custom("/first")))
        .expect("first plan");
    let second = coordinator
        .plan_activation(offer_id, ActivationMode::Save, Ok(custom("/second")))
        .expect("second plan");
    assert_eq!(custom_path(first.destination), "/first");
    assert_eq!(custom_path(second.destination), "/second");
}

#[test]
fn each_obstacle_to_a_plan_is_named() {
    let memory = Memory::default();
    let (mut coordinator, _, _) = setup(&memory);
    let card = report_card(CardAvailability::SourceChanged);
    let changed = card.offer_id;
    memory.cards.borrow_mut().push(card);
    let card = report_card(CardAvailability::SourceUnavailable);
    let offline = card.offer_id;
    memory.cards.borrow_mut().push(card);
    let missing = OfferId::from_uuid(4);
    let plan = |offer_id, mode, destination| coordinator.plan_activation(offer_id, mode, destination);
    assert_eq!(
        plan(missing, ActivationMode::Clipboard, Ok(SaveDestination::Downloads)).expect_err("none"),
        "offer 00000000-0000-0000-0000-000000000004 is not on this shelf"
    );
    assert_eq!(
        plan(changed, ActivationMode::Clipboard, Ok(SaveDestination::Downloads)).expect_err("changed"),
        "the offer source changed; activation is disabled"
    );
    assert_eq!(
        plan(offline, ActivationMode::Save, Err("no settings".to_owned())).expect_err("settings"),
        "no settings"
    );
    let planned = plan(offline, ActivationMode::Clipboard, Err("no settings".to_owned()))
        .expect("an offline source may be retried");
    assert!(planned.destination.is_none());
    let bare: Coordinator<&Memory, FailingCards> = Coordinator::new(DeviceId::new(), &memory);
    assert_eq!(bare.read_shelf().expect_err("none"), "v2 offer-card store is not configured");
    assert_eq!(
        bare.plan_activation(missing, ActivationMode::Save, Ok(SaveDestination::Downloads))
            .expect_err("none"),
        "v2 offer-card store is not configured"
    );
    let broken = bare.with_card_store(FailingCards);
    assert_eq!(
        broken.read_shelf().expect_err("broken"),
        "could not read offer shelf: store error: disk gone"
    );
}

fn text_announcement(
    source: DeviceId,
    target: DeviceId,
    offer_id: OfferId,
    text: &str,
) -> OfferAnnouncement {
    OfferAnnouncement::new(
        offer_id,
        source,
        target,
        1,
        OfferDescriptor::text(text).expect("descriptor"),
    )
}

fn check(announcement: &OfferAnnouncement) -> Result<(), String> {
    announcement.descriptor.validate().map_err(|error| error.describe())
}

#[test]
fn announcement_with_wrong_target_device_is_refused() {
    let memory = Memory::default();
    let mut handler = OfferAnnouncementHandler::new(&memory);
    let source = DeviceId::new();
    let announcement = text_announcement(source, DeviceId::new(), OfferId::new(), "wrong target");
    let valid = check(&announcement);
    let ack = handler
        .handle_sync(source, DeviceId::new(), announcement, valid)
        .expect("answer");
    assert_eq!(ack.code, OfferAckCode::RefusedInvalid);
    assert_eq!(ack.live_entries, 0);
    assert_eq!(ack.max_live_entries, V2_MAX_LIVE_ENTRIES);
    assert_eq!(ack.detail.as_deref(), Some("target device does not match listener"));
    assert!((&memory).read_offer_shelf().expect("read shelf").is_empty());
}

#[test]
fn announcement_of_another_device_is_refused() {
    let memory = Memory::default();
    let mut handler = OfferAnnouncementHandler::new(&memory);
    let target = DeviceId::new();
    let announcement = text_announcement(DeviceId::new(), target, OfferId::new(), "forged");
    let ack = handler.handle_sync(DeviceId::new(), target, announcement, Ok(())).expect("answer");
    assert_eq!(ack.code, OfferAckCode::RefusedInvalid);
    assert_eq!(
        ack.detail.as_deref(),
        Some("source device does not match authenticated client")
    );
}

#[test]
fn announcement_with_oversized_preview_is_refused_invalid() {
    let memory = Memory::default();
    let mut handler = OfferAnnouncementHandler::new(&memory);
    let source = DeviceId::new();
    let target = DeviceId::new();
    let announcement = OfferAnnouncement::new(
        OfferId::new(),
        source,
        target,
        1,
        OfferDescriptor::Text {
            utf8_bytes: 1,
            line_count: 1,
            preview: "x".repeat(MAX_OFFER_PREVIEW_BYTES + 1),
        },
    );
    let valid = check(&announcement);
    let ack = handler.handle_sync(source, target, announcement, valid).expect("answer");
    assert_eq!(ack.code, OfferAckCode::RefusedInvalid);
    assert_eq!(ack.live_entries, 0);
    assert_eq!(ack.max_live_entries, V2_MAX_LIVE_ENTRIES);
    assert_eq!(
        ack.detail.as_deref(),
        Some("invalid offer announcement: text preview is 257 bytes; maximum is 256")
    );
    assert!((&memory).read_offer_shelf().expect("read shelf").is_empty());
}

#[test]
fn identical_reannouncement_returns_duplicate_and_does_not_duplicate_the_card() {
    let memory = Memory::default();
    let mut handler = OfferAnnouncementHandler::new(&memory);
    let source = DeviceId::new();
    let target = DeviceId::new();
    let offer_id = OfferId::new();
    let announce = || text_announcement(source, target, offer_id, "same descriptor");
    let first = handler.handle_sync(source, target, announce(), Ok(())).expect("first");
    let duplicate = handler.handle_sync(source, target, announce(), Ok(())).expect("duplicate");
    assert_eq!(first.code, OfferAckCode::Stored);
    assert_eq!(first.live_entries, 1);
    assert_eq!(duplicate.code, OfferAckCode::Duplicate);
    assert_eq!(duplicate.live_entries, 1);
    assert_eq!((&memory).read_offer_shelf().expect("read shelf").len(), 1);
}

#[test]
fn same_offer_id_with_different_descriptor_returns_conflict() {
    let memory = Memory::default();
    let mut handler = OfferAnnouncementHandler::new(&memory);
    let source = DeviceId::new();
    let target = DeviceId::new();
    let offer_id = OfferId::new();
    let first = text_announcement(source, target, offer_id, "first");
    let second = text_announcement(source, target, offer_id, "different");
    assert_eq!(
        handler.handle_sync(source, target, first, Ok(())).expect("first").code,
        OfferAckCode::Stored
    );
    let conflict = handler.handle_sync(source, target, second, Ok(())).expect("conflict");
    assert_eq!(conflict.code, OfferAckCode::RefusedConflict);
    assert_eq!(conflict.live_entries, 1);
    assert_eq!((&memory).read_offer_shelf().expect("read shelf").len(), 1);
}

#[test]
fn eleventh_card_returns_capacity_with_ten_of_ten_counts() {
    let memory = Memory::default();
    let mut handler = OfferAnnouncementHandler::new(&memory);
    let source = DeviceId::new();
    let target = DeviceId::new();
    for index in 0..V2_MAX_LIVE_ENTRIES {
        let ack = handler
            .handle_sync(
                source,
                target,
                text_announcement(source, target, OfferId::new(), &format!("card {index}")),
                Ok(()),
            )
            .expect("announcement within capacity");
        assert_eq!(ack.code, OfferAckCode::Stored);
    }
    let eleventh = handler
        .handle_sync(
            source,
            target,
            text_announcement(source, target, OfferId::new(), "eleventh"),
            Ok(()),
        )
        .expect("capacity acknowledgement");
    assert_eq!(eleventh.code, OfferAckCode::RefusedCapacity);
    assert_eq!(eleventh.live_entries, V2_MAX_LIVE_ENTRIES);
    assert_eq!(eleventh.max_live_entries, V2_MAX_LIVE_ENTRIES);
    assert_eq!((&memory).read_offer_shelf().expect("read shelf").len(), 10);
}

#[test]
fn a_broken_store_is_reported_as_such() {
    let mut handler = OfferAnnouncementHandler::new(FailingCards);
    let source = DeviceId::new();
    let result =
        handler.handle_sync(source, source, text_announcement(source, source, OfferId::new(), "x"), Ok(()));
    assert!(matches!(
        result,
        Err(NetError::OfferStorage(text)) if text == "store error: disk gone"
    ));
}

#[test]
fn a_new_card_is_stored_as_announced() {
    let source = DeviceId::new();
    let announcement = text_announcement(source, source, OfferId::from_uuid(3), "x");
    assert!(answer_from_shelf(&announcement, &None, 9).is_none());
    let card = announced_card(announcement, source);
    assert_eq!(card.offer_id, OfferId::from_uuid(3));
    assert_eq!(card.source_device, source);
    assert_eq!(card.availability, CardAvailability::Available);
    assert!(card.validate().is_ok());
}

#[test]
fn announcement_card_insert_wakes_the_shelf_subscriber() {
    let memory = Memory::default();
    let source = InstallationIdentity::generate();
    let target = InstallationIdentity::generate();
    let mut notifier = ShelfChangeNotifier::new();
    let subscriber = notifier.subscribe().expect("subscriber");
    let mut handler =
        OfferAnnouncementHandler::new(NotifyingOfferCardStore::new(&memory, notifier));
    let announcement = OfferAnnouncement::new(
        OfferId::new(),
        source.device_id,
        target.device_id,
        1,
        OfferDescriptor::text("announced metadata").expect("descriptor"),
    );

    let ack = handler
        .handle_sync(source.device_id, target.device_id, announcement, Ok(()))
        .expect("announcement");

    assert_eq!(ack.code, OfferAckCode::Stored);
    assert!(handler.store.shelf_changes.received(subscriber));
}

#[test]
fn shelf_updates_without_a_timer() {
    let memory = Memory::default();
    let source = InstallationIdentity::generate();
    let target = InstallationIdentity::generate();
    let mut notifier = ShelfChangeNotifier::new();
    let subscriber = notifier.subscribe().expect("subscriber");
    let mut handler =
        OfferAnnouncementHandler::new(NotifyingOfferCardStore::new(&memory, notifier));
    let announcement = OfferAnnouncement::new(
        OfferId::new(),
        source.device_id,
        target.device_id,
        1,
        OfferDescriptor::text("announced metadata").expect("descriptor"),
    );
    let offer_id = announcement.offer_id;

    let ack = handler
        .handle_sync(source.device_id, target.device_id, announcement, Ok(()))
        .expect("announcement");

    assert_eq!(ack.code, OfferAckCode::Stored);
    assert!(handler.store.shelf_changes.received(subscriber));

    let records = handler.store.read_offer_shelf().expect("shelf snapshot");
    let rows = shelf_rows(
        &HashMap::new(),
        &ActiveActivations::<()>::new(),
        records,
        Keyboard::Other,
    );
    assert_eq!(rows[0].offer_id, offer_id.text());
}

#[test]
fn listeners_are_told_of_each_change_once() {
    let mut notifier = ShelfChangeNotifier::default();
    let early = notifier.subscribe().expect("early");
    notifier.notify();
    let late = notifier.subscribe().expect("late");
    assert!(!notifier.received(late));
    notifier.notify();
    assert!(notifier.received(early));
    assert!(notifier.received(early));
    assert!(!notifier.received(early));
    notifier.unsubscribe(late);
    assert!(!notifier.received(late));
    notifier.notify();
    assert!(!notifier.received(late));
    assert!(!notifier.received(99));
}

#[test]
fn a_created_offer_wakes_the_watchers() {
    let memory = Memory::default();
    let (mut coordinator, peers, _) = setup(&memory);
    let watcher = coordinator.shelf_changes().subscribe().expect("watcher");
    coordinator.create_offer(&peers, text_source("x"), 1).expect("created");
    assert!(coordinator.shelf_changes().received(watcher));
    coordinator.create_offer(&Vec::new(), text_source("x"), 1).expect("nobody");
    assert!(!coordinator.shelf_changes().received(watcher));
}

#[test]
fn a_new_card_wakes_the_watchers_of_the_coordinator() {
    let memory = Memory::default();
    let mut early: Coord<'_> = Coordinator::new(DeviceId::new(), &memory);
    let watcher = early.shelf_changes().subscribe().expect("watcher");
    assert!(early.card_store().is_none());
    let mut coordinator = early.with_card_store(&memory);
    let insert = |coordinator: &mut Coord<'_>| {
        coordinator
            .card_store()
            .expect("cards")
            .insert_offer_card(OfferCardInput::new(
                DeviceId::new(),
                OfferId::new(),
                OfferDescriptor::text("card").expect("descriptor"),
                CardAvailability::Available,
            ))
            .expect("inserted")
    };
    assert!(insert(&mut coordinator).inserted);
    assert!(coordinator.shelf_changes().received(watcher));
    assert!(!coordinator.shelf_changes().received(watcher));
    assert_eq!(coordinator.read_shelf().expect("shelf").len(), 1);
    assert_eq!(memory.cards.borrow().len(), 1);
}

/// A store that knows every card already.
struct KnowingCards;

impl OfferCardStore for KnowingCards {
    fn get_offer_card(
        &self,
        _source_device: DeviceId,
        _offer_id: OfferId,
    ) -> Result<Option<OfferCardRecord>, StoreError> {
        Ok(None)
    }

    fn read_offer_shelf(&self) -> Result<Vec<OfferCardRecord>, StoreError> {
        Ok(vec![report_card(CardAvailability::Available)])
    }

    fn insert_offer_card(&mut self, _input: OfferCardInput) -> Result<OfferCardInsert, StoreError> {
        Ok(OfferCardInsert {
            record: report_card(CardAvailability::Available),
            inserted: false,
            purged: 2,
        })
    }
}

#[test]
fn a_known_card_wakes_nobody_and_is_a_duplicate() {
    let mut notifier = ShelfChangeNotifier::new();
    let watcher = notifier.subscribe().expect("watcher");
    let mut handler =
        OfferAnnouncementHandler::new(NotifyingOfferCardStore::new(KnowingCards, notifier));
    let source = DeviceId::new();
    let ack = handler
        .handle_sync(source, source, text_announcement(source, source, OfferId::new(), "x"), Ok(()))
        .expect("answer");
    assert_eq!(ack.code, OfferAckCode::Duplicate);
    assert_eq!(ack.live_entries, 1);
    assert_eq!(ack.pruned_entries, 2);
    assert!(!handler.store.shelf_changes.received(watcher));
}

#[test]
fn a_full_shelf_still_knows_its_cards() {
    let memory = Memory::default();
    let mut handler = OfferAnnouncementHandler::new(&memory);
    let source = DeviceId::new();
    let mut ids = Vec::new();
    for index in 0..V2_MAX_LIVE_ENTRIES {
        let id = OfferId::new();
        ids.push(id);
        handler
            .handle_sync(
                source,
                source,
                text_announcement(source, source, id, &format!("card {index}")),
                Ok(()),
            )
            .expect("stored");
    }
    let again = handler
        .handle_sync(source, source, text_announcement(source, source, ids[3], "card 3"), Ok(()))
        .expect("answer");
    assert_eq!((again.code, again.live_entries, again.pruned_entries), (OfferAckCode::Duplicate, 10, 0));
    let other = handler
        .handle_sync(source, source, text_announcement(source, source, ids[3], "card 4"), Ok(()))
        .expect("answer");
    assert_eq!(
        (other.code, other.live_entries, other.pruned_entries),
        (OfferAckCode::RefusedConflict, 10, 0)
    );
    assert_eq!(memory.cards.borrow().len(), 10);
}

#[derive(Default)]
struct RecordingRuntime {
    announces: RefCell<usize>,
    activations: RefCell<usize>,
}

impl LocalRuntime for RecordingRuntime {
    fn announce(&self, _plan: &OfferPlan) -> Result<(), String> {
        *self.announces.borrow_mut() += 1;
        Ok(())
    }

    fn activate(&self, _plan: &meshelf::coordinator::ActivationPlan) -> Result<(), String> {
        *self.activations.borrow_mut() += 1;
        Ok(())
    }
}

fn settings() -> UserSettings {
    UserSettings {
        schema_version: settings_schema_version(),
        save_destination: SaveDestination::Downloads,
    }
}

fn resident(
    coordinator: &mut Coord<'_>,
    peers: &Vec<PairedPeer>,
    request: LocalRequest,
    runtime: &impl LocalRuntime,
) -> LocalResponse {
    let mut step = dispatch(request);
    loop {
        let event = match &step {
            DispatchStep::Respond(_) => break,
            DispatchStep::CreateOffer(OfferInput::Text(text)) => {
                DispatchEvent::OfferCreated(coordinator.create_offer(peers, text_source(text), 1))
            }
            DispatchStep::CreateOffer(OfferInput::Path(path)) => panic!("no files here: {path}"),
            DispatchStep::Announce(plan) => DispatchEvent::Done(runtime.announce(plan)),
            DispatchStep::RecordRefusal { offer_id, recipient } => {
                DispatchEvent::Done(coordinator.record_explicit_refusal(*offer_id, *recipient))
            }
            DispatchStep::LoadSettings | DispatchStep::StoreSettings(_) => {
                DispatchEvent::Settings(Ok(settings()))
            }
            DispatchStep::ReadShelf => DispatchEvent::Shelf(coordinator.read_shelf()),
            DispatchStep::PlanActivation { offer_id, mode } => DispatchEvent::Planned(
                coordinator.plan_activation(*offer_id, *mode, Ok(SaveDestination::Downloads)),
            ),
            DispatchStep::Activate(plan) => DispatchEvent::Done(runtime.activate(plan)),
        };
        step = dispatch_with_runtime(step, event);
    }
    match step {
        DispatchStep::Respond(response) => response,
        _ => unreachable!(),
    }
}

#[test]
fn one_mib_worst_case_text_serializes_within_control_bound() {
    let request = LocalRequest::AnnounceText { text: "\0".repeat(MAX_TEXT_BYTES) };
    encode_request(&request).expect("bounded worst-case request");
    let LocalRequest::AnnounceText { text } = &request else { unreachable!() };
    let body = serde_json::to_string(text).expect("encoded text");
    let encoded =
        format!("{{\"type\":\"announce_text\",\"body\":{{\"text\":{body}}}}}").into_bytes();
    assert!(encoded.len() > 64 * 1024);
    assert!(encoded.len() <= MAX_SERIALIZED_TEXT_REQUEST_BYTES);
    assert_eq!(decode_request(encoded.len()), Ok(()));
}

#[test]
fn oversized_requests_are_refused() {
    let request = LocalRequest::AnnounceText { text: "a".repeat(MAX_TEXT_BYTES + 1) };
    assert_eq!(
        encode_request(&request).expect_err("too long"),
        "text exceeds the 1 MiB meshelf limit"
    );
    assert!(matches!(
        dispatch(request),
        DispatchStep::Respond(LocalResponse::Error { message })
            if message == "text exceeds the 1 MiB meshelf limit"
    ));
    assert_eq!(
        decode_request(6_307_841).expect_err("too long"),
        "serialized control request is 6307841 bytes; maximum is 6307840"
    );
}

#[test]
fn local_request_dispatches_to_resident_coordinator() {
    let memory = Memory::default();
    let (mut coordinator, peers, _) = setup(&memory);
    let response = resident(
        &mut coordinator,
        &peers,
        LocalRequest::AnnounceText { text: "resident text".to_owned() },
        &NoopRuntime,
    );
    assert!(matches!(
        response,
        LocalResponse::OfferCreated { announcements, .. } if announcements.len() == 1
    ));
}

#[test]
fn production_paste_calls_announce_not_push() {
    let memory = Memory::default();
    let (mut coordinator, peers, _) = setup(&memory);
    let runtime = RecordingRuntime::default();
    let response = resident(
        &mut coordinator,
        &peers,
        LocalRequest::AnnounceText { text: "paste".to_owned() },
        &runtime,
    );
    assert!(matches!(response, LocalResponse::OfferCreated { .. }));
    assert_eq!(*runtime.announces.borrow(), 1);
    assert_eq!(*runtime.activations.borrow(), 0);
}

#[test]
fn production_card_activation_calls_fetch() {
    let memory = Memory::default();
    let (mut coordinator, peers, source_device) = setup(&memory);
    (&memory)
        .insert_offer_card(OfferCardInput::new(
            source_device,
            OfferId::new(),
            OfferDescriptor::text("card").expect("descriptor"),
            CardAvailability::Available,
        ))
        .expect("card");
    let offer_id = (&memory).read_offer_shelf().expect("shelf")[0].offer_id;
    let runtime = RecordingRuntime::default();
    let response = resident(
        &mut coordinator,
        &peers,
        LocalRequest::ActivateOffer { offer_id, mode: ActivationMode::Clipboard },
        &runtime,
    );
    assert!(matches!(response, LocalResponse::ActivationStarted { .. }));
    assert_eq!(*runtime.activations.borrow(), 1);
}

#[test]
fn no_v1_push_symbol_is_reachable_from_production_composition() {
    let memory = Memory::default();
    let (mut coordinator, peers, _) = setup(&memory);
    let runtime = RecordingRuntime::default();
    let response = resident(
        &mut coordinator,
        &peers,
        LocalRequest::AnnounceText { text: "production".to_owned() },
        &runtime,
    );
    assert!(matches!(response, LocalResponse::OfferCreated { .. }));
    assert_eq!(*runtime.announces.borrow(), 1);
    assert_eq!(*runtime.activations.borrow(), 0);
}

#[test]
fn every_request_is_answered() {
    let memory = Memory::default();
    let (mut coordinator, peers, peer_id) = setup(&memory);
    let runtime = RecordingRuntime::default();
    let mut ask = |request| resident(&mut coordinator, &peers, request, &runtime);
    assert!(matches!(ask(LocalRequest::Shelf), LocalResponse::Shelf { offers } if offers.is_empty()));
    assert!(matches!(ask(LocalRequest::GetSettings), LocalResponse::Settings { .. }));
    assert!(matches!(
        ask(LocalRequest::SetSettings { settings: settings() }),
        LocalResponse::Settings { .. }
    ));
    assert!(matches!(
        ask(LocalRequest::RecordExplicitRefusal { offer_id: OfferId::new(), recipient: peer_id }),
        LocalResponse::Error { .. }
    ));
    assert!(matches!(
        ask(LocalRequest::ActivateOffer {
            offer_id: OfferId::new(),
            mode: ActivationMode::Clipboard
        }),
        LocalResponse::ActivationRefused { .. }
    ));
    let id = ActivationId::new();
    assert!(matches!(
        ask(LocalRequest::CancelActivation { activation_id: id }),
        LocalResponse::ActivationCancelled { activation_id } if activation_id == id
    ));
    assert_eq!(*runtime.activations.borrow(), 0);
    let lonely = resident(
        &mut coordinator,
        &Vec::new(),
        LocalRequest::AnnounceText { text: "x".to_owned() },
        &runtime,
    );
    assert!(matches!(lonely, LocalResponse::NoPeers));
    assert_eq!(*runtime.announces.borrow(), 0);
}
