use meshelf::client::{probe, probe_hello, HelloFrame};
use meshelf::controller::PairedPeer;
use meshelf::coordinator::Coordinator;
use meshelf::failure::IoKind;
use meshelf::ids::{DeviceId, OfferId};
use meshelf::model::ContentKind;
use meshelf::net::IpAddress;
use meshelf::net_error::NetError;
use meshelf::receive::Attempt;
use meshelf::receiver::record_attempt;
use meshelf::report::announce_target;
use meshelf::service::OwnerRegistry;
use meshelf::settings::UserSettings;
use meshelf::staging::{
    cleanup_staging, finalize_payload, prepare_staging, remove_published_cache_object,
    staging_removal_failed, CacheRemoval, Finalization, IoFault, RemovalEvent, StagingCleanup,
    StagingStep,
};
use meshelf::store::{
    OfferAttemptCode, OfferCardInput, OfferCardInsert, OfferCardRecord, OfferCardStore,
    OfferEligibilityUpdate, OfferSourceInput, OfferSourceInsert, OfferSourceRecord,
    OfferSourceStore, StoreError,
};
use meshelf::wire::{FileEntryKind, ManifestEntry};

fn entry(path: &str, kind: FileEntryKind, byte_len: u64) -> ManifestEntry {
    ManifestEntry { relative_path: path.to_owned(), kind, byte_len }
}

fn shown(steps: &[StagingStep]) -> Vec<String> {
    steps
        .iter()
        .map(|step| match step {
            StagingStep::EnsureParent => "parent".to_owned(),
            StagingStep::CreateRoot => "root".to_owned(),
            StagingStep::EnsurePayload => "payload".to_owned(),
            StagingStep::EnsureDirectory(path) => format!("dir {}", path.join("/")),
            StagingStep::CreateFile { path, byte_len } => {
                format!("file {} {byte_len}", path.join("/"))
            }
            StagingStep::SyncRoot => "sync".to_owned(),
        })
        .collect()
}

#[test]
fn a_folder_is_staged_from_the_top_down() {
    let entries = vec![
        entry("a/b/c", FileEntryKind::Directory, 0),
        entry("a/b/c/f", FileEntryKind::File, 7),
        entry("a", FileEntryKind::Directory, 0),
        entry("a/b", FileEntryKind::Directory, 0),
        entry("z", FileEntryKind::Directory, 0),
        entry("g", FileEntryKind::File, 0),
    ];
    assert_eq!(
        shown(&prepare_staging(ContentKind::Folder, &entries)),
        [
            "parent", "root", "payload", "dir a", "dir z", "dir a/b", "dir a/b/c", "file a/b/c/f 7",
            "file g 0", "sync",
        ]
    );
    let single = vec![entry("f.bin", FileEntryKind::File, 3)];
    assert_eq!(
        shown(&prepare_staging(ContentKind::File, &single)),
        ["parent", "root", "file  3", "sync"]
    );
}

fn fault(kind: IoKind) -> IoFault {
    IoFault { kind, text: "io".to_owned() }
}

#[test]
fn a_cleanup_removes_the_tree_and_an_empty_parent() {
    let done = || RemovalEvent::Done(Ok(()));
    let step = cleanup_staging(StagingCleanup::RemoveTree, done(), true);
    assert!(matches!(step, StagingCleanup::InspectParent));
    let step = cleanup_staging(step, RemovalEvent::Inspected(Ok(true)), true);
    assert!(matches!(step, StagingCleanup::CheckParent { is_directory: true }));
    let step = cleanup_staging(step, done(), true);
    assert!(matches!(step, StagingCleanup::RemoveParent));
    for (kind, ends_well) in [
        (IoKind::DirectoryNotEmpty, true),
        (IoKind::NotFound, true),
        (IoKind::Other, false),
    ] {
        let step = cleanup_staging(
            StagingCleanup::RemoveParent,
            RemovalEvent::Done(Err(fault(kind))),
            true,
        );
        let StagingCleanup::Finished(result) = step else { panic!("not finished") };
        assert_eq!(result.is_ok(), ends_well);
    }
    assert!(matches!(
        cleanup_staging(StagingCleanup::RemoveTree, RemovalEvent::Done(Err(fault(IoKind::Other))), true),
        StagingCleanup::Finished(Err(_))
    ));
    assert!(matches!(
        cleanup_staging(StagingCleanup::RemoveTree, done(), false),
        StagingCleanup::Finished(Ok(()))
    ));
    assert!(!staging_removal_failed(&Ok(())));
    assert!(!staging_removal_failed(&Err(fault(IoKind::NotFound))));
    assert!(staging_removal_failed(&Err(fault(IoKind::Other))));
}

#[test]
fn published_content_is_removed_as_what_it_is() {
    let inspected = |r| remove_published_cache_object(CacheRemoval::Inspect, RemovalEvent::Inspected(r));
    assert!(matches!(
        inspected(Err(fault(IoKind::NotFound))),
        CacheRemoval::Finished(Ok(()))
    ));
    assert!(matches!(inspected(Err(fault(IoKind::Other))), CacheRemoval::Finished(Err(_))));
    let folder = remove_published_cache_object(inspected(Ok(true)), RemovalEvent::Done(Ok(())));
    assert!(matches!(folder, CacheRemoval::RemoveTree));
    let file = remove_published_cache_object(inspected(Ok(false)), RemovalEvent::Done(Ok(())));
    assert!(matches!(file, CacheRemoval::RemoveFile));
    assert!(matches!(
        remove_published_cache_object(file, RemovalEvent::Done(Ok(()))),
        CacheRemoval::Finished(Ok(()))
    ));
}

#[test]
fn a_name_that_is_taken_is_told_from_other_failures() {
    let next = |step, result| finalize_payload(step, result, ContentKind::File, true);
    let step = next(Finalization::CheckPayload, Ok(()));
    let step = next(step, Ok(()));
    assert!(matches!(step, Finalization::LinkFile));
    let taken = next(step, Err(fault(IoKind::AlreadyExists)));
    assert!(matches!(taken, Finalization::Finished { result: Err(NetError::Io(_)), name_taken: true }));
    let failed = next(Finalization::LinkFile, Err(fault(IoKind::Other)));
    assert!(matches!(failed, Finalization::Finished { result: Err(_), name_taken: false }));
    let step = next(Finalization::LinkFile, Ok(()));
    assert!(matches!(step, Finalization::RemoveStaged));
    assert!(matches!(
        next(step, Ok(())),
        Finalization::Finished { result: Ok(()), name_taken: false }
    ));
    assert!(matches!(
        finalize_payload(Finalization::RequireParent, Ok(()), ContentKind::Folder, true),
        Finalization::RenameFolder
    ));
    assert!(matches!(
        finalize_payload(Finalization::CheckPayload, Ok(()), ContentKind::Folder, false),
        Finalization::Finished { result: Err(NetError::FileTransfer(text)), .. }
            if text == "destination has no parent"
    ));
}

#[test]
fn an_announcement_goes_to_the_preferred_address_of_its_peer() {
    let peer = |id, addresses| PairedPeer {
        device_id: DeviceId::from_uuid(id),
        hostname: "peer".to_owned(),
        addresses,
        public_key: vec![id as u8; 32],
    };
    let peers = vec![peer(1, Vec::new()), peer(2, vec![IpAddress::V6(9), IpAddress::V4(8)])];
    let offer = OfferId::from_uuid(5);
    let target = announce_target(&peers, DeviceId::from_uuid(2), offer).expect("target");
    assert_eq!(target.address.ip, IpAddress::V4(8));
    assert_eq!(target.address.port, 45832);
    assert_eq!(target.nonce, offer.text());
    assert_eq!(target.public_key, vec![2; 32]);
    assert!(announce_target(&peers, DeviceId::from_uuid(1), offer).is_none());
    assert!(announce_target(&peers, DeviceId::from_uuid(3), offer).is_none());
}

#[test]
fn a_probe_takes_whatever_a_server_says() {
    let device = DeviceId::new();
    let hello = probe_hello(device);
    assert_eq!(hello.device_name, "meshelf-discovery");
    assert_eq!(hello.nonce, device.text());
    assert!(hello.signature.is_empty());
    assert!(matches!(
        probe(Ok(HelloFrame::Client)),
        Err(NetError::UnexpectedMessage(text)) if text == "expected server_hello"
    ));
    assert!(matches!(
        probe(Err(NetError::Timeout("probe connect".to_owned()))),
        Err(NetError::Timeout(_))
    ));
}

#[test]
fn equal_store_paths_share_an_owner() {
    let mut registry = OwnerRegistry::new();
    let first = registry.shared_owner("/a");
    let second = registry.shared_owner("/b");
    assert_ne!(first, second);
    assert_eq!(registry.shared_owner("/a"), first);
    assert_eq!(registry.shared_owner("/b"), second);
}

struct NoStore;

impl OfferSourceStore for NoStore {
    fn insert_offer_source(&mut self, _: OfferSourceInput) -> Result<OfferSourceInsert, StoreError> {
        unreachable!()
    }

    fn remove_explicit_refusal(
        &mut self,
        _: OfferId,
        _: DeviceId,
    ) -> Result<OfferEligibilityUpdate, StoreError> {
        unreachable!()
    }

    fn get_offer_source(&self, _: OfferId) -> Result<Option<OfferSourceRecord>, StoreError> {
        unreachable!()
    }
}

impl OfferCardStore for NoStore {
    fn get_offer_card(
        &self,
        _: DeviceId,
        _: OfferId,
    ) -> Result<Option<OfferCardRecord>, StoreError> {
        unreachable!()
    }

    fn read_offer_shelf(&self) -> Result<Vec<OfferCardRecord>, StoreError> {
        unreachable!()
    }

    fn insert_offer_card(&mut self, _: OfferCardInput) -> Result<OfferCardInsert, StoreError> {
        unreachable!()
    }
}

#[test]
fn settings_failures_say_which_way_they_went() {
    type C = Coordinator<NoStore, NoStore>;
    assert!(C::settings(Ok(UserSettings::default())).is_ok());
    assert_eq!(
        C::settings(Err("x".to_owned())).expect_err("load"),
        "could not load meshelf settings: x"
    );
    assert_eq!(
        C::update_settings(Err("x".to_owned())).expect_err("save"),
        "could not save meshelf settings: x"
    );
}

#[test]
fn an_attempt_is_recorded_with_its_counts() {
    let attempt = |detail: Option<String>| Attempt {
        code: OfferAttemptCode::Failed,
        files: 2,
        bytes: 9,
        detail,
    };
    let status = record_attempt(attempt(Some("x".to_owned()))).expect("recorded");
    assert_eq!(status.code, OfferAttemptCode::Failed);
    assert_eq!(status.files_processed, 2);
    assert_eq!(status.bytes_processed, 9);
    assert_eq!(status.detail.as_deref(), Some("x"));
}
