use meshelf::ids::{DeviceId, OfferId};
use meshelf::manifest::{validate_manifest, Manifest};
use meshelf::offer::{OfferDescriptor, MAX_OFFER_FILE_BYTES, MAX_OFFER_PREVIEW_BYTES};
use meshelf::offer_source::{
    inspect_path, portable_name, prepare_path, prepare_source, walk_directory, CanonicalPath,
    OfferInput, PathPreparation, Preparation, PreparedOfferSource, SourcePreparationError,
};
use meshelf::send::{fetch_header, manifest_end, FetchRequest};
use meshelf::source::{
    metadata_digest, validate_offer_component, validate_source_component, SourceMetadata,
    Timestamp,
};
use meshelf::source_plan::{
    build_file_plan, build_folder_plan, build_source_plan, finish_plan, start_folder_plan,
    OfferSource, PlanKind, SourceFailure, SourcePlan,
};
use meshelf::walk::{Walk, WalkEvent, WalkStep};
use meshelf::wire::{
    FetchAdmissionCode, FetchHeader, FileEntryKind, ManifestEnd, ManifestEntry, V2Limits,
};
use sha2::{Digest, Sha256};

fn limits() -> V2Limits {
    V2Limits {
        max_file_bytes: 1 << 33,
        max_transfer_bytes: 1 << 34,
        max_manifest_entries: 4096,
        max_manifest_bytes: 1 << 20,
        max_relative_path_bytes: 4096,
        max_component_bytes: 255,
        stream_buffer_bytes: 4,
    }
}

fn metadata(is_file: bool, is_directory: bool, len: u64) -> SourceMetadata {
    SourceMetadata {
        is_symlink: false,
        is_file,
        is_directory,
        len,
        readonly: false,
        identity: vec![1, 2, 3],
        modified: Some(Timestamp { seconds: 5, nanoseconds: 6 }),
    }
}

/// Paths below the root, directories ending in a slash.
const TREE: [(&str, u64); 4] = [("b.txt", 5), ("empty/", 0), ("nested/", 0), ("nested/a.txt", 5)];

fn listing(tree: &[(&str, u64)], directory: &str) -> Vec<Vec<u8>> {
    let prefix = if directory.is_empty() { String::new() } else { format!("{directory}/") };
    let mut names = Vec::new();
    for (path, _) in tree.iter().rev() {
        let Some(rest) = path.strip_prefix(&prefix) else { continue };
        let name = rest.strip_suffix('/').unwrap_or(rest);
        if !name.is_empty() && !name.contains('/') {
            names.push(name.as_bytes().to_vec());
        }
    }
    names
}

fn found(tree: &[(&str, u64)], path: &str) -> SourceMetadata {
    let folder = format!("{path}/");
    for (entry, len) in tree {
        if *entry == path {
            return metadata(true, false, *len);
        }
        if *entry == folder {
            return metadata(false, true, 0);
        }
    }
    panic!("{path} is not in the tree")
}

fn walked(mut walk: Walk, tree: &[(&str, u64)]) -> Walk {
    loop {
        let event = match &walk.step {
            WalkStep::List(path) => WalkEvent::Listed(Ok(listing(tree, path))),
            WalkStep::Inspect(path) => WalkEvent::Inspected(Ok(found(tree, path))),
            WalkStep::Finished(_) => return walk,
        };
        walk = walk.walk_folder(event);
    }
}

fn canonical(path: &str, name: &str) -> CanonicalPath {
    CanonicalPath { path: path.to_owned(), name: Some(name.to_owned()) }
}

fn prepared_folder(tree: &[(&str, u64)]) -> Result<PreparedOfferSource, SourcePreparationError> {
    match prepare_path(canonical("/home/package", "package"), metadata(false, true, 0))? {
        PathPreparation::Walk(root_name, walk) => {
            walk_directory(root_name, "/home/package".to_owned(), walked(walk, tree))
        }
        PathPreparation::Ready(_) => panic!("a folder is walked"),
    }
}

fn prepared_file(len: u64) -> PreparedOfferSource {
    match prepare_path(canonical("/home/file.txt", "file.txt"), metadata(true, false, len)) {
        Ok(PathPreparation::Ready(prepared)) => prepared,
        _ => panic!("expected a file"),
    }
}

#[test]
fn text_offer_persists_exact_body_and_bounded_preview() {
    let text = format!("{}🙂\n\u{0007}tail", "a".repeat(300));
    let Ok(Preparation::Ready(prepared)) = prepare_source(OfferInput::Text(text.clone())) else {
        panic!("expected text source");
    };
    let OfferSource::Text { text: stored } = &prepared.source else {
        panic!("expected text source");
    };
    assert_eq!(stored, &text);
    let OfferDescriptor::Text { preview, .. } = prepared.descriptor else {
        panic!("expected text descriptor");
    };
    assert!(preview.len() <= MAX_OFFER_PREVIEW_BYTES);
    assert!(!preview.contains('\n'));
    assert!(!preview.contains('\u{0007}'));
}

#[test]
fn file_offer_retains_canonical_path_without_payload() {
    let prepared = prepared_file(28);
    let OfferSource::File { canonical_path, metadata_commitment } = prepared.source else {
        panic!("expected file source");
    };
    assert_eq!(canonical_path, "/home/file.txt");
    assert_eq!(metadata_commitment.len(), 32);
}

#[test]
fn folder_offer_retains_no_manifest() {
    let prepared = prepared_folder(&[("nested/", 0), ("nested/item.txt", 4)]).expect("folder");
    let OfferSource::Folder { canonical_path, metadata_commitment } = prepared.source else {
        panic!("expected folder source");
    };
    assert_eq!(canonical_path, "/home/package");
    assert_eq!(metadata_commitment.len(), 32);
    assert!(matches!(prepared.descriptor, OfferDescriptor::Folder { .. }));
}

#[test]
fn source_preparation_rejects_symlink_and_special_file() {
    let mut link = metadata(true, false, 4);
    link.is_symlink = true;
    assert!(matches!(inspect_path(Ok(link)), Err(SourcePreparationError::Symlink)));
    assert!(matches!(
        prepare_path(canonical("/home/fifo", "fifo"), metadata(false, false, 0)),
        Err(SourcePreparationError::SpecialFile)
    ));
}

#[test]
fn classifies_text_and_future_file_items() {
    assert!(matches!(
        prepare_source(OfferInput::Text("ordinary text".to_owned())),
        Ok(Preparation::Ready(PreparedOfferSource { source: OfferSource::Text { .. }, .. }))
    ));
    assert!(matches!(
        prepare_source(OfferInput::Path("/home/example.txt".to_owned())),
        Ok(Preparation::Inspect(path)) if path == "/home/example.txt"
    ));
    assert!(matches!(prepared_file(7).source, OfferSource::File { .. }));
    assert!(matches!(
        prepared_folder(&[]).expect("folder source").source,
        OfferSource::Folder { .. }
    ));
    assert!(matches!(
        prepare_source(OfferInput::Text("C:\\future\\item.txt".to_owned())),
        Ok(Preparation::Ready(PreparedOfferSource { source: OfferSource::Text { .. }, .. }))
    ));
}

#[test]
fn prepares_nested_folder_manifest_in_stable_order() {
    let prepared = prepared_folder(&TREE).expect("prepare folder");
    assert_eq!(
        prepared.descriptor,
        OfferDescriptor::Folder {
            root_name: "package".to_owned(),
            total_bytes: 10,
            entry_count: 4,
            file_count: 2,
            directory_count: 2,
        }
    );
    assert!(matches!(prepared.source, OfferSource::Folder { .. }));
}

fn commitment(source: &OfferSource) -> Vec<u8> {
    match source {
        OfferSource::Text { .. } => Vec::new(),
        OfferSource::File { metadata_commitment, .. }
        | OfferSource::Folder { metadata_commitment, .. } => metadata_commitment.clone(),
    }
}

#[test]
fn an_unchanged_folder_is_served_with_its_manifest_in_order() {
    let prepared = prepared_folder(&TREE).expect("prepare folder");
    assert!(matches!(
        build_source_plan(&prepared.descriptor, &prepared.source),
        Ok(PlanKind::Folder)
    ));
    let stored = commitment(&prepared.source);
    let walk = start_folder_plan(
        "package",
        Some(metadata(false, true, 0)),
        &Some("package".to_owned()),
        limits(),
    )
    .expect("walk");
    let draft =
        build_folder_plan(walked(walk, &TREE), &prepared.descriptor, &stored).expect("draft");
    let paths: Vec<_> = draft.manifest.iter().map(|entry| entry.relative_path.as_str()).collect();
    assert_eq!(paths, ["b.txt", "empty", "nested", "nested/a.txt"]);
    assert_eq!(draft.manifest[1].kind, FileEntryKind::Directory);
    assert_eq!(draft.files.len(), 2);
    assert_eq!(draft.files[1].entry_index, 3);
    let encoded = b"encoded manifest".to_vec();
    let expected = Sha256::digest(&encoded).to_vec();
    let plan =
        finish_plan(&prepared.descriptor, draft, Some(16), Some(encoded), &limits()).expect("plan");
    assert_eq!(plan.total_bytes, 10);
    assert_eq!(plan.manifest_sha256, Some(expected));
    assert!(plan.same_source(&plan));
}

#[test]
fn a_changed_folder_is_not_served() {
    let prepared = prepared_folder(&TREE).expect("prepare folder");
    let stored = commitment(&prepared.source);
    for tree in [
        vec![("b.txt", 6), ("empty/", 0), ("nested/", 0), ("nested/a.txt", 5)],
        vec![("b.txt", 5), ("empty/", 0), ("nested/", 0), ("nested/c.txt", 5)],
        vec![("b.txt", 5), ("nested/", 0), ("nested/a.txt", 5)],
    ] {
        let walk = start_folder_plan(
            "package",
            Some(metadata(false, true, 0)),
            &Some("package".to_owned()),
            limits(),
        )
        .expect("walk");
        assert!(matches!(
            build_folder_plan(walked(walk, &tree), &prepared.descriptor, &stored),
            Err(SourceFailure::Changed)
        ));
    }
}

#[test]
fn a_modified_file_is_changed() {
    let prepared = prepared_file(28);
    let stored = commitment(&prepared.source);
    let name = Some("file.txt".to_owned());
    let draft =
        build_file_plan("file.txt", 28, Some(metadata(true, false, 28)), &name, &stored).expect("file");
    assert_eq!(draft.manifest.len(), 1);
    assert_eq!(draft.manifest[0].byte_len, 28);
    assert!(matches!(
        build_file_plan("file.txt", 28, Some(metadata(true, false, 29)), &name, &stored),
        Err(SourceFailure::Changed)
    ));
    let mut touched = metadata(true, false, 28);
    touched.modified = Some(Timestamp { seconds: 5, nanoseconds: 7 });
    assert!(matches!(
        build_file_plan("file.txt", 28, Some(touched), &name, &stored),
        Err(SourceFailure::Changed)
    ));
}

#[test]
fn a_deleted_source_is_unavailable() {
    let prepared = prepared_file(28);
    let stored = commitment(&prepared.source);
    assert!(matches!(
        build_file_plan("file.txt", 28, None, &None, &stored),
        Err(SourceFailure::Unavailable)
    ));
    assert!(matches!(
        start_folder_plan("package", None, &None, limits()),
        Err(SourceFailure::Unavailable)
    ));
}

#[test]
fn a_text_is_served_as_it_was_stored() {
    let descriptor = OfferDescriptor::text("body").expect("text");
    let source = OfferSource::Text { text: "body".to_owned() };
    let Ok(PlanKind::Text(plan)) = build_source_plan(&descriptor, &source) else {
        panic!("expected a text plan");
    };
    assert_eq!(plan.text.as_deref(), Some("body"));
    assert_eq!(plan.total_bytes, 4);
    assert!(plan.manifest.is_empty());
    assert!(matches!(
        build_source_plan(
            &OfferDescriptor::File { root_name: "f".to_owned(), total_bytes: 4 },
            &source
        ),
        Err(SourceFailure::Malformed)
    ));
}

#[test]
fn each_fault_of_a_source_is_named() {
    assert!(matches!(
        prepare_source(OfferInput::Text(String::new())),
        Err(SourcePreparationError::Text(_))
    ));
    assert!(matches!(
        inspect_path(Err("denied".to_owned())),
        Err(SourcePreparationError::Inspect(text)) if text == "denied"
    ));
    assert!(matches!(portable_name(None), Err(SourcePreparationError::NonUtf8Name)));
    assert!(matches!(
        prepare_path(canonical("/home/CON", "CON"), metadata(true, false, 1)),
        Err(SourcePreparationError::InvalidName)
    ));
    assert!(matches!(
        prepare_path(canonical("/f", "f"), metadata(true, false, MAX_OFFER_FILE_BYTES + 1)),
        Err(SourcePreparationError::FileTooLarge)
    ));
    let mut ageless = metadata(true, false, 1);
    ageless.modified = None;
    assert!(matches!(
        prepare_path(canonical("/f", "f"), ageless),
        Err(SourcePreparationError::Commitment)
    ));
    let big = 1u64 << 33;
    assert!(matches!(
        prepared_folder(&[("a", big), ("b", big), ("c", 1)]),
        Err(SourcePreparationError::TreeTooLarge)
    ));
    assert!(matches!(prepared_folder(&[("nul", 1)]), Err(SourcePreparationError::InvalidName)));
}

#[test]
fn names_are_checked_on_both_sides() {
    assert!(validate_offer_component("a.txt"));
    assert!(!validate_offer_component("CON"));
    assert!(!validate_offer_component(".."));
    assert!(validate_source_component("a.txt", 255));
    assert!(!validate_source_component("a.txt", 4));
    assert!(!validate_source_component("a/b", 255));
}

#[test]
fn a_metadata_digest_depends_on_every_part() {
    let plain = metadata_digest("file", "a", &metadata(true, false, 1)).expect("digest");
    assert_eq!(plain.len(), 32);
    assert_ne!(plain, metadata_digest("root", "a", &metadata(true, false, 1)).expect("digest"));
    assert_ne!(plain, metadata_digest("file", "b", &metadata(true, false, 1)).expect("digest"));
    assert_ne!(plain, metadata_digest("file", "a", &metadata(true, false, 2)).expect("digest"));
    let mut readonly = metadata(true, false, 1);
    readonly.readonly = true;
    assert_ne!(plain, metadata_digest("file", "a", &readonly).expect("digest"));
    let mut other = metadata(true, false, 1);
    other.identity.push(4);
    assert_ne!(plain, metadata_digest("file", "a", &other).expect("digest"));
    let mut ageless = metadata(true, false, 1);
    ageless.modified = None;
    assert!(metadata_digest("file", "a", &ageless).is_none());
}

fn served(tree: &[(&str, u64)]) -> (SourcePlan, OfferDescriptor) {
    let prepared = prepared_folder(tree).expect("prepare folder");
    let stored = commitment(&prepared.source);
    let walk = start_folder_plan(
        "package",
        Some(metadata(false, true, 0)),
        &Some("package".to_owned()),
        limits(),
    )
    .expect("walk");
    let draft =
        build_folder_plan(walked(walk, tree), &prepared.descriptor, &stored).expect("draft");
    let plan = finish_plan(
        &prepared.descriptor,
        draft,
        Some(16),
        Some(b"encoded manifest".to_vec()),
        &limits(),
    )
    .expect("plan");
    (plan, prepared.descriptor)
}

fn request() -> FetchRequest {
    FetchRequest::new(OfferId::from_uuid(1), DeviceId::from_uuid(2), DeviceId::from_uuid(3))
}

fn checked(tree: &[(&str, u64)]) -> Result<(), FetchAdmissionCode> {
    let (plan, descriptor) = served(tree);
    let request = request();
    let header = fetch_header(&request, &plan);
    let end = manifest_end(&request, &plan);
    let manifest = Manifest {
        entries: plan.manifest,
        end: Some(end),
        encoded: Some(b"encoded manifest".to_vec()),
    };
    validate_manifest(&header, &descriptor, &manifest, &limits())
}

#[test]
fn the_manifest_of_a_served_folder_is_accepted() {
    assert_eq!(checked(&TREE), Ok(()));
    assert_eq!(checked(&[]), Ok(()));
}

#[test]
fn paths_that_differ_only_in_case_are_refused() {
    for tree in [[("A.txt", 1), ("a.txt", 1)], [("É", 1), ("é", 1)]] {
        assert_eq!(checked(&tree), Err(FetchAdmissionCode::InvalidManifest));
    }
}

fn entry(path: &str, kind: FileEntryKind, byte_len: u64) -> ManifestEntry {
    ManifestEntry { relative_path: path.to_owned(), kind, byte_len }
}

#[test]
fn each_fault_of_a_manifest_is_refused() {
    let folder = |entries: u32, files: u32, directories: u32, bytes: u64| OfferDescriptor::Folder {
        root_name: "package".to_owned(),
        total_bytes: bytes,
        entry_count: entries,
        file_count: files,
        directory_count: directories,
    };
    let check = |descriptor: OfferDescriptor, entries: Vec<ManifestEntry>, digest: &[u8]| {
        let encoded = b"encoded".to_vec();
        let sha = Sha256::digest(digest).to_vec();
        let header = FetchHeader {
            request_id: request().request_id,
            offer_id: OfferId::from_uuid(1),
            descriptor: descriptor.clone(),
            manifest_entries: entries.len() as u32,
            manifest_encoded_bytes: 16,
            manifest_sha256: Some(sha.clone()),
            text_sha256: None,
        };
        let files = entries.iter().filter(|entry| entry.kind == FileEntryKind::File).count();
        let bytes: u64 = entries.iter().fold(0, |sum: u64, entry| sum.saturating_add(entry.byte_len));
        let end = ManifestEnd {
            request_id: request().request_id,
            entry_count: entries.len() as u32,
            file_count: files as u32,
            total_bytes: bytes,
            manifest_sha256: sha,
        };
        let manifest = Manifest { entries, end: Some(end), encoded: Some(encoded) };
        validate_manifest(&header, &descriptor, &manifest, &limits())
    };
    let file = FileEntryKind::File;
    let directory = FileEntryKind::Directory;
    assert_eq!(
        check(folder(2, 1, 1, 4), vec![entry("d", directory, 0), entry("d/f", file, 4)], b"encoded"),
        Ok(())
    );
    for (entries, code) in [
        (vec![entry("../f", file, 4)], FetchAdmissionCode::InvalidManifest),
        (vec![entry("d/f", file, 4)], FetchAdmissionCode::InvalidManifest),
        (vec![entry("", directory, 0)], FetchAdmissionCode::InvalidManifest),
        (vec![entry("d", directory, 4)], FetchAdmissionCode::InvalidManifest),
        (vec![entry("f", file, (1 << 33) + 1)], FetchAdmissionCode::TooLarge),
        (vec![entry("f", file, 5)], FetchAdmissionCode::InvalidManifest),
    ] {
        assert_eq!(check(folder(1, 1, 0, 4), entries, b"encoded"), Err(code));
    }
    assert_eq!(
        check(folder(1, 1, 0, 4), vec![entry("f", file, 4)], b"other"),
        Err(FetchAdmissionCode::InvalidManifest)
    );
    let too_large: Vec<ManifestEntry> =
        (0..3).map(|n| entry(&format!("f{n}"), file, 1 << 33)).collect();
    assert_eq!(
        check(folder(3, 3, 0, 3 << 33), too_large, b"encoded"),
        Err(FetchAdmissionCode::TooLarge)
    );
}

#[test]
fn a_walk_lists_everything_once_in_its_order() {
    let tree = [
        ("b/", 0),
        ("b/x/", 0),
        ("b/x/1", 1),
        ("a.txt", 2),
        ("b-c", 3),
        ("b/a", 4),
        ("B", 5),
        ("é", 6),
    ];
    let Ok(PathPreparation::Walk(_, walk)) =
        prepare_path(canonical("/home/package", "package"), metadata(false, true, 0))
    else {
        panic!("a folder is walked")
    };
    let walk = walked(walk, &tree);
    assert!(matches!(walk.step, WalkStep::Finished(Ok(()))));
    let paths: Vec<&str> = walk.manifest.iter().map(|entry| entry.relative_path.as_str()).collect();
    assert_eq!(paths, ["B", "a.txt", "b", "b/a", "b/x", "b/x/1", "b-c", "é"]);
    let sizes: Vec<u64> = walk.manifest.iter().map(|entry| entry.byte_len).collect();
    assert_eq!(sizes, [5, 2, 0, 4, 0, 1, 3, 6]);
    assert_eq!((walk.entry_count, walk.file_count, walk.directory_count), (8, 6, 2));
    assert_eq!(walk.total_bytes, 21);
    let reordered: Vec<(&str, u64)> = tree.iter().rev().copied().collect();
    let Ok(PathPreparation::Walk(_, again)) =
        prepare_path(canonical("/home/package", "package"), metadata(false, true, 0))
    else {
        panic!("a folder is walked")
    };
    let again = walked(again, &reordered);
    let other: Vec<&str> = again.manifest.iter().map(|entry| entry.relative_path.as_str()).collect();
    assert_eq!(paths, other);
}

#[test]
fn a_commitment_has_the_length_of_a_digest() {
    let OfferSource::File { metadata_commitment, .. } = prepared_file(4).source else {
        panic!("a file")
    };
    assert_eq!(metadata_commitment.len(), 32);
    let Ok(folder) = prepared_folder(&TREE) else { panic!("a folder") };
    let OfferSource::Folder { metadata_commitment, .. } = folder.source else {
        panic!("a folder")
    };
    assert_eq!(metadata_commitment.len(), 32);
}
