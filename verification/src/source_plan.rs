//! What an origin is about to send, rebuilt from the live source.
use vstd::prelude::*;

use crate::digest::{finish, new_hasher, sha256, sha256_of};
use crate::offer::{
    DescriptorView, OfferDescriptor, MAX_OFFER_FILE_BYTES, MAX_OFFER_MANIFEST_ENTRIES,
    MAX_OFFER_TRANSFER_BYTES,
};
use crate::source::{hash_metadata, metadata_bytes, metadata_digest, MetadataView, SourceMetadata};
use crate::text::{byte_len, byte_length, opt_view, text_eq};
use crate::walk::{
    file_views, LiveFile, LiveFileView, Walk, WalkFault, WalkRules, WalkStep, WalkView,
};
use crate::wire::{
    entry_views, opt_bytes, same_bytes, EntryView, FileEntryKind, ManifestEntry, V2Limits,
};

verus! {

/// Where the content of an offer comes from.
#[derive(Debug)]
pub enum OfferSource {
    Text { text: String },
    File { canonical_path: String, metadata_commitment: Vec<u8> },
    Folder { canonical_path: String, metadata_commitment: Vec<u8> },
}

/// Why an origin cannot send what it offered.
#[derive(Debug, Clone, Copy, PartialEq, Eq, Structural)]
pub enum SourceFailure {
    Unavailable,
    Changed,
    Malformed,
}

/// A source that was found unchanged, before its manifest is encoded.
#[derive(Debug)]
pub struct SourceDraft {
    pub manifest: Vec<ManifestEntry>,
    pub files: Vec<LiveFile>,
    pub commitment: Vec<u8>,
}

/// What an origin is about to send.
#[derive(Debug)]
pub struct SourcePlan {
    pub descriptor: OfferDescriptor,
    pub text: Option<String>,
    pub manifest: Vec<ManifestEntry>,
    pub manifest_encoded_bytes: usize,
    pub manifest_sha256: Option<Vec<u8>>,
    pub files: Vec<LiveFile>,
    pub total_bytes: u64,
    pub source_commitment: Option<Vec<u8>>,
}

/// A source that was found unchanged, as a value.
pub ghost struct DraftView {
    pub manifest: Seq<EntryView>,
    pub files: Seq<LiveFileView>,
    pub commitment: Seq<u8>,
}

impl View for SourceDraft {
    type V = DraftView;

    open spec fn view(&self) -> DraftView {
        DraftView {
            manifest: entry_views(self.manifest@),
            files: file_views(self.files@),
            commitment: self.commitment@,
        }
    }
}

/// What an origin is about to send, as a value.
pub ghost struct PlanView {
    pub descriptor: DescriptorView,
    pub text: Option<Seq<char>>,
    pub manifest: Seq<EntryView>,
    pub manifest_encoded_bytes: usize,
    pub manifest_sha256: Option<Seq<u8>>,
    pub files: Seq<LiveFileView>,
    pub total_bytes: u64,
    pub source_commitment: Option<Seq<u8>>,
}

impl View for SourcePlan {
    type V = PlanView;

    open spec fn view(&self) -> PlanView {
        PlanView {
            descriptor: self.descriptor@,
            text: opt_view(self.text),
            manifest: entry_views(self.manifest@),
            manifest_encoded_bytes: self.manifest_encoded_bytes,
            manifest_sha256: opt_bytes(self.manifest_sha256),
            files: file_views(self.files@),
            total_bytes: self.total_bytes,
            source_commitment: opt_bytes(self.source_commitment),
        }
    }
}

/// Which of the three ways a plan is built in.
#[derive(Debug)]
pub enum PlanKind {
    Text(SourcePlan),
    File,
    Folder,
}

/// The plan for a text.
pub open spec fn text_plan(descriptor: DescriptorView, text: Seq<char>) -> PlanView {
    PlanView {
        descriptor,
        text: Some(text),
        manifest: Seq::empty(),
        manifest_encoded_bytes: 0,
        manifest_sha256: None,
        files: Seq::empty(),
        total_bytes: byte_len(text) as u64,
        source_commitment: None,
    }
}

/// Decides how the plan of an offer is built; a source of another kind than its
/// descriptor is malformed.
pub fn build_source_plan(descriptor: &OfferDescriptor, source: &OfferSource) -> (r: Result<
    PlanKind,
    SourceFailure,
>)
    ensures
        match (descriptor@, *source) {
            (DescriptorView::Text { .. }, OfferSource::Text { text }) => r matches Ok(
                PlanKind::Text(plan),
            ) && plan@ == text_plan(descriptor@, text@),
            (DescriptorView::File { .. }, OfferSource::File { .. }) => r matches Ok(
                PlanKind::File,
            ),
            (DescriptorView::Folder { .. }, OfferSource::Folder { .. }) => r matches Ok(
                PlanKind::Folder,
            ),
            _ => r matches Err(SourceFailure::Malformed),
        },
{
    match (descriptor, source) {
        (OfferDescriptor::Text { .. }, OfferSource::Text { text }) => {
            let plan = SourcePlan {
                descriptor: descriptor.clone(),
                text: Some(text.clone()),
                manifest: Vec::new(),
                manifest_encoded_bytes: 0,
                manifest_sha256: None,
                files: Vec::new(),
                total_bytes: byte_length(text.as_str()) as u64,
                source_commitment: None,
            };
            assert(plan@.manifest =~= Seq::<EntryView>::empty());
            assert(plan@.files =~= Seq::<LiveFileView>::empty());
            Ok(PlanKind::Text(plan))
        },
        (OfferDescriptor::File { .. }, OfferSource::File { .. }) => Ok(PlanKind::File),
        (OfferDescriptor::Folder { .. }, OfferSource::Folder { .. }) => Ok(PlanKind::Folder),
        _ => Err(SourceFailure::Malformed),
    }
}

/// The commitment to a single object.
pub open spec fn root_commitment(root_name: Seq<char>, metadata: MetadataView) -> Seq<u8> {
    sha256(metadata_bytes("root"@, root_name, metadata))
}

/// What an unchanged file is sent as.
pub open spec fn file_draft(
    root_name: Seq<char>,
    total_bytes: u64,
    metadata: MetadataView,
) -> DraftView {
    DraftView {
        manifest: seq![
            EntryView {
                relative_path: Seq::empty(),
                kind: FileEntryKind::File,
                byte_len: total_bytes,
            },
        ],
        files: seq![
            LiveFileView {
                entry_index: 0,
                is_root: true,
                relative_name: root_name,
                byte_len: total_bytes,
                metadata_digest: root_commitment(root_name, metadata),
            },
        ],
        commitment: root_commitment(root_name, metadata),
    }
}

/// The metadata that was read, if any.
pub open spec fn metadata_view(metadata: Option<SourceMetadata>) -> Option<MetadataView> {
    match metadata {
        Some(m) => Some(m@),
        None => None,
    }
}

/// Whether the object under the offered path is still of the offered kind and name.
pub open spec fn still_named(
    metadata: MetadataView,
    directory: bool,
    basename: Option<Seq<char>>,
    root_name: Seq<char>,
) -> bool {
    &&& (if directory {
        metadata.is_directory
    } else {
        metadata.is_file
    })
    &&& !metadata.is_symlink
    &&& basename == Some(root_name)
}

fn keeps_name(
    metadata: &SourceMetadata,
    directory: bool,
    basename: &Option<String>,
    root_name: &str,
) -> (r: bool)
    ensures
        r == still_named(metadata@, directory, opt_view(*basename), root_name@),
{
    let kind = if directory {
        metadata.is_directory
    } else {
        metadata.is_file
    };
    let named = match basename {
        Some(name) => text_eq(name.as_str(), root_name),
        None => false,
    };
    kind && !metadata.is_symlink && named
}

/// What an offered file has become.
pub open spec fn file_check(
    root_name: Seq<char>,
    total_bytes: u64,
    metadata: Option<MetadataView>,
    basename: Option<Seq<char>>,
    stored_commitment: Seq<u8>,
) -> Result<DraftView, SourceFailure> {
    match metadata {
        None => Err(SourceFailure::Unavailable),
        Some(metadata) => if !still_named(metadata, false, basename, root_name) || metadata.len
            != total_bytes || metadata.len > MAX_OFFER_FILE_BYTES {
            Err(SourceFailure::Changed)
        } else if metadata.modified is None {
            Err(SourceFailure::Unavailable)
        } else if root_commitment(root_name, metadata) != stored_commitment {
            Err(SourceFailure::Changed)
        } else {
            Ok(file_draft(root_name, total_bytes, metadata))
        },
    }
}

pub open spec fn draft_result(
    r: Result<SourceDraft, SourceFailure>,
) -> Result<DraftView, SourceFailure> {
    match r {
        Ok(draft) => Ok(draft@),
        Err(failure) => Err(failure),
    }
}

/// Checks that an offered file is unchanged.  `metadata` is missing where it could
/// not be read, `basename` where the path has none in UTF-8.
pub fn build_file_plan(
    root_name: &str,
    total_bytes: u64,
    metadata: Option<SourceMetadata>,
    basename: &Option<String>,
    stored_commitment: &Vec<u8>,
) -> (r: Result<SourceDraft, SourceFailure>)
    ensures
        draft_result(r) == file_check(
            root_name@,
            total_bytes,
            metadata_view(metadata),
            opt_view(*basename),
            stored_commitment@,
        ),
{
    let metadata = match metadata {
        Some(metadata) => metadata,
        None => {
            return Err(SourceFailure::Unavailable);
        },
    };
    if !keeps_name(&metadata, false, basename, root_name) || metadata.len != total_bytes
        || metadata.len > MAX_OFFER_FILE_BYTES {
        return Err(SourceFailure::Changed);
    }
    let digest = match metadata_digest("root", root_name, &metadata) {
        Some(digest) => digest,
        None => {
            return Err(SourceFailure::Unavailable);
        },
    };
    if !same_bytes(&digest, stored_commitment) {
        return Err(SourceFailure::Changed);
    }
    let mut manifest: Vec<ManifestEntry> = Vec::new();
    manifest.push(
        ManifestEntry {
            relative_path: String::new(),
            kind: FileEntryKind::File,
            byte_len: total_bytes,
        },
    );
    let commitment = digest.clone();
    let mut files: Vec<LiveFile> = Vec::new();
    files.push(
        LiveFile {
            entry_index: 0,
            is_root: true,
            relative_name: root_name.to_owned(),
            byte_len: total_bytes,
            metadata_digest: digest,
        },
    );
    let draft = SourceDraft { manifest, files, commitment };
    assert(draft@.manifest =~= file_draft(root_name@, total_bytes, metadata@).manifest);
    assert(draft@.files =~= file_draft(root_name@, total_bytes, metadata@).files);
    Ok(draft)
}

/// The walk of an offered folder before its first step.
pub open spec fn folder_walk(
    root_name: Seq<char>,
    metadata: MetadataView,
    rules: WalkRules,
) -> WalkView {
    WalkView {
        rules,
        transcript: metadata_bytes("root"@, root_name, metadata),
        total_bytes: 0,
        entry_count: 0,
        file_count: 0,
        directory_count: 0,
        manifest: Seq::empty(),
        files: Seq::empty(),
        frames: Seq::empty(),
        step: WalkStep::List(Seq::empty()),
    }
}

/// Starts the walk of an offered folder.
pub fn start_folder_plan(
    root_name: &str,
    metadata: Option<SourceMetadata>,
    basename: &Option<String>,
    limits: V2Limits,
) -> (r: Result<Walk, SourceFailure>)
    ensures
        match metadata {
            None => r matches Err(SourceFailure::Unavailable),
            Some(m) => if !still_named(m@, true, opt_view(*basename), root_name@) {
                r matches Err(SourceFailure::Changed)
            } else if m.modified is None {
                r matches Err(SourceFailure::Unavailable)
            } else {
                r matches Ok(walk) && walk@ == folder_walk(
                    root_name@,
                    m@,
                    (WalkRules { serving: Some(limits) }),
                ) && walk@.wf()
            },
        },
{
    let metadata = match metadata {
        Some(metadata) => metadata,
        None => {
            return Err(SourceFailure::Unavailable);
        },
    };
    if !keeps_name(&metadata, true, basename, root_name) {
        return Err(SourceFailure::Changed);
    }
    let mut commitment = new_hasher();
    if !hash_metadata(&mut commitment, "root", root_name, &metadata) {
        return Err(SourceFailure::Unavailable);
    }
    proof {
        let bytes = metadata_bytes("root"@, root_name@, metadata@);
        assert(Seq::<u8>::empty() + bytes =~= bytes);
    }
    Ok(Walk::new(WalkRules { serving: Some(limits) }, commitment))
}

/// What a fault in the walk says of the source.
pub open spec fn walk_failure(fault: WalkFault<Seq<char>>) -> SourceFailure {
    match fault {
        WalkFault::Unreadable(_) | WalkFault::NoTimestamp => SourceFailure::Unavailable,
        _ => SourceFailure::Changed,
    }
}

/// Whether the counts of a walk are those of the descriptor, within the bounds.
pub open spec fn counts_kept(walk: WalkView, descriptor: DescriptorView) -> bool {
    descriptor matches DescriptorView::Folder {
        total_bytes,
        entry_count,
        file_count,
        directory_count,
        ..
    } && {
        &&& walk.total_bytes == total_bytes
        &&& walk.entry_count == entry_count
        &&& walk.file_count == file_count
        &&& walk.directory_count == directory_count
        &&& walk.total_bytes <= MAX_OFFER_TRANSFER_BYTES
        &&& walk.entry_count <= MAX_OFFER_MANIFEST_ENTRIES
    }
}

/// What an offered folder has become, after its walk.
pub open spec fn folder_check(
    walk: WalkView,
    descriptor: DescriptorView,
    stored_commitment: Seq<u8>,
) -> Result<DraftView, SourceFailure> {
    match walk.step {
        WalkStep::Finished(Err(fault)) => Err(walk_failure(fault)),
        WalkStep::Finished(Ok(())) => if !counts_kept(walk, descriptor) || sha256(walk.transcript)
            != stored_commitment {
            Err(SourceFailure::Changed)
        } else {
            Ok(
                DraftView {
                    manifest: walk.manifest,
                    files: walk.files,
                    commitment: sha256(walk.transcript),
                },
            )
        },
        _ => Err(SourceFailure::Unavailable),
    }
}

/// Checks that an offered folder is unchanged, after its walk.  A walk that has not
/// come to its end leaves the source unavailable.
pub fn build_folder_plan(
    walk: Walk,
    descriptor: &OfferDescriptor,
    stored_commitment: &Vec<u8>,
) -> (r: Result<SourceDraft, SourceFailure>)
    ensures
        draft_result(r) == folder_check(walk@, descriptor@, stored_commitment@),
{
    match &walk.step {
        WalkStep::Finished(Ok(())) => {},
        WalkStep::Finished(Err(fault)) => {
            return match fault {
                WalkFault::Unreadable(_) | WalkFault::NoTimestamp => Err(
                    SourceFailure::Unavailable,
                ),
                _ => Err(SourceFailure::Changed),
            };
        },
        _ => {
            return Err(SourceFailure::Unavailable);
        },
    }
    let kept = match descriptor {
        OfferDescriptor::Folder { total_bytes, entry_count, file_count, directory_count, .. } => {
            walk.total_bytes == *total_bytes && walk.entry_count == *entry_count && walk.file_count
                == *file_count && walk.directory_count == *directory_count && walk.total_bytes
                <= MAX_OFFER_TRANSFER_BYTES && walk.entry_count <= MAX_OFFER_MANIFEST_ENTRIES
        },
        _ => false,
    };
    if !kept {
        return Err(SourceFailure::Changed);
    }
    let commitment = finish(walk.commitment);
    if !same_bytes(&commitment, stored_commitment) {
        return Err(SourceFailure::Changed);
    }
    Ok(SourceDraft { manifest: walk.manifest, files: walk.files, commitment })
}

/// The plan for a source that was found unchanged, once its manifest is encoded.
pub open spec fn finished_plan(
    descriptor: DescriptorView,
    draft: DraftView,
    chunk_bytes: Option<usize>,
    encoded: Option<Seq<u8>>,
    limits: V2Limits,
) -> Result<PlanView, SourceFailure> {
    match (chunk_bytes, encoded) {
        (Some(chunk_bytes), Some(encoded)) => if descriptor is Folder && chunk_bytes
            > limits.max_manifest_bytes {
            Err(SourceFailure::Malformed)
        } else {
            Ok(
                PlanView {
                    descriptor,
                    text: None,
                    manifest: draft.manifest,
                    manifest_encoded_bytes: chunk_bytes,
                    manifest_sha256: Some(sha256(encoded)),
                    files: draft.files,
                    total_bytes: crate::manifest::counts_of(descriptor).total_bytes,
                    source_commitment: Some(draft.commitment),
                },
            )
        },
        _ => Err(SourceFailure::Malformed),
    }
}

pub open spec fn plan_result(
    r: Result<SourcePlan, SourceFailure>,
) -> Result<PlanView, SourceFailure> {
    match r {
        Ok(plan) => Ok(plan@),
        Err(failure) => Err(failure),
    }
}

/// Completes a plan with the encoding of its manifest: the bytes of its chunks and
/// the entries in JSON, where they could be encoded.
pub fn finish_plan(
    descriptor: &OfferDescriptor,
    draft: SourceDraft,
    chunk_bytes: Option<usize>,
    encoded: Option<Vec<u8>>,
    limits: &V2Limits,
) -> (r: Result<SourcePlan, SourceFailure>)
    ensures
        plan_result(r) == finished_plan(
            descriptor@,
            draft@,
            chunk_bytes,
            opt_bytes(encoded),
            *limits,
        ),
{
    let manifest_encoded_bytes: usize = match chunk_bytes {
        Some(bytes) => bytes,
        None => {
            return Err(SourceFailure::Malformed);
        },
    };
    if matches!(descriptor, OfferDescriptor::Folder { .. }) && manifest_encoded_bytes
        > limits.max_manifest_bytes {
        return Err(SourceFailure::Malformed);
    }
    match encoded {
        None => Err(SourceFailure::Malformed),
        Some(encoded) => {
            let total_bytes: u64 = crate::manifest::plan_counts(descriptor).total_bytes;
            Ok(
                SourcePlan {
                    descriptor: descriptor.clone(),
                    text: None,
                    manifest: draft.manifest,
                    manifest_encoded_bytes,
                    manifest_sha256: Some(sha256_of(encoded.as_slice())),
                    files: draft.files,
                    total_bytes,
                    source_commitment: Some(draft.commitment),
                },
            )
        },
    }
}

/// Whether two plans describe the same state of a source.
pub open spec fn same_plan(a: PlanView, b: PlanView) -> bool {
    &&& a.descriptor == b.descriptor
    &&& a.manifest == b.manifest
    &&& a.manifest_sha256 == b.manifest_sha256
    &&& a.source_commitment == b.source_commitment
}

fn same_optional_bytes(a: &Option<Vec<u8>>, b: &Option<Vec<u8>>) -> (r: bool)
    ensures
        r == (opt_bytes(*a) == opt_bytes(*b)),
{
    match (a, b) {
        (Some(x), Some(y)) => same_bytes(x, y),
        (None, None) => true,
        _ => false,
    }
}

fn same_entries(a: &Vec<ManifestEntry>, b: &Vec<ManifestEntry>) -> (r: bool)
    ensures
        r == (entry_views(a@) == entry_views(b@)),
{
    let ghost x = entry_views(a@);
    let ghost y = entry_views(b@);
    if a.len() != b.len() {
        assert(x.len() != y.len());
        return false;
    }
    let mut i: usize = 0;
    while i < a.len()
        invariant
            i <= a@.len(),
            a@.len() == b@.len(),
            x == entry_views(a@),
            y == entry_views(b@),
            forall|k: int| 0 <= k < i ==> x[k] == y[k],
        decreases a@.len() - i,
    {
        let same = a[i].relative_path == b[i].relative_path && a[i].kind == b[i].kind
            && a[i].byte_len == b[i].byte_len;
        assert(same == (x[i as int] == y[i as int]));
        if !same {
            return false;
        }
        i = i + 1;
    }
    assert(x =~= y);
    true
}

impl SourcePlan {
    /// Whether the source is as it was when the other plan was built.
    #[must_use]
    pub fn same_source(&self, other: &SourcePlan) -> (r: bool)
        ensures
            r == same_plan(self@, other@),
    {
        self.descriptor == other.descriptor && same_entries(&self.manifest, &other.manifest)
            && same_optional_bytes(&self.manifest_sha256, &other.manifest_sha256)
            && same_optional_bytes(&self.source_commitment, &other.source_commitment)
    }
}

} // verus!
