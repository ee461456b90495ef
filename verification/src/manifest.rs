//! The header and the manifest of a fetch, as the receiver checks them.
use vstd::prelude::*;

use crate::activation::{FetchActivation, FetchActivationView};
use crate::destination::{path_error, validate_relative_path};
use crate::digest::{sha256, sha256_of};
use crate::failure::{verification, ReceiveFailure};
use crate::ids::{ActivationId, OfferId};
use crate::model::ContentKind;
use crate::offer::{DescriptorView, OfferDescriptor};
use crate::text::{byte_len, byte_length, chars_of, string_of};
use crate::wire::{
    entry_views, opt_bytes, same_bytes, EntryView, FetchAdmissionCode, FetchHeader, FileEntryKind,
    ManifestChunk, ManifestEnd, ManifestEntry, V2Limits,
};

verus! {

/// What a header promises.
#[derive(Debug, Clone, Copy, PartialEq, Eq, Structural)]
pub struct PlanCounts {
    pub content_kind: ContentKind,
    pub total_bytes: u64,
    pub file_count: u32,
}

/// A header with its texts and bytes as sequences.
pub ghost struct HeaderView {
    pub request_id: ActivationId,
    pub offer_id: OfferId,
    pub descriptor: DescriptorView,
    pub manifest_entries: u32,
    pub manifest_encoded_bytes: u64,
    pub manifest_sha256: Option<Seq<u8>>,
    pub text_sha256: Option<Seq<u8>>,
}

impl View for FetchHeader {
    type V = HeaderView;

    open spec fn view(&self) -> HeaderView {
        HeaderView {
            request_id: self.request_id,
            offer_id: self.offer_id,
            descriptor: self.descriptor@,
            manifest_entries: self.manifest_entries,
            manifest_encoded_bytes: self.manifest_encoded_bytes,
            manifest_sha256: opt_bytes(self.manifest_sha256),
            text_sha256: opt_bytes(self.text_sha256),
        }
    }
}

/// The counts that a descriptor stands for.
pub open spec fn counts_of(descriptor: DescriptorView) -> PlanCounts {
    match descriptor {
        DescriptorView::Text { utf8_bytes, .. } => PlanCounts {
            content_kind: ContentKind::Text,
            total_bytes: utf8_bytes as u64,
            file_count: 0,
        },
        DescriptorView::File { total_bytes, .. } => PlanCounts {
            content_kind: ContentKind::File,
            total_bytes,
            file_count: 1,
        },
        DescriptorView::Folder { total_bytes, file_count, .. } => PlanCounts {
            content_kind: ContentKind::Folder,
            total_bytes,
            file_count,
        },
    }
}

/// Whether `digest` is there and as long as a SHA-256 digest.
pub open spec fn digest_given(digest: Option<Seq<u8>>) -> bool {
    digest matches Some(bytes) && bytes.len() == 32
}

/// Whether a header answers the activation of a card: it names the same request
/// and offer, describes what the card describes, and carries the digest that goes
/// with its content.
pub open spec fn header_answers(
    header: HeaderView,
    card: DescriptorView,
    activation: FetchActivationView,
) -> bool {
    &&& header.request_id == activation.request_id
    &&& header.offer_id == activation.offer_id
    &&& header.descriptor == card
    &&& if card is Text {
        &&& header.manifest_entries == 0
        &&& header.manifest_encoded_bytes == 0
        &&& header.manifest_sha256 is None
        &&& digest_given(header.text_sha256)
    } else {
        &&& header.text_sha256 is None
        &&& digest_given(header.manifest_sha256)
    }
}

/// Checks the header of a fetch against the card that was activated.
pub fn validate_header(
    header: &FetchHeader,
    card: &OfferDescriptor,
    activation: &FetchActivation,
) -> (r: Result<PlanCounts, FetchAdmissionCode>)
    ensures
        r == if header_answers(header@, card@, activation@) {
            Ok::<PlanCounts, FetchAdmissionCode>(counts_of(card@))
        } else {
            Err(FetchAdmissionCode::InvalidManifest)
        },
{
    if header.request_id != activation.request_id || header.offer_id != activation.offer_id {
        return Err(FetchAdmissionCode::InvalidManifest);
    }
    if header.descriptor != *card {
        return Err(FetchAdmissionCode::InvalidManifest);
    }
    let text_digest_given = match &header.text_sha256 {
        Some(bytes) => bytes.len() == 32,
        None => false,
    };
    let manifest_digest_given = match &header.manifest_sha256 {
        Some(bytes) => bytes.len() == 32,
        None => false,
    };
    let consistent = if header.descriptor.is_text() {
        header.manifest_entries == 0 && header.manifest_encoded_bytes == 0
            && header.manifest_sha256.is_none() && text_digest_given
    } else {
        header.text_sha256.is_none() && manifest_digest_given
    };
    if !consistent {
        return Err(FetchAdmissionCode::InvalidManifest);
    }
    Ok(plan_counts(&header.descriptor))
}

/// The counts that a descriptor stands for.
pub fn plan_counts(descriptor: &OfferDescriptor) -> (r: PlanCounts)
    ensures
        r == counts_of(descriptor@),
{
    match descriptor {
        OfferDescriptor::Text { utf8_bytes, .. } => PlanCounts {
            content_kind: ContentKind::Text,
            total_bytes: *utf8_bytes as u64,
            file_count: 0,
        },
        OfferDescriptor::File { total_bytes, .. } => PlanCounts {
            content_kind: ContentKind::File,
            total_bytes: *total_bytes,
            file_count: 1,
        },
        OfferDescriptor::Folder { total_bytes, file_count, .. } => PlanCounts {
            content_kind: ContentKind::Folder,
            total_bytes: *total_bytes,
            file_count: *file_count,
        },
    }
}

/// Whether a transfer takes a reservation of file system space.
pub open spec fn reservation_needed(content_kind: ContentKind, payload_bytes: u64) -> bool {
    !(content_kind is Text) && payload_bytes > 0
}

/// Whether a transfer takes a reservation of file system space.
#[must_use]
pub fn needs_filesystem_reservation(content_kind: ContentKind, payload_bytes: u64) -> (r: bool)
    ensures
        r == reservation_needed(content_kind, payload_bytes),
{
    !matches!(content_kind, ContentKind::Text) && payload_bytes > 0
}

/// `s` in lower case, by the rules of Unicode.
pub uninterp spec fn lowercase(s: Seq<char>) -> Seq<char>;

/// `str::to_lowercase`: the outcome depends on the text alone.
#[verifier::external_body]
fn to_lowercase(s: &str) -> (r: String)
    ensures
        r@ == lowercase(s@),
{
    s.to_lowercase()
}

/// The bytes of the files in `entries`.
pub open spec fn file_bytes(entries: Seq<EntryView>) -> nat
    decreases entries.len(),
{
    if entries.len() == 0 {
        0
    } else {
        file_bytes(entries.drop_last()) + if entries.last().kind is File {
            entries.last().byte_len as nat
        } else {
            0
        }
    }
}

/// The number of entries of one kind.
pub open spec fn kind_count(entries: Seq<EntryView>, kind: FileEntryKind) -> nat
    decreases entries.len(),
{
    if entries.len() == 0 {
        0
    } else {
        kind_count(entries.drop_last(), kind) + if entries.last().kind == kind {
            1nat
        } else {
            0nat
        }
    }
}

/// Whether an entry of `entries` has the path `folded`, but for case.
pub open spec fn folded_path_in(entries: Seq<EntryView>, folded: Seq<char>) -> bool {
    exists|i: int| 0 <= i < entries.len() && lowercase(#[trigger] entries[i].relative_path) == folded
}

/// Whether a directory of `entries` has the path `folded`, but for case.
pub open spec fn directory_in(entries: Seq<EntryView>, folded: Seq<char>) -> bool {
    exists|i: int|
        0 <= i < entries.len() && (#[trigger] entries[i]).kind is Directory && lowercase(
            entries[i].relative_path,
        ) == folded
}

/// What is wrong with `entry` behind the entries `before`.
pub open spec fn entry_error(
    before: Seq<EntryView>,
    entry: EntryView,
    limits: V2Limits,
) -> Option<FetchAdmissionCode> {
    if byte_len(entry.relative_path) > limits.max_relative_path_bytes {
        Some(FetchAdmissionCode::InvalidManifest)
    } else if entry.relative_path.len() == 0 && !(entry.kind is File) {
        Some(FetchAdmissionCode::InvalidManifest)
    } else if entry.relative_path.len() > 0 && path_error(entry.relative_path) is Some {
        Some(FetchAdmissionCode::InvalidManifest)
    } else if folded_path_in(before, lowercase(entry.relative_path)) {
        Some(FetchAdmissionCode::InvalidManifest)
    } else if entry.kind is Directory && entry.byte_len != 0 {
        Some(FetchAdmissionCode::InvalidManifest)
    } else if entry.kind is File && entry.byte_len > limits.max_file_bytes {
        Some(FetchAdmissionCode::TooLarge)
    } else if entry.kind is File && file_bytes(before) + entry.byte_len > u64::MAX {
        Some(FetchAdmissionCode::TooLarge)
    } else {
        None
    }
}

/// What is wrong with the first bad entry.
pub open spec fn entries_error(
    entries: Seq<EntryView>,
    limits: V2Limits,
) -> Option<FetchAdmissionCode>
    decreases entries.len(),
{
    if entries.len() == 0 {
        None
    } else {
        match entries_error(entries.drop_last(), limits) {
            Some(code) => Some(code),
            None => entry_error(entries.drop_last(), entries.last(), limits),
        }
    }
}

/// Whether every directory on the way to `path` is an entry of its own.
pub open spec fn parents_of_path_listed(entries: Seq<EntryView>, path: Seq<char>) -> bool {
    forall|k: int|
        0 <= k < lowercase(path).len() && #[trigger] lowercase(path)[k] == '/' ==> directory_in(
            entries,
            lowercase(path).subrange(0, k),
        )
}

/// Whether every directory on the way to an entry is an entry of its own.
pub open spec fn parents_listed(entries: Seq<EntryView>) -> bool {
    forall|i: int|
        0 <= i < entries.len() && (#[trigger] entries[i]).relative_path.len() > 0
            ==> parents_of_path_listed(entries, entries[i].relative_path)
}

/// Whether the entries are what the descriptor describes.
pub open spec fn entries_fit(entries: Seq<EntryView>, descriptor: DescriptorView) -> bool {
    match descriptor {
        DescriptorView::Text { .. } => entries.len() == 0,
        DescriptorView::File { total_bytes, .. } => {
            &&& entries.len() == 1
            &&& entries[0].kind is File
            &&& entries[0].relative_path.len() == 0
            &&& file_bytes(entries) == total_bytes
        },
        DescriptorView::Folder { total_bytes, entry_count, file_count, directory_count, .. } => {
            &&& file_bytes(entries) == total_bytes
            &&& kind_count(entries, FileEntryKind::File) == file_count
            &&& kind_count(entries, FileEntryKind::Directory) == directory_count
            &&& entries.len() == entry_count
        },
    }
}

/// The end of a manifest with its digest as a sequence.
pub ghost struct ManifestEndView {
    pub request_id: ActivationId,
    pub entry_count: u32,
    pub file_count: u32,
    pub total_bytes: u64,
    pub manifest_sha256: Seq<u8>,
}

impl View for ManifestEnd {
    type V = ManifestEndView;

    open spec fn view(&self) -> ManifestEndView {
        ManifestEndView {
            request_id: self.request_id,
            entry_count: self.entry_count,
            file_count: self.file_count,
            total_bytes: self.total_bytes,
            manifest_sha256: self.manifest_sha256@,
        }
    }
}

/// A manifest as it was received, with the encoding of its entries.
#[derive(Debug)]
pub struct Manifest {
    pub entries: Vec<ManifestEntry>,
    pub end: Option<ManifestEnd>,
    /// The entries in JSON, where they could be encoded.
    pub encoded: Option<Vec<u8>>,
}

/// A manifest with its parts as sequences.
pub ghost struct ManifestView {
    pub entries: Seq<EntryView>,
    pub end: Option<ManifestEndView>,
    pub encoded: Option<Seq<u8>>,
}

impl View for Manifest {
    type V = ManifestView;

    open spec fn view(&self) -> ManifestView {
        ManifestView {
            entries: entry_views(self.entries@),
            end: match self.end {
                Some(end) => Some(end@),
                None => None,
            },
            encoded: opt_bytes(self.encoded),
        }
    }
}

/// Whether header and end agree with the entries and with their digest.
pub open spec fn digest_agrees(
    promised: Option<Seq<u8>>,
    manifest: ManifestView,
) -> bool {
    match promised {
        None => true,
        Some(digest) => {
            &&& manifest.encoded matches Some(bytes) && sha256(bytes) == digest
            &&& manifest.end matches Some(end) && {
                &&& end.entry_count == manifest.entries.len()
                &&& end.file_count == kind_count(manifest.entries, FileEntryKind::File)
                &&& end.total_bytes == file_bytes(manifest.entries)
                &&& end.manifest_sha256 == digest
            }
        },
    }
}

/// Why a manifest is refused.
pub open spec fn manifest_error(
    header: HeaderView,
    descriptor: DescriptorView,
    manifest: ManifestView,
    limits: V2Limits,
) -> Option<FetchAdmissionCode> {
    if manifest.entries.len() != header.manifest_entries {
        Some(FetchAdmissionCode::InvalidManifest)
    } else if entries_error(manifest.entries, limits) is Some {
        entries_error(manifest.entries, limits)
    } else if !parents_listed(manifest.entries) {
        Some(FetchAdmissionCode::InvalidManifest)
    } else if file_bytes(manifest.entries) > limits.max_transfer_bytes {
        Some(FetchAdmissionCode::TooLarge)
    } else if !entries_fit(manifest.entries, descriptor) {
        Some(FetchAdmissionCode::InvalidManifest)
    } else if !digest_agrees(header.manifest_sha256, manifest) {
        Some(FetchAdmissionCode::InvalidManifest)
    } else {
        None
    }
}

fn string_in(list: &Vec<String>, s: &String) -> (r: bool)
    ensures
        r == exists|i: int| 0 <= i < list@.len() && (#[trigger] list@[i])@ == s@,
{
    let mut i: usize = 0;
    while i < list.len()
        invariant
            i <= list@.len(),
            forall|k: int| 0 <= k < i ==> (#[trigger] list@[k])@ != s@,
        decreases list@.len() - i,
    {
        if list[i] == *s {
            return true;
        }
        i = i + 1;
    }
    false
}

proof fn lemma_entries_error_prefix(entries: Seq<EntryView>, n: int, limits: V2Limits)
    requires
        0 <= n <= entries.len(),
        entries_error(entries.subrange(0, n), limits) is Some,
    ensures
        entries_error(entries, limits) == entries_error(entries.subrange(0, n), limits),
    decreases entries.len() - n,
{
    if n == entries.len() {
        assert(entries.subrange(0, n) =~= entries);
    } else {
        let longer = entries.subrange(0, n + 1);
        assert(longer.drop_last() =~= entries.subrange(0, n));
        lemma_entries_error_prefix(entries, n + 1, limits);
    }
}

proof fn lemma_counts_bound(entries: Seq<EntryView>)
    ensures
        kind_count(entries, FileEntryKind::File) <= entries.len(),
        kind_count(entries, FileEntryKind::Directory) <= entries.len(),
    decreases entries.len(),
{
    if entries.len() > 0 {
        lemma_counts_bound(entries.drop_last());
    }
}

/// The counts of a list of entries and the folded paths of its directories.
struct Tally {
    directories: Vec<String>,
    total_bytes: u64,
    file_count: u32,
    directory_count: u32,
}

impl Tally {
    spec fn counts(self, entries: Seq<EntryView>) -> bool {
        &&& self.total_bytes == file_bytes(entries)
        &&& self.file_count == kind_count(entries, FileEntryKind::File)
        &&& self.directory_count == kind_count(entries, FileEntryKind::Directory)
        &&& forall|folded: Seq<char>|
            directory_in(entries, folded) <==> #[trigger] has_text(self.directories@, folded)
    }
}

spec fn has_text(list: Seq<String>, s: Seq<char>) -> bool {
    exists|i: int| 0 <= i < list.len() && (#[trigger] list[i])@ == s
}

fn check_entries(entries: &Vec<ManifestEntry>, limits: &V2Limits) -> (r: Result<
    Tally,
    FetchAdmissionCode,
>)
    requires
        entries@.len() <= u32::MAX,
    ensures
        match r {
            Ok(tally) => entries_error(entry_views(entries@), *limits) is None && tally.counts(
                entry_views(entries@),
            ),
            Err(code) => entries_error(entry_views(entries@), *limits) == Some(code),
        },
{
    let ghost all = entry_views(entries@);
    let mut seen: Vec<String> = Vec::new();
    let mut directories: Vec<String> = Vec::new();
    let mut total_bytes: u64 = 0;
    let mut file_count: u32 = 0;
    let mut directory_count: u32 = 0;
    let mut i: usize = 0;
    while i < entries.len()
        invariant
            i <= entries@.len() <= u32::MAX,
            all == entry_views(entries@),
            seen@.len() == i,
            forall|k: int| 0 <= k < i ==> (#[trigger] seen@[k])@ == lowercase(all[k].relative_path),
            entries_error(all.subrange(0, i as int), *limits) is None,
            total_bytes == file_bytes(all.subrange(0, i as int)),
            file_count == kind_count(all.subrange(0, i as int), FileEntryKind::File),
            directory_count == kind_count(all.subrange(0, i as int), FileEntryKind::Directory),
            forall|folded: Seq<char>|
                directory_in(all.subrange(0, i as int), folded) <==> #[trigger] has_text(
                    directories@,
                    folded,
                ),
        decreases entries@.len() - i,
    {
        let entry = &entries[i];
        let ghost before = all.subrange(0, i as int);
        let ghost now = all.subrange(0, i + 1);
        let ghost code = entry_error(before, entry@, *limits);
        proof {
            assert(now.drop_last() =~= before);
            assert(now.last() == entry@);
            if code is Some {
                lemma_entries_error_prefix(all, i + 1, *limits);
            }
            lemma_counts_bound(before);
        }
        if byte_length(entry.relative_path.as_str()) > limits.max_relative_path_bytes {
            return Err(FetchAdmissionCode::InvalidManifest);
        }
        if entry.relative_path.as_str().is_empty() {
            if !matches!(entry.kind, FileEntryKind::File) {
                return Err(FetchAdmissionCode::InvalidManifest);
            }
        } else if validate_relative_path(entry.relative_path.as_str()).is_err() {
            return Err(FetchAdmissionCode::InvalidManifest);
        }
        let folded = to_lowercase(entry.relative_path.as_str());
        let repeated = string_in(&seen, &folded);
        proof {
            if repeated {
                let k = choose|k: int| 0 <= k < seen@.len() && (#[trigger] seen@[k])@ == folded@;
                assert(lowercase(before[k].relative_path) == folded@);
            } else if folded_path_in(before, folded@) {
                let k = choose|k: int|
                    0 <= k < before.len() && lowercase(#[trigger] before[k].relative_path)
                        == folded@;
                assert(seen@[k]@ == folded@);
            }
        }
        if repeated {
            return Err(FetchAdmissionCode::InvalidManifest);
        }
        match entry.kind {
            FileEntryKind::File => {
                if entry.byte_len > limits.max_file_bytes {
                    return Err(FetchAdmissionCode::TooLarge);
                }
                match total_bytes.checked_add(entry.byte_len) {
                    Some(sum) => {
                        total_bytes = sum;
                    },
                    None => {
                        return Err(FetchAdmissionCode::TooLarge);
                    },
                }
                file_count = file_count + 1;
                proof {
                    assert forall|f: Seq<char>|
                        directory_in(now, f) <==> #[trigger] has_text(directories@, f) by {
                        if directory_in(now, f) {
                            let k = choose|k: int|
                                0 <= k < now.len() && (#[trigger] now[k]).kind is Directory
                                    && lowercase(now[k].relative_path) == f;
                            assert(before[k] == now[k]);
                            assert(directory_in(before, f));
                        }
                        if has_text(directories@, f) {
                            assert(directory_in(before, f));
                            let k = choose|k: int|
                                0 <= k < before.len() && (#[trigger] before[k]).kind is Directory
                                    && lowercase(before[k].relative_path) == f;
                            assert(before[k] == now[k]);
                        }
                    }
                }
            },
            FileEntryKind::Directory => {
                if entry.byte_len != 0 {
                    return Err(FetchAdmissionCode::InvalidManifest);
                }
                directory_count = directory_count + 1;
                let ghost listed = directories@;
                let copy = folded.clone();
                directories.push(copy);
                proof {
                    assert forall|f: Seq<char>|
                        directory_in(now, f) <==> #[trigger] has_text(directories@, f) by {
                        assert(directory_in(before, f) <==> has_text(listed, f));
                        if directory_in(now, f) {
                            let k = choose|k: int|
                                0 <= k < now.len() && (#[trigger] now[k]).kind is Directory
                                    && lowercase(now[k].relative_path) == f;
                            if k < i {
                                assert(before[k] == now[k]);
                                assert(directory_in(before, f));
                                let j = choose|j: int|
                                    0 <= j < listed.len() && (#[trigger] listed[j])@ == f;
                                assert(directories@[j]@ == f);
                            } else {
                                assert(directories@[listed.len() as int]@ == f);
                            }
                        }
                        if has_text(directories@, f) {
                            let j = choose|j: int|
                                0 <= j < directories@.len() && (#[trigger] directories@[j])@ == f;
                            if j < listed.len() {
                                assert(listed[j]@ == f);
                                assert(has_text(listed, f));
                                let k = choose|k: int|
                                    0 <= k < before.len() && (
                                    #[trigger] before[k]).kind is Directory && lowercase(
                                        before[k].relative_path,
                                    ) == f;
                                assert(before[k] == now[k]);
                            } else {
                                assert(now[i as int].kind is Directory);
                            }
                        }
                    }
                }
            },
        }
        seen.push(folded);
        i = i + 1;
    }
    assert(all.subrange(0, i as int) =~= all);
    Ok(Tally { directories, total_bytes, file_count, directory_count })
}

fn check_parents_of(folded: &String, directories: &Vec<String>) -> (r: bool)
    ensures
        r == forall|k: int|
            0 <= k < folded@.len() && #[trigger] folded@[k] == '/' ==> has_text(
                directories@,
                folded@.subrange(0, k),
            ),
{
    let chars = chars_of(folded.as_str());
    let mut k: usize = 0;
    while k < chars.len()
        invariant
            k <= chars@.len(),
            chars@ == folded@,
            forall|j: int|
                0 <= j < k && #[trigger] folded@[j] == '/' ==> has_text(
                    directories@,
                    folded@.subrange(0, j),
                ),
        decreases chars@.len() - k,
    {
        if chars[k] == '/' {
            let parent = string_of(&chars, 0, k);
            if !string_in(directories, &parent) {
                assert(folded@[k as int] == '/' && !has_text(
                    directories@,
                    folded@.subrange(0, k as int),
                ));
                return false;
            }
        }
        k = k + 1;
    }
    true
}

fn check_parents(entries: &Vec<ManifestEntry>, tally: &Tally) -> (r: bool)
    requires
        tally.counts(entry_views(entries@)),
    ensures
        r == parents_listed(entry_views(entries@)),
{
    let ghost all = entry_views(entries@);
    let mut i: usize = 0;
    while i < entries.len()
        invariant
            i <= entries@.len(),
            all == entry_views(entries@),
            tally.counts(all),
            forall|k: int|
                0 <= k < i && (#[trigger] all[k]).relative_path.len() > 0
                    ==> parents_of_path_listed(all, all[k].relative_path),
        decreases entries@.len() - i,
    {
        let entry = &entries[i];
        if !entry.relative_path.as_str().is_empty() {
            let folded = to_lowercase(entry.relative_path.as_str());
            assert(all[i as int] == entry@);
            if !check_parents_of(&folded, &tally.directories) {
                assert(!parents_of_path_listed(all, all[i as int].relative_path));
                return false;
            }
            assert(parents_of_path_listed(all, all[i as int].relative_path));
        }
        i = i + 1;
    }
    true
}

/// Checks a manifest against the header, the descriptor of the card and the
/// bounds of the protocol.
pub fn validate_manifest(
    header: &FetchHeader,
    descriptor: &OfferDescriptor,
    manifest: &Manifest,
    limits: &V2Limits,
) -> (r: Result<(), FetchAdmissionCode>)
    ensures
        r == match manifest_error(header@, descriptor@, manifest@, *limits) {
            None => Ok::<(), FetchAdmissionCode>(()),
            Some(code) => Err(code),
        },
{
    let entries = &manifest.entries;
    if entries.len() != header.manifest_entries as usize {
        return Err(FetchAdmissionCode::InvalidManifest);
    }
    let tally = match check_entries(entries, limits) {
        Ok(tally) => tally,
        Err(code) => {
            return Err(code);
        },
    };
    if !check_parents(entries, &tally) {
        return Err(FetchAdmissionCode::InvalidManifest);
    }
    if tally.total_bytes > limits.max_transfer_bytes {
        return Err(FetchAdmissionCode::TooLarge);
    }
    let fits = match descriptor {
        OfferDescriptor::Text { .. } => entries.len() == 0,
        OfferDescriptor::File { total_bytes, .. } => entries.len() == 1 && matches!(
            entries[0].kind,
            FileEntryKind::File
        ) && entries[0].relative_path.as_str().is_empty() && tally.total_bytes == *total_bytes,
        OfferDescriptor::Folder { total_bytes, entry_count, file_count, directory_count, .. } => {
            tally.total_bytes == *total_bytes && tally.file_count == *file_count
                && tally.directory_count == *directory_count && entries.len()
                == *entry_count as usize
        },
    };
    if !fits {
        return Err(FetchAdmissionCode::InvalidManifest);
    }
    if let Some(promised) = &header.manifest_sha256 {
        let digest_matches = match &manifest.encoded {
            Some(bytes) => {
                let digest = sha256_of(bytes.as_slice());
                same_bytes(&digest, promised)
            },
            None => false,
        };
        if !digest_matches {
            return Err(FetchAdmissionCode::InvalidManifest);
        }
        let end_matches = match &manifest.end {
            Some(end) => end.entry_count as usize == entries.len() && end.file_count
                == tally.file_count && end.total_bytes == tally.total_bytes && same_bytes(
                &end.manifest_sha256,
                promised,
            ),
            None => false,
        };
        if !end_matches {
            return Err(FetchAdmissionCode::InvalidManifest);
        }
    }
    Ok(())
}

/// A frame that a receiver reads while it waits for a manifest.
#[derive(Debug)]
pub enum ManifestFrame {
    /// A chunk, with the length of its encoding where it could be encoded.
    Chunk(ManifestChunk, Option<usize>),
    End(ManifestEnd),
    Other,
}

/// Collects a manifest from its frames.
#[derive(Debug)]
pub struct ManifestReader {
    pub request_id: ActivationId,
    pub announced_entries: u32,
    pub announced_bytes: u64,
    pub next_index: u32,
    pub encoded_bytes: usize,
    pub entries: Vec<ManifestEntry>,
    pub end: Option<ManifestEnd>,
}

/// A manifest that is being collected.
pub ghost struct ManifestReaderView {
    pub request_id: ActivationId,
    pub announced_entries: u32,
    pub announced_bytes: u64,
    pub next_index: u32,
    pub encoded_bytes: usize,
    pub entries: Seq<EntryView>,
    pub end: Option<ManifestEndView>,
}

impl View for ManifestReader {
    type V = ManifestReaderView;

    open spec fn view(&self) -> ManifestReaderView {
        ManifestReaderView {
            request_id: self.request_id,
            announced_entries: self.announced_entries,
            announced_bytes: self.announced_bytes,
            next_index: self.next_index,
            encoded_bytes: self.encoded_bytes,
            entries: entry_views(self.entries@),
            end: match self.end {
                Some(end) => Some(end@),
                None => None,
            },
        }
    }
}

/// The failure that a bad manifest stands for.
pub open spec fn bad_manifest() -> ReceiveFailure<Seq<char>> {
    ReceiveFailure::Verification { files: 0, bytes: 0, detail: "invalid manifest"@ }
}

/// Whether `chunk` is the next one of the manifest: it belongs to the request,
/// continues where the last one ended, is not empty and stays within what the
/// header announced.
pub open spec fn chunk_continues(
    reader: ManifestReaderView,
    chunk: ManifestChunk,
    encoded_len: Option<usize>,
) -> bool {
    &&& chunk.request_id == reader.request_id
    &&& chunk.first_index == reader.next_index
    &&& chunk.entries@.len() > 0
    &&& reader.next_index + chunk.entries@.len() <= reader.announced_entries
    &&& encoded_len matches Some(n) && reader.encoded_bytes + n <= usize::MAX
}

impl ManifestReaderView {
    /// Whether the manifest is complete.
    pub open spec fn complete(self) -> bool {
        self.announced_entries == 0 || self.end is Some
    }

    /// What the frame does to the manifest so far.
    pub open spec fn next(self, frame: ManifestFrame, limits: V2Limits) -> Result<
        ManifestReaderView,
        ReceiveFailure<Seq<char>>,
    > {
        match frame {
            ManifestFrame::Chunk(chunk, encoded_len) => if self.next_index < self.announced_entries
                && chunk_continues(self, chunk, encoded_len) {
                Ok(
                    ManifestReaderView {
                        next_index: (self.next_index + chunk.entries@.len()) as u32,
                        encoded_bytes: (self.encoded_bytes + encoded_len->0) as usize,
                        entries: self.entries + entry_views(chunk.entries@),
                        ..self
                    },
                )
            } else {
                Err(bad_manifest())
            },
            ManifestFrame::End(end) => if self.next_index < self.announced_entries
                || end.request_id != self.request_id || self.encoded_bytes
                > limits.max_manifest_bytes || self.encoded_bytes != as_length(self.announced_bytes) {
                Err(bad_manifest())
            } else {
                Ok(ManifestReaderView { end: Some(end@), ..self })
            },
            ManifestFrame::Other => Err(bad_manifest()),
        }
    }
}

/// `n` as a length in memory; one that does not fit counts as the largest.
pub open spec fn as_length(n: u64) -> usize {
    if n <= usize::MAX {
        n as usize
    } else {
        usize::MAX
    }
}

fn length_of(n: u64) -> (r: usize)
    ensures
        r == as_length(n),
{
    if n <= usize::MAX as u64 {
        n as usize
    } else {
        usize::MAX
    }
}

fn manifest_invalid() -> (r: ReceiveFailure)
    ensures
        r@ == bad_manifest(),
{
    verification(0, 0, "invalid manifest")
}

impl ManifestReader {
    /// Waits for the manifest that a header announces.
    #[must_use]
    pub fn new(header: &FetchHeader) -> (r: Self)
        ensures
            r@ == (ManifestReaderView {
                request_id: header.request_id,
                announced_entries: header.manifest_entries,
                announced_bytes: header.manifest_encoded_bytes,
                next_index: 0,
                encoded_bytes: 0,
                entries: Seq::empty(),
                end: None,
            }),
    {
        let r = ManifestReader {
            request_id: header.request_id,
            announced_entries: header.manifest_entries,
            announced_bytes: header.manifest_encoded_bytes,
            next_index: 0,
            encoded_bytes: 0,
            entries: Vec::new(),
            end: None,
        };
        assert(entry_views(r.entries@) =~= Seq::<EntryView>::empty());
        r
    }

    /// Whether the manifest is complete.
    #[must_use]
    pub fn is_complete(&self) -> (r: bool)
        ensures
            r == self@.complete(),
    {
        self.announced_entries == 0 || self.end.is_some()
    }

    /// Takes the next frame of the manifest.
    pub fn read_manifest(self, frame: ManifestFrame, limits: &V2Limits) -> (r: Result<
        ManifestReader,
        ReceiveFailure,
    >)
        ensures
            match (r, self@.next(frame, *limits)) {
                (Ok(reader), Ok(expected)) => reader@ == expected,
                (Err(failure), Err(expected)) => failure@ == expected,
                _ => false,
            },
    {
        let mut reader = self;
        match frame {
            ManifestFrame::Chunk(chunk, encoded_len) => {
                if reader.next_index >= reader.announced_entries || chunk.request_id
                    != reader.request_id || chunk.first_index != reader.next_index
                    || chunk.entries.len() == 0 || chunk.entries.len() as u64
                    > (reader.announced_entries - reader.next_index) as u64 {
                    return Err(manifest_invalid());
                }
                let encoded: Option<usize> = match encoded_len {
                    Some(n) => reader.encoded_bytes.checked_add(n),
                    None => None,
                };
                match encoded {
                    Some(n) => {
                        reader.encoded_bytes = n;
                    },
                    None => {
                        return Err(manifest_invalid());
                    },
                }
                let ghost before = reader.entries@;
                let mut entries = chunk.entries;
                reader.next_index = reader.next_index + entries.len() as u32;
                reader.entries.append(&mut entries);
                assert(entry_views(reader.entries@) =~= entry_views(before) + entry_views(
                    chunk.entries@,
                ));
                Ok(reader)
            },
            ManifestFrame::End(end) => {
                if reader.next_index < reader.announced_entries || end.request_id
                    != reader.request_id || reader.encoded_bytes > limits.max_manifest_bytes
                    || reader.encoded_bytes != length_of(reader.announced_bytes) {
                    return Err(manifest_invalid());
                }
                reader.end = Some(end);
                Ok(reader)
            },
            ManifestFrame::Other => Err(manifest_invalid()),
        }
    }
}

/// In an accepted manifest no two paths are equal but for case.
pub proof fn lemma_accepted_paths_differ(entries: Seq<EntryView>, limits: V2Limits, i: int, j: int)
    requires
        entries_error(entries, limits) is None,
        0 <= i < j < entries.len(),
    ensures
        lowercase(entries[i].relative_path) != lowercase(entries[j].relative_path),
    decreases entries.len(),
{
    let before = entries.drop_last();
    if j == entries.len() - 1 {
        assert(before[i] == entries[i]);
    } else {
        lemma_accepted_paths_differ(before, limits, i, j);
    }
}

/// In an accepted manifest every path stays inside the received folder.
pub proof fn lemma_accepted_paths_are_portable(entries: Seq<EntryView>, limits: V2Limits, i: int)
    requires
        entries_error(entries, limits) is None,
        0 <= i < entries.len(),
        entries[i].relative_path.len() > 0,
    ensures
        path_error(entries[i].relative_path) is None,
    decreases entries.len(),
{
    if i < entries.len() - 1 {
        lemma_accepted_paths_are_portable(entries.drop_last(), limits, i);
    }
}

/// Every entry of an accepted manifest is a file or a directory, and the files
/// hold exactly the bytes that the descriptor announced.
pub proof fn lemma_accepted_manifest_totals(
    header: HeaderView,
    descriptor: DescriptorView,
    manifest: ManifestView,
    limits: V2Limits,
)
    requires
        manifest_error(header, descriptor, manifest, limits) is None,
    ensures
        file_bytes(manifest.entries) == if descriptor is Text {
            0
        } else {
            counts_of(descriptor).total_bytes as nat
        },
        kind_count(manifest.entries, FileEntryKind::File) == counts_of(descriptor).file_count,
        kind_count(manifest.entries, FileEntryKind::File) + kind_count(
            manifest.entries,
            FileEntryKind::Directory,
        ) == manifest.entries.len(),
{
    lemma_kinds_cover(manifest.entries);
    match descriptor {
        DescriptorView::File { .. } => {
            let entries = manifest.entries;
            assert(entries.drop_last() =~= Seq::<EntryView>::empty());
            assert(entries.last() == entries[0]);
            assert(kind_count(entries.drop_last(), FileEntryKind::File) == 0);
        },
        _ => {},
    }
}

proof fn lemma_kinds_cover(entries: Seq<EntryView>)
    ensures
        kind_count(entries, FileEntryKind::File) + kind_count(entries, FileEntryKind::Directory)
            == entries.len(),
    decreases entries.len(),
{
    if entries.len() > 0 {
        lemma_kinds_cover(entries.drop_last());
    }
}

} // verus!
