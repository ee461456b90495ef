//! Which manifests are accepted, and how they are put together.
use vstd::prelude::*;

use crate::activation::FetchActivationView;
use crate::destination::path_error;
use crate::digest::sha256;
use crate::failure::ReceiveFailure;
use crate::manifest::{
    as_length, bad_manifest, counts_of, directory_in, entries_error, file_bytes, folded_path_in,
    header_answers, kind_count, lowercase, manifest_error, parents_listed, parents_of_path_listed,
    reservation_needed, HeaderView, ManifestFrame, ManifestReaderView, ManifestView,
};
use crate::model::ContentKind;
use crate::offer::DescriptorView;
use crate::text::byte_len;
use crate::wire::{
    EntryView, FetchAdmissionCode, FileEntryKind, ManifestChunk, ManifestEnd, V2Limits,
};

verus! {

/// What two lists hold together is the sum of what each holds, and a list of one holds
/// its entry: its bytes where it is a file, and one of its kind.
pub proof fn lemma_lists_add_up(
    a: Seq<EntryView>,
    b: Seq<EntryView>,
    entry: EntryView,
    kind: FileEntryKind,
)
    ensures
        file_bytes(a + b) == file_bytes(a) + file_bytes(b),
        kind_count(a + b, kind) == kind_count(a, kind) + kind_count(b, kind),
        entry.kind is File ==> file_bytes(seq![entry]) == entry.byte_len,
        entry.kind is Directory ==> file_bytes(seq![entry]) == 0,
        entry.kind == kind ==> kind_count(seq![entry], kind) == 1,
        entry.kind != kind ==> kind_count(seq![entry], kind) == 0,
        file_bytes(Seq::empty()) == 0,
        kind_count(Seq::empty(), kind) == 0,
    decreases b.len(),
{
    reveal_with_fuel(file_bytes, 3);
    reveal_with_fuel(kind_count, 3);
    assert(seq![entry].drop_last() =~= Seq::empty());
    if b.len() == 0 {
        assert(a + b =~= a);
    } else {
        lemma_lists_add_up(a, b.drop_last(), entry, kind);
        assert((a + b).drop_last() =~= a + b.drop_last());
        assert((a + b).last() == b.last());
    }
}

/// One entry by itself can be taken: its path is not too long, it is portable or, for a
/// file, empty; a directory has no bytes, and a file not too many.
pub open spec fn fits_alone(entry: EntryView, limits: V2Limits) -> bool {
    &&& byte_len(entry.relative_path) <= limits.max_relative_path_bytes
    &&& entry.relative_path.len() == 0 ==> entry.kind is File
    &&& entry.relative_path.len() > 0 ==> path_error(entry.relative_path) is None
    &&& entry.kind is Directory ==> entry.byte_len == 0
    &&& entry.kind is File ==> entry.byte_len <= limits.max_file_bytes
}

/// No two entries have the same path when case is left aside.
pub open spec fn paths_differ(entries: Seq<EntryView>) -> bool {
    forall|i: int, j: int|
        0 <= i < j < entries.len() ==> lowercase((#[trigger] entries[i]).relative_path)
            != lowercase((#[trigger] entries[j]).relative_path)
}

proof fn lemma_entries_error(entries: Seq<EntryView>, limits: V2Limits)
    ensures
        entries_error(entries, limits) is None <==> {
            &&& forall|i: int| 0 <= i < entries.len() ==> fits_alone(#[trigger] entries[i], limits)
            &&& paths_differ(entries)
            &&& file_bytes(entries) <= u64::MAX
        },
        entries_error(entries, limits) matches Some(code) ==> code is InvalidManifest
            || code is TooLarge,
        entries_error(entries, limits) == Some(FetchAdmissionCode::TooLarge) ==> file_bytes(entries)
            > u64::MAX || exists|i: int|
            0 <= i < entries.len() && (#[trigger] entries[i]).kind is File && entries[i].byte_len
                > limits.max_file_bytes,
        entries_error(entries, limits) == Some(FetchAdmissionCode::InvalidManifest) ==> {
            ||| !paths_differ(entries)
            ||| exists|i: int|
                0 <= i < entries.len() && !fits_alone(#[trigger] entries[i], limits) && !(
                entries[i].kind is File && entries[i].byte_len > limits.max_file_bytes
                    && fits_alone(EntryView { byte_len: 0, ..entries[i] }, limits))
        },
    decreases entries.len(),
{
    if entries.len() > 0 {
        let before = entries.drop_last();
        let last = entries.last();
        let n = entries.len() - 1;
        lemma_entries_error(before, limits);
        assert forall|i: int| 0 <= i < n implies #[trigger] before[i] == entries[i] by {}
        assert(entries[n] == last);
        if entries_error(entries, limits) is None {
            assert forall|i: int| 0 <= i < entries.len() implies fits_alone(
                #[trigger] entries[i],
                limits,
            ) by {
                if i < n {
                    assert(fits_alone(before[i], limits));
                }
            }
        }
        if entries_error(before, limits) is None {
            if folded_path_in(before, lowercase(last.relative_path)) {
                let i = choose|i: int|
                    0 <= i < before.len() && lowercase(#[trigger] before[i].relative_path)
                        == lowercase(last.relative_path);
                assert(lowercase(entries[i].relative_path) == lowercase(entries[n].relative_path));
                assert(!paths_differ(entries));
            } else {
                assert forall|i: int, j: int| 0 <= i < j < entries.len() implies lowercase(
                    (#[trigger] entries[i]).relative_path,
                ) != lowercase((#[trigger] entries[j]).relative_path) by {
                    if j == n {
                        assert(before[i] == entries[i]);
                    } else {
                        assert(before[i] == entries[i] && before[j] == entries[j]);
                    }
                }
            }
        } else {
            if forall|i: int| 0 <= i < entries.len() ==> fits_alone(#[trigger] entries[i], limits) {
                assert forall|i: int| 0 <= i < before.len() implies fits_alone(
                    #[trigger] before[i],
                    limits,
                ) by {
                    assert(fits_alone(entries[i], limits));
                }
            }
            if !paths_differ(before) {
                let (i, j) = choose|i: int, j: int|
                    0 <= i < j < before.len() && lowercase((#[trigger] before[i]).relative_path)
                        == lowercase((#[trigger] before[j]).relative_path);
                assert(lowercase(entries[i].relative_path) == lowercase(entries[j].relative_path));
            }
        }
    }
}

/// Every path's parents are among the directories, case left aside.
pub open spec fn under_listed_directories(entries: Seq<EntryView>) -> bool {
    forall|i: int, k: int|
        #![trigger lowercase(entries[i].relative_path)[k]]
        0 <= i < entries.len() && 0 <= k < lowercase(entries[i].relative_path).len() && lowercase(
            entries[i].relative_path,
        )[k] == '/' && entries[i].relative_path.len() > 0 ==> exists|d: int|
            0 <= d < entries.len() && (#[trigger] entries[d]).kind is Directory && lowercase(
                entries[d].relative_path,
            ) == lowercase(entries[i].relative_path).subrange(0, k)
}

proof fn lemma_parents(entries: Seq<EntryView>)
    ensures
        parents_listed(entries) <==> under_listed_directories(entries),
{
    if parents_listed(entries) {
        assert forall|i: int, k: int|
            #![trigger lowercase(entries[i].relative_path)[k]]
            0 <= i < entries.len() && 0 <= k < lowercase(entries[i].relative_path).len()
                && lowercase(entries[i].relative_path)[k] == '/' && entries[i].relative_path.len()
                > 0 implies exists|d: int|
            0 <= d < entries.len() && (#[trigger] entries[d]).kind is Directory && lowercase(
                entries[d].relative_path,
            ) == lowercase(entries[i].relative_path).subrange(0, k) by {
            assert(parents_of_path_listed(entries, entries[i].relative_path));
            assert(directory_in(entries, lowercase(entries[i].relative_path).subrange(0, k)));
        }
    }
    if under_listed_directories(entries) {
        assert forall|i: int|
            0 <= i < entries.len() && (#[trigger] entries[i]).relative_path.len()
                > 0 implies parents_of_path_listed(
            entries,
            entries[i].relative_path,
        ) by {
            let path = entries[i].relative_path;
            assert forall|k: int|
                0 <= k < lowercase(path).len() && #[trigger] lowercase(path)[k]
                    == '/' implies directory_in(entries, lowercase(path).subrange(0, k)) by {
                assert(lowercase(entries[i].relative_path)[k] == '/');
            }
        }
    }
}

/// The entries are those that a card describes: one file without a path for a file, and
/// for a folder as many files, directories and bytes as it says.
pub open spec fn described_by(entries: Seq<EntryView>, card: DescriptorView) -> bool {
    &&& card is Text ==> entries =~= Seq::<EntryView>::empty()
    &&& card matches DescriptorView::File { total_bytes, .. } ==> entries.len() == 1
        && entries[0].kind is File && entries[0].relative_path =~= Seq::<char>::empty()
        && entries[0].byte_len == total_bytes
    &&& card matches DescriptorView::Folder {
        total_bytes,
        entry_count,
        file_count,
        directory_count,
        ..
    } ==> file_bytes(entries) == total_bytes && kind_count(entries, FileEntryKind::File)
        == file_count && kind_count(entries, FileEntryKind::Directory) == directory_count
        && entries.len() == entry_count
}

/// A manifest is what its header promised: where there is a digest, it is that of the
/// bytes that came, and the closing frame repeats it with the totals.
pub open spec fn as_promised(header: HeaderView, manifest: ManifestView) -> bool {
    header.manifest_sha256 matches Some(digest) ==> {
        &&& manifest.encoded matches Some(bytes) && sha256(bytes) == digest
        &&& manifest.end matches Some(end) && end.manifest_sha256 == digest && end.entry_count
            == manifest.entries.len() && end.file_count == kind_count(
            manifest.entries,
            FileEntryKind::File,
        ) && end.total_bytes == file_bytes(manifest.entries)
    }
}

proof fn lemma_one_file(entries: Seq<EntryView>)
    ensures
        entries.len() == 1 && entries[0].kind is File ==> file_bytes(entries)
            == entries[0].byte_len,
{
    if entries.len() == 1 {
        lemma_lists_add_up(entries, entries, entries[0], FileEntryKind::File);
        assert(entries =~= seq![entries[0]]);
    }
}

/// A manifest is accepted exactly where it holds as many entries as were announced, each
/// fits, no path occurs twice, every parent is listed, the bytes are not too many, and
/// the whole is what the card describes and the header promised.
pub proof fn lemma_manifests_that_are_accepted(
    header: HeaderView,
    card: DescriptorView,
    manifest: ManifestView,
    limits: V2Limits,
)
    ensures
        manifest_error(header, card, manifest, limits) is None <==> {
            &&& manifest.entries.len() == header.manifest_entries
            &&& forall|i: int|
                0 <= i < manifest.entries.len() ==> fits_alone(
                    #[trigger] manifest.entries[i],
                    limits,
                )
            &&& paths_differ(manifest.entries)
            &&& under_listed_directories(manifest.entries)
            &&& file_bytes(manifest.entries) <= limits.max_transfer_bytes
            &&& described_by(manifest.entries, card)
            &&& as_promised(header, manifest)
        },
{
    lemma_entries_error(manifest.entries, limits);
    lemma_parents(manifest.entries);
    lemma_one_file(manifest.entries);
}

/// A manifest that is refused is refused as too large only where a file or the whole is
/// over its limit, and as invalid only where something else is wrong with it.
pub proof fn lemma_refused_manifests(
    header: HeaderView,
    card: DescriptorView,
    manifest: ManifestView,
    limits: V2Limits,
)
    ensures
        manifest_error(header, card, manifest, limits) matches Some(code) ==> code is InvalidManifest
            || code is TooLarge,
        manifest_error(header, card, manifest, limits) == Some(FetchAdmissionCode::TooLarge) ==> {
            ||| file_bytes(manifest.entries) > limits.max_transfer_bytes
            ||| exists|i: int|
                0 <= i < manifest.entries.len() && (#[trigger] manifest.entries[i]).kind is File
                    && manifest.entries[i].byte_len > limits.max_file_bytes
        },
        manifest_error(header, card, manifest, limits) == Some(
            FetchAdmissionCode::InvalidManifest,
        ) ==> {
            ||| manifest.entries.len() != header.manifest_entries
            ||| !paths_differ(manifest.entries)
            ||| !under_listed_directories(manifest.entries)
            ||| !described_by(manifest.entries, card)
            ||| !as_promised(header, manifest)
            ||| exists|i: int|
                0 <= i < manifest.entries.len() && !fits_alone(
                    #[trigger] manifest.entries[i],
                    limits,
                ) && !(manifest.entries[i].kind is File && manifest.entries[i].byte_len
                    > limits.max_file_bytes && fits_alone(
                    EntryView { byte_len: 0, ..manifest.entries[i] },
                    limits,
                ))
        },
{
    lemma_entries_error(manifest.entries, limits);
    lemma_parents(manifest.entries);
    lemma_one_file(manifest.entries);
}

/// A header answers a request exactly where it names the request, the offer and the card
/// as they are; for a text it carries the text's digest and no manifest, for anything else
/// the manifest's digest and no text's.
pub proof fn lemma_headers_that_answer(
    header: HeaderView,
    card: DescriptorView,
    activation: FetchActivationView,
)
    ensures
        header_answers(header, card, activation) ==> header.request_id == activation.request_id
            && header.offer_id == activation.offer_id && header.descriptor == card,
        header_answers(header, card, activation) && card is Text ==> header.text_sha256 is Some
            && header.text_sha256->0.len() == 32 && header.manifest_sha256 is None
            && header.manifest_entries == 0 && header.manifest_encoded_bytes == 0,
        header_answers(header, card, activation) && !(card is Text) ==> header.manifest_sha256 is Some
            && header.manifest_sha256->0.len() == 32 && header.text_sha256 is None,
        !header_answers(header, card, activation) ==> {
            ||| header.request_id != activation.request_id
            ||| header.offer_id != activation.offer_id
            ||| header.descriptor != card
            ||| card is Text && !(header.text_sha256 matches Some(d) && d.len() == 32)
            ||| card is Text && (header.manifest_sha256 is Some || header.manifest_entries > 0
                || header.manifest_encoded_bytes > 0)
            ||| !(card is Text) && !(header.manifest_sha256 matches Some(d) && d.len() == 32)
            ||| !(card is Text) && header.text_sha256 is Some
        },
{
}

/// What is planned for a card has its kind, its bytes and its files; room is asked for
/// exactly where it is no text and there are bytes.
pub proof fn lemma_what_is_planned(card: DescriptorView, kind: ContentKind, bytes: u64)
    ensures
        ({
            let plan = counts_of(card);
            &&& plan.content_kind is Text <==> card is Text
            &&& plan.content_kind is File <==> card is File
            &&& plan.content_kind is Folder <==> card is Folder
            &&& card matches DescriptorView::Text { utf8_bytes, .. } ==> plan.total_bytes
                == utf8_bytes && plan.file_count == 0
            &&& card matches DescriptorView::File { total_bytes, .. } ==> plan.total_bytes
                == total_bytes && plan.file_count == 1
            &&& card matches DescriptorView::Folder { total_bytes, file_count, .. }
                ==> plan.total_bytes == total_bytes && plan.file_count == file_count
        }),
        reservation_needed(kind, bytes) <==> bytes != 0 && !(kind is Text),
{
}

/// A part of a manifest is taken exactly where it belongs to the request, is not empty,
/// comes where the last one ended, goes not beyond what was announced, and its length is
/// known.  Its entries are put after those that came before.
pub proof fn lemma_parts_of_a_manifest(
    reader: ManifestReaderView,
    chunk: ManifestChunk,
    encoded_len: Option<usize>,
    limits: V2Limits,
)
    ensures
        reader.next(ManifestFrame::Chunk(chunk, encoded_len), limits) is Ok <==> {
            &&& chunk.request_id == reader.request_id
            &&& chunk.first_index == reader.next_index
            &&& chunk.entries@.len() > 0
            &&& reader.next_index + chunk.entries@.len() <= reader.announced_entries
            &&& encoded_len is Some
            &&& reader.encoded_bytes + encoded_len->0 <= usize::MAX
        },
        reader.next(ManifestFrame::Chunk(chunk, encoded_len), limits) matches Ok(next) ==> {
            &&& next.entries.len() == reader.entries.len() + chunk.entries@.len()
            &&& forall|i: int|
                0 <= i < reader.entries.len() ==> #[trigger] next.entries[i] == reader.entries[i]
            &&& forall|i: int|
                0 <= i < chunk.entries@.len() ==> next.entries[reader.entries.len() + i] == (
                #[trigger] chunk.entries@[i])@
            &&& next.next_index == reader.next_index + chunk.entries@.len()
            &&& next.encoded_bytes == reader.encoded_bytes + encoded_len->0
            &&& next.request_id == reader.request_id
            &&& next.announced_entries == reader.announced_entries
            &&& next.announced_bytes == reader.announced_bytes
            &&& next.end == reader.end
        },
        reader.next(ManifestFrame::Chunk(chunk, encoded_len), limits) matches Err(failure)
            ==> failure == bad_manifest(),
        reader.next(ManifestFrame::Other, limits) == Err::<ManifestReaderView, _>(bad_manifest()),
        bad_manifest() matches ReceiveFailure::Verification {
            files,
            bytes,
            detail,
        } && files == 0 && bytes == 0 && detail == "invalid manifest"@,
{
}

/// A manifest closes exactly where everything announced has come, in as many bytes as
/// were announced and not more than are allowed; what was read stays.
pub proof fn lemma_the_end_of_a_manifest(
    reader: ManifestReaderView,
    end: ManifestEnd,
    limits: V2Limits,
)
    ensures
        reader.next(ManifestFrame::End(end), limits) is Ok <==> {
            &&& reader.next_index >= reader.announced_entries
            &&& end.request_id == reader.request_id
            &&& reader.encoded_bytes <= limits.max_manifest_bytes
            &&& reader.encoded_bytes == as_length(reader.announced_bytes)
        },
        reader.next(ManifestFrame::End(end), limits) matches Ok(next) ==> next.end == Some(end@)
            && next.entries == reader.entries && next.complete(),
        reader.announced_bytes <= usize::MAX ==> as_length(reader.announced_bytes)
            == reader.announced_bytes,
        reader.announced_entries > 0 && reader.end is None ==> !reader.complete(),
        reader.announced_entries == 0 ==> reader.complete(),
{
}

} // verus!
