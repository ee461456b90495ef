//! When what was offered is still what is there.
use vstd::prelude::*;

use crate::digest::sha256;
use crate::manifest::counts_of;
use crate::offer::DescriptorView;
use crate::offer_source::{
    offering, root_error, walk_error, walked_descriptor, SourcePreparationError,
};
use crate::source::{offerable_component, servable_component, MetadataView};
use crate::source_plan::{
    counts_kept, file_check, finished_plan, folder_check, root_commitment, same_plan, text_plan,
    walk_failure, DraftView, PlanView, SourceFailure,
};
use crate::text::byte_len;
use crate::walk::{child_path, WalkEvent, WalkFault, WalkRules, WalkStep, WalkView};
use crate::wire::{FileEntryKind, V2Limits};

verus! {

/// A file is served exactly where it is still there as a plain file of its name and length,
/// not too large, with a time, and committed to as before.  What is missing, or has no
/// time, is unavailable; anything else has changed.
pub proof fn lemma_files_that_are_served(
    root_name: Seq<char>,
    total_bytes: u64,
    metadata: Option<MetadataView>,
    basename: Option<Seq<char>>,
    stored: Seq<u8>,
)
    ensures
        ({
            let r = file_check(root_name, total_bytes, metadata, basename, stored);
            let plain = metadata matches Some(m) && m.is_file && !m.is_symlink && basename == Some(
                root_name,
            ) && m.len == total_bytes && m.len <= 8_589_934_592;
            &&& r is Ok <==> (metadata matches Some(m) && plain && m.modified is Some
                && root_commitment(root_name, m) == stored)
            &&& r == Err::<DraftView, _>(SourceFailure::Unavailable) <==> (metadata is None || (
            plain && (metadata matches Some(m) && m.modified is None)))
            &&& r matches Err(failure) ==> failure is Unavailable || failure is Changed
        }),
        ({
            let r = file_check(root_name, total_bytes, metadata, basename, stored);
            r matches Ok(draft) ==> {
                &&& draft.commitment == stored
                &&& draft.manifest.len() == 1 && draft.files.len() == 1
                &&& draft.manifest[0].kind is File && draft.manifest[0].relative_path.len() == 0
                    && draft.manifest[0].byte_len == total_bytes
                &&& draft.files[0].is_root && draft.files[0].entry_index == 0
                    && draft.files[0].relative_name == root_name && draft.files[0].byte_len
                    == total_bytes && draft.files[0].metadata_digest == stored
            }
        }),
{
}

/// A folder is served exactly where its walk came to its end with the counts of its card
/// and the commitment that was stored; what could not be read, or has no time, is
/// unavailable, and anything else has changed.
pub proof fn lemma_folders_that_are_served(
    walk: WalkView,
    card: DescriptorView,
    stored: Seq<u8>,
)
    ensures
        folder_check(walk, card, stored) is Ok <==> {
            &&& walk.step == WalkStep::<Seq<char>>::Finished(Ok(()))
            &&& counts_kept(walk, card)
            &&& sha256(walk.transcript) == stored
        },
        folder_check(walk, card, stored) matches Ok(draft) ==> draft.manifest == walk.manifest
            && draft.files == walk.files && draft.commitment == stored,
        counts_kept(walk, card) <==> (card matches DescriptorView::Folder {
            total_bytes,
            entry_count,
            file_count,
            directory_count,
            ..
        } && walk.total_bytes == total_bytes && walk.entry_count == entry_count && walk.file_count
            == file_count && walk.directory_count == directory_count && total_bytes
            <= 17_179_869_184 && entry_count <= 4096),
        walk.step == WalkStep::<Seq<char>>::Finished(Ok(())) ==> !(folder_check(
            walk,
            card,
            stored,
        ) matches Err(SourceFailure::Unavailable)),
        walk.step matches WalkStep::Finished(Err(fault)) ==> folder_check(walk, card, stored)
            == Err::<DraftView, _>(walk_failure(fault)),
{
    if let WalkStep::Finished(Ok(unit)) = walk.step {
        assert(unit == ());
    }
}

/// A walk that failed means that the source is unavailable exactly where something could
/// not be read or had no time; all other failures mean that it changed.
pub proof fn lemma_failed_walks(fault: WalkFault<Seq<char>>)
    ensures
        walk_failure(fault) is Unavailable <==> fault is Unreadable || fault is NoTimestamp,
        walk_failure(fault) is Changed <==> !(fault is Unreadable || fault is NoTimestamp),
{
}

/// A plan carries what was drafted under its card; only a folder whose manifest is too
/// long, or one that could not be written down, has none.
pub proof fn lemma_plans_carry_their_drafts(
    card: DescriptorView,
    draft: DraftView,
    chunk_bytes: Option<usize>,
    encoded: Option<Seq<u8>>,
    limits: V2Limits,
)
    ensures
        ({
            let r = finished_plan(card, draft, chunk_bytes, encoded, limits);
            &&& r is Ok <==> chunk_bytes is Some && encoded is Some && (card is Folder
                ==> chunk_bytes->0 <= limits.max_manifest_bytes)
            &&& r matches Ok(plan) ==> {
                &&& plan.descriptor == card && plan.text is None
                &&& plan.manifest == draft.manifest && plan.files == draft.files
                &&& plan.manifest_encoded_bytes == chunk_bytes->0
                &&& plan.manifest_sha256 == Some(sha256(encoded->0))
                &&& plan.source_commitment == Some(draft.commitment)
                &&& plan.total_bytes == counts_of(card).total_bytes
            }
            &&& r matches Err(failure) ==> failure is Malformed
        }),
{
}

/// A text is planned whole, without a manifest or files.
pub proof fn lemma_plans_of_texts(card: DescriptorView, text: Seq<char>)
    requires
        byte_len(text) <= u64::MAX,
    ensures
        ({
            let plan = text_plan(card, text);
            &&& plan.descriptor == card && plan.text == Some(text)
            &&& plan.total_bytes == byte_len(text)
            &&& plan.manifest.len() == 0 && plan.files.len() == 0
            &&& plan.manifest_encoded_bytes == 0 && plan.manifest_sha256 is None
                && plan.source_commitment is None
        }),
{
}

/// Two plans are the same source exactly where the card, the manifest, its digest and the
/// commitment agree; so a plan is the same as itself, and it does not matter which comes
/// first.
pub proof fn lemma_plans_of_the_same_source(a: PlanView, b: PlanView)
    ensures
        same_plan(a, a),
        same_plan(a, b) == same_plan(b, a),
        a.descriptor != b.descriptor ==> !same_plan(a, b),
        a.manifest != b.manifest ==> !same_plan(a, b),
        a.manifest_sha256 != b.manifest_sha256 ==> !same_plan(a, b),
        a.source_commitment != b.source_commitment ==> !same_plan(a, b),
        !same_plan(a, b) ==> a.descriptor != b.descriptor || a.manifest != b.manifest
            || a.manifest_sha256 != b.manifest_sha256 || a.source_commitment
            != b.source_commitment,
{
}

proof fn lemma_advance_keeps(w: WalkView)
    ensures
        w.advance().manifest == w.manifest,
        w.advance().files == w.files,
        w.advance().transcript == w.transcript,
        w.advance().total_bytes == w.total_bytes,
        w.advance().entry_count == w.entry_count,
        w.advance().file_count == w.file_count,
        w.advance().directory_count == w.directory_count,
        w.advance().rules == w.rules,
        w.advance().step matches WalkStep::Finished(Err(fault)) ==> fault is NonUtf8Name
            || fault is InvalidName || fault is PathTooLong,
    decreases w.frames.len(),
{
    if w.frames.len() > 0 {
        let outer = w.frames.drop_last();
        if w.frames.last().names.len() == 0 {
            lemma_advance_keeps(WalkView { frames: outer, ..w });
        }
    }
}

/// An entry is taken into a walk.
pub open spec fn taken_into(w: WalkView, m: MetadataView) -> bool {
    &&& !m.is_symlink
    &&& w.entry_count < w.rules.max_entries()
    &&& m.modified is Some
    &&& m.is_file ==> m.len <= 8_589_934_592 && w.total_bytes + m.len <= 17_179_869_184
    &&& m.is_file || m.is_directory
}

/// An entry is taken exactly where it is a file or a directory and no link, has a time, and
/// is neither too large nor one too many; a file counts with its bytes, a directory is
/// listed next.
pub proof fn lemma_entries_that_are_walked(w: WalkView, path: Seq<char>, m: MetadataView)
    requires
        w.wf(),
        w.entry_count < u32::MAX,
    ensures
        ({
            let q = w.visit(path, m);
            let n = w.manifest.len() as int;
            &&& q.manifest.len() == n + 1 <==> taken_into(w, m)
            &&& !taken_into(w, m) ==> q.manifest == w.manifest && (q.step
                matches WalkStep::Finished(Err(_)))
            &&& taken_into(w, m) ==> {
                &&& q.manifest.drop_last() == w.manifest
                &&& q.manifest[n].relative_path == path
                &&& m.is_file ==> q.manifest[n].kind is File && q.manifest[n].byte_len == m.len
                    && q.total_bytes == w.total_bytes + m.len && q.file_count == w.file_count + 1
                    && q.files.len() == w.files.len() + 1 && q.files.last().relative_name == path
                    && q.files.last().entry_index == n && q.files.last().byte_len == m.len
                    && !q.files.last().is_root && q.directory_count == w.directory_count
                &&& !m.is_file ==> q.manifest[n].kind is Directory && q.manifest[n].byte_len == 0
                    && q.total_bytes == w.total_bytes && q.directory_count == w.directory_count + 1
                    && q.files == w.files && q.step == WalkStep::List(path) && q.file_count
                    == w.file_count
                &&& q.entry_count == w.entry_count + 1
            }
        }),
{
    if m.is_file {
        let counted = WalkView {
            entry_count: (w.entry_count + 1) as u32,
            transcript: w.transcript + crate::source::metadata_bytes("entry"@, path, m),
            file_count: (w.file_count + 1) as u32,
            total_bytes: (w.total_bytes + m.len) as u64,
            manifest: w.manifest.push(
                crate::wire::EntryView {
                    relative_path: path,
                    kind: FileEntryKind::File,
                    byte_len: m.len,
                },
            ),
            files: w.files.push(
                crate::walk::LiveFileView {
                    entry_index: w.manifest.len() as u32,
                    is_root: false,
                    relative_name: path,
                    byte_len: m.len,
                    metadata_digest: sha256(crate::source::metadata_bytes("entry"@, path, m)),
                },
            ),
            ..w
        };
        lemma_advance_keeps(counted);
        assert(counted.manifest.drop_last() =~= w.manifest);
    }
    if !m.is_file && taken_into(w, m) {
        assert(w.visit(path, m).manifest.drop_last() =~= w.manifest);
    }
}

/// Why an entry is not taken: the first of the reasons that holds.
pub proof fn lemma_entries_that_are_not_walked(w: WalkView, path: Seq<char>, m: MetadataView)
    ensures
        ({
            let q = w.visit(path, m);
            let full = w.entry_count >= w.rules.max_entries();
            &&& m.is_symlink <==> (q.step matches WalkStep::Finished(Err(WalkFault::Symlink)))
            &&& !m.is_symlink && full <==> (q.step
                matches WalkStep::Finished(Err(WalkFault::TooManyEntries)))
            &&& !m.is_symlink && !full && m.modified is None <==> (q.step
                matches WalkStep::Finished(Err(WalkFault::NoTimestamp)))
            &&& !m.is_symlink && !full && m.modified is Some && m.is_file && m.len > 8_589_934_592
                <==> (q.step matches WalkStep::Finished(Err(WalkFault::FileTooLarge)))
            &&& !m.is_symlink && !full && m.modified is Some && m.is_file && m.len <= 8_589_934_592
                && w.total_bytes + m.len > 17_179_869_184 <==> (q.step
                matches WalkStep::Finished(Err(WalkFault::TreeTooLarge)))
            &&& !m.is_symlink && !full && m.modified is Some && !m.is_file && !m.is_directory
                <==> (q.step matches WalkStep::Finished(Err(WalkFault::SpecialFile)))
        }),
{
    if m.is_file {
        let counted = WalkView {
            entry_count: (w.entry_count + 1) as u32,
            transcript: w.transcript + crate::source::metadata_bytes("entry"@, path, m),
            file_count: (w.file_count + 1) as u32,
            total_bytes: (w.total_bytes + m.len) as u64,
            manifest: w.manifest.push(
                crate::wire::EntryView {
                    relative_path: path,
                    kind: FileEntryKind::File,
                    byte_len: m.len,
                },
            ),
            files: w.files.push(
                crate::walk::LiveFileView {
                    entry_index: w.manifest.len() as u32,
                    is_root: false,
                    relative_name: path,
                    byte_len: m.len,
                    metadata_digest: sha256(crate::source::metadata_bytes("entry"@, path, m)),
                },
            ),
            ..w
        };
        lemma_advance_keeps(counted);
    }
}

/// The path of an entry is its name at the top, and below the top its directory's path, a
/// slash and its name.
pub proof fn lemma_paths_of_entries(directory: Seq<char>, name: Seq<char>, rules: WalkRules)
    ensures
        directory.len() == 0 ==> child_path(directory, name) == name,
        directory.len() > 0 ==> ({
            let path = child_path(directory, name);
            let n = directory.len() as int;
            &&& path.len() == n + 1 + name.len()
            &&& path.subrange(0, n) == directory
            &&& path[n] == '/'
            &&& path.skip(n + 1) == name
        }),
        rules.serving is None ==> rules.max_entries() == 4096,
        rules.serving matches Some(limits) ==> rules.max_entries() == limits.max_manifest_entries,
{
    reveal_strlit("/");
    let path = directory + "/"@ + name;
    assert(path.subrange(0, directory.len() as int) =~= directory);
    assert(path.skip(directory.len() + 1int) =~= name);
}

/// What cannot be listed or looked at ends a walk with the reason given.
pub proof fn lemma_what_cannot_be_read(w: WalkView, error: String)
    ensures
        w.step is List ==> w.next(WalkEvent::Listed(Err(error))).step == WalkStep::<
            Seq<char>,
        >::Finished(Err(WalkFault::Unreadable(error@))),
        w.step is Inspect ==> w.next(WalkEvent::Inspected(Err(error))).step == WalkStep::<
            Seq<char>,
        >::Finished(Err(WalkFault::Unreadable(error@))),
{
}

/// A path can be offered exactly where it is no link, has a portable name and a time, and is
/// a directory, or a file that is not too large and whose card is valid.
pub proof fn lemma_paths_that_can_be_offered(name: Option<Seq<char>>, m: MetadataView)
    ensures
        root_error(name, m) is None <==> {
            &&& !m.is_symlink
            &&& m.modified is Some
            &&& name matches Some(root_name) && root_name.len() > 0 && offerable_component(
                root_name,
            ) && (m.is_file ==> m.len <= 8_589_934_592 && (DescriptorView::File {
                root_name,
                total_bytes: m.len,
            }).check() is Ok)
            &&& m.is_file || m.is_directory
        },
        m.is_symlink <==> root_error(name, m) == Some(
            SourcePreparationError::<Seq<char>>::Symlink,
        ),
        !m.is_symlink ==> (root_error(name, m) == Some(
            SourcePreparationError::<Seq<char>>::NonUtf8Name,
        ) <==> name is None || name->0.len() == 0),
        !m.is_symlink ==> (root_error(name, m) == Some(
            SourcePreparationError::<Seq<char>>::InvalidName,
        ) <==> name is Some && name->0.len() > 0 && !offerable_component(name->0)),
        !m.is_symlink && name is Some && offerable_component(name->0) ==> (root_error(name, m)
            == Some(SourcePreparationError::<Seq<char>>::Commitment) <==> m.modified is None),
        !m.is_symlink && name is Some && offerable_component(name->0) && m.modified is Some
            && m.is_file ==> (root_error(name, m) == Some(
            SourcePreparationError::<Seq<char>>::FileTooLarge,
        ) <==> m.len > 8_589_934_592),
{
}

/// How a walk that failed is reported while an offer is prepared: each kind of failure by
/// itself, and all limits as a tree that is too large.
pub proof fn lemma_offers_whose_walk_failed(fault: WalkFault<Seq<char>>)
    ensures
        walk_error(fault) is Inspect <==> fault is Unreadable,
        fault matches WalkFault::Unreadable(text) ==> walk_error(fault)
            == SourcePreparationError::Inspect(text),
        walk_error(fault) is NonUtf8Name <==> fault is NonUtf8Name,
        walk_error(fault) is InvalidName <==> fault is InvalidName,
        walk_error(fault) is Symlink <==> fault is Symlink,
        walk_error(fault) is Commitment <==> fault is NoTimestamp,
        walk_error(fault) is SpecialFile <==> fault is SpecialFile,
        walk_error(fault) is TreeTooLarge <==> fault is PathTooLong || fault is TooManyEntries
            || fault is FileTooLarge || fault is TreeTooLarge,
{
}

/// The card of a folder says what its walk counted.
pub proof fn lemma_cards_of_walked_folders(root_name: Seq<char>, walk: WalkView)
    ensures
        walked_descriptor(root_name, walk) matches DescriptorView::Folder {
            root_name: name,
            total_bytes,
            entry_count,
            file_count,
            directory_count,
        } && name == root_name && total_bytes == walk.total_bytes && entry_count
            == walk.entry_count && file_count == walk.file_count && directory_count
            == walk.directory_count,
        counts_of(walked_descriptor(root_name, walk)).file_count == walk.file_count,
{
}

/// A name found in a directory is looked at exactly where it is a text that the rules take,
/// at a path that is not too long; what is looked at is that name in that directory.
pub proof fn lemma_names_that_are_looked_at(w: WalkView, directory: Seq<char>, name: Seq<u8>)
    ensures
        ({
            let text = vstd::utf8::decode_utf8(name);
            let path = child_path(directory, text);
            let q = w.visit_name(directory, name);
            let valid = vstd::utf8::valid_utf8(name);
            &&& q.step is Inspect <==> valid && w.rules.accepts_name(text) && w.rules.accepts_path(
                path,
            )
            &&& q.step is Inspect ==> q.step == WalkStep::Inspect(path)
            &&& !valid <==> (q.step matches WalkStep::Finished(Err(WalkFault::NonUtf8Name)))
            &&& valid && !w.rules.accepts_name(text) <==> (q.step
                matches WalkStep::Finished(Err(WalkFault::InvalidName)))
        }),
        w.rules.serving is None ==> (forall|path: Seq<char>| #[trigger] w.rules.accepts_path(path)),
        w.rules.serving matches Some(limits) ==> (forall|path: Seq<char>| #[trigger]
            w.rules.accepts_path(path) <==> byte_len(path) <= limits.max_relative_path_bytes),
        w.rules.serving is None ==> (forall|text: Seq<char>| #[trigger]
            w.rules.accepts_name(text) <==> offerable_component(text)),
        w.rules.serving matches Some(limits) ==> (forall|text: Seq<char>| #[trigger]
            w.rules.accepts_name(text) <==> servable_component(
                text,
                limits.max_component_bytes as nat,
            )),
        offering().serving is None,
{
}

} // verus!
