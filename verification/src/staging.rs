//! Where content waits until it is complete, and how it becomes visible.
use vstd::prelude::*;
use vstd::seq_lib::*;

use crate::destination::relative_path;
use crate::failure::IoKind;
use crate::model::ContentKind;
use crate::net_error::NetError;
use crate::payload::{staged_files, StagedFile};
use crate::text::{split_on, views};
use crate::wire::{entry_views, EntryView, FileEntryKind, ManifestEntry};

verus! {

/// The names that a path leads through, below the staged content.
pub type Names = Seq<Seq<char>>;

/// One step of setting up the staging directory; `P` is the type of the paths below
/// the staged content.
#[derive(Debug)]
pub enum StagingStep<P = Vec<String>> {
    /// Make the directory above the staging directory.
    EnsureParent,
    /// Make the staging directory, which must not exist yet.
    CreateRoot,
    /// Make the directory of a folder's content.
    EnsurePayload,
    /// Make a directory, and those above it.
    EnsureDirectory(P),
    /// Make a file, which must not exist yet, the directories above it, and room for
    /// its content.  Without a name it is the content itself.
    CreateFile { path: P, byte_len: u64 },
    SyncRoot,
}

impl View for StagingStep<Vec<String>> {
    type V = StagingStep<Names>;

    open spec fn view(&self) -> StagingStep<Names> {
        match *self {
            StagingStep::EnsureParent => StagingStep::EnsureParent,
            StagingStep::CreateRoot => StagingStep::CreateRoot,
            StagingStep::EnsurePayload => StagingStep::EnsurePayload,
            StagingStep::EnsureDirectory(path) => StagingStep::EnsureDirectory(views(path@)),
            StagingStep::CreateFile { path, byte_len } => StagingStep::CreateFile {
                path: views(path@),
                byte_len,
            },
            StagingStep::SyncRoot => StagingStep::SyncRoot,
        }
    }
}

pub open spec fn step_views(steps: Seq<StagingStep>) -> Seq<StagingStep<Names>> {
    Seq::new(steps.len(), |i: int| steps[i]@)
}

/// The paths of the directories of a manifest, in its order.
pub open spec fn directories_of(entries: Seq<EntryView>) -> Seq<Names>
    decreases entries.len(),
{
    if entries.len() == 0 {
        Seq::empty()
    } else {
        let before = directories_of(entries.drop_last());
        if entries.last().kind is Directory {
            before.push(split_on(entries.last().relative_path, '/'))
        } else {
            before
        }
    }
}

/// `sorted` with `path` behind the last path that is no deeper.
pub open spec fn placed(sorted: Seq<Names>, path: Names) -> Seq<Names>
    decreases sorted.len(),
{
    if sorted.len() == 0 || sorted.last().len() <= path.len() {
        sorted.push(path)
    } else {
        placed(sorted.drop_last(), path).push(sorted.last())
    }
}

/// The paths, the less deep ones first.
pub open spec fn by_depth(paths: Seq<Names>) -> Seq<Names>
    decreases paths.len(),
{
    if paths.len() == 0 {
        Seq::empty()
    } else {
        placed(by_depth(paths.drop_last()), paths.last())
    }
}

pub open spec fn directory_steps(paths: Seq<Names>) -> Seq<StagingStep<Names>> {
    Seq::new(paths.len(), |i: int| StagingStep::EnsureDirectory(paths[i]))
}

/// The steps that make the files of a manifest, in its order.
pub open spec fn file_steps(content_kind: ContentKind, entries: Seq<EntryView>) -> Seq<
    StagingStep<Names>,
>
    decreases entries.len(),
{
    if entries.len() == 0 {
        Seq::empty()
    } else {
        let before = file_steps(content_kind, entries.drop_last());
        let last = entries.last();
        if last.kind is File {
            before.push(
                StagingStep::CreateFile {
                    path: if content_kind is File {
                        Seq::empty()
                    } else {
                        split_on(last.relative_path, '/')
                    },
                    byte_len: last.byte_len,
                },
            )
        } else {
            before
        }
    }
}

/// All steps of setting up the staging directory.
pub open spec fn staging_steps(content_kind: ContentKind, entries: Seq<EntryView>) -> Seq<
    StagingStep<Names>,
> {
    seq![StagingStep::EnsureParent, StagingStep::CreateRoot] + (if content_kind is Folder {
        seq![StagingStep::EnsurePayload]
    } else {
        Seq::empty()
    }) + directory_steps(by_depth(directories_of(entries))) + file_steps(content_kind, entries)
        + seq![StagingStep::SyncRoot]
}

pub open spec fn path_views(paths: Seq<Vec<String>>) -> Seq<Names> {
    Seq::new(paths.len(), |i: int| views(paths[i]@))
}

/// `placed` at a position behind which everything is deeper.
proof fn lemma_placed_at(sorted: Seq<Names>, path: Names, at: int)
    requires
        0 <= at <= sorted.len(),
        at == 0 || sorted[at - 1].len() <= path.len(),
        forall|k: int| at <= k < sorted.len() ==> (#[trigger] sorted[k]).len() > path.len(),
    ensures
        placed(sorted, path) == sorted.insert(at, path),
    decreases sorted.len(),
{
    if at == sorted.len() {
        assert(sorted.insert(at, path) =~= sorted.push(path));
    } else {
        let rest = sorted.drop_last();
        assert forall|k: int| at <= k < rest.len() implies (#[trigger] rest[k]).len()
            > path.len() by {
            assert(rest[k] == sorted[k]);
        }
        lemma_placed_at(rest, path, at);
        assert(sorted[sorted.len() - 1].len() > path.len());
        assert(rest.insert(at, path).push(sorted.last()) =~= sorted.insert(at, path));
    }
}

/// Puts a path behind the last one that is no deeper.
fn place(sorted: &mut Vec<Vec<String>>, path: Vec<String>)
    ensures
        path_views(final(sorted)@) == placed(path_views(old(sorted)@), views(path@)),
{
    let ghost before = path_views(sorted@);
    let ghost name = views(path@);
    let mut at: usize = sorted.len();
    while at > 0 && sorted[at - 1].len() > path.len()
        invariant
            *sorted == *old(sorted),
            before == path_views(sorted@),
            name == views(path@),
            0 <= at <= sorted@.len(),
            forall|k: int| at <= k < before.len() ==> (#[trigger] before[k]).len() > name.len(),
        decreases at,
    {
        assert(before[at - 1].len() == sorted@[at - 1]@.len());
        at = at - 1;
    }
    proof {
        if at > 0 {
            assert(before[at - 1].len() == sorted@[at - 1]@.len());
        }
        lemma_placed_at(before, name, at as int);
    }
    sorted.insert(at, path);
    assert(path_views(sorted@) =~= before.insert(at as int, name));
}

fn sorted_directories(entries: &Vec<ManifestEntry>) -> (r: Vec<Vec<String>>)
    ensures
        path_views(r@) == by_depth(directories_of(entry_views(entries@))),
{
    let ghost all = entry_views(entries@);
    let mut paths: Vec<Vec<String>> = Vec::new();
    let mut i: usize = 0;
    assert(path_views(paths@) =~= by_depth(directories_of(all.subrange(0, 0))));
    while i < entries.len()
        invariant
            i <= entries@.len(),
            all == entry_views(entries@),
            path_views(paths@) == by_depth(directories_of(all.subrange(0, i as int))),
        decreases entries@.len() - i,
    {
        let ghost now = all.subrange(0, i + 1);
        assert(now.drop_last() =~= all.subrange(0, i as int));
        assert(now.last() == entries@[i as int]@);
        if matches!(entries[i].kind, FileEntryKind::Directory) {
            let path = relative_path(entries[i].relative_path.as_str());
            proof {
                let before = directories_of(all.subrange(0, i as int));
                let grown = before.push(views(path@));
                assert(directories_of(now) == grown);
                assert(grown.drop_last() =~= before);
            }
            place(&mut paths, path);
        }
        i = i + 1;
    }
    assert(all.subrange(0, i as int) =~= all);
    paths
}

/// What is to be done, in this order, before an origin is told to send.
#[must_use]
pub fn prepare_staging(content_kind: ContentKind, entries: &Vec<ManifestEntry>) -> (r: Vec<
    StagingStep,
>)
    ensures
        step_views(r@) == staging_steps(content_kind, entry_views(entries@)),
{
    let ghost all = entry_views(entries@);
    let mut steps: Vec<StagingStep> = Vec::new();
    steps.push(StagingStep::EnsureParent);
    steps.push(StagingStep::CreateRoot);
    if matches!(content_kind, ContentKind::Folder) {
        steps.push(StagingStep::EnsurePayload);
    }
    let ghost head = seq![StagingStep::<Names>::EnsureParent, StagingStep::CreateRoot] + (if
        content_kind is Folder {
        seq![StagingStep::<Names>::EnsurePayload]
    } else {
        Seq::empty()
    });
    assert(step_views(steps@) =~= head);
    let directories = sorted_directories(entries);
    let ghost depths = path_views(directories@);
    let mut i: usize = 0;
    while i < directories.len()
        invariant
            i <= directories@.len(),
            depths == path_views(directories@),
            step_views(steps@) =~= head + directory_steps(depths.subrange(0, i as int)),
        decreases directories@.len() - i,
    {
        let ghost before = step_views(steps@);
        let path = clone_names(&directories[i]);
        assert(depths[i as int] == views(path@));
        steps.push(StagingStep::EnsureDirectory(path));
        assert(step_views(steps@) =~= before.push(StagingStep::EnsureDirectory(depths[i as int])));
        i = i + 1;
    }
    assert(depths.subrange(0, i as int) =~= depths);
    let ghost middle = head + directory_steps(depths);
    let mut k: usize = 0;
    assert(all.subrange(0, 0) =~= Seq::<EntryView>::empty());
    while k < entries.len()
        invariant
            k <= entries@.len(),
            all == entry_views(entries@),
            step_views(steps@) =~= middle + file_steps(content_kind, all.subrange(0, k as int)),
        decreases entries@.len() - k,
    {
        let ghost now = all.subrange(0, k + 1);
        let ghost before = step_views(steps@);
        assert(now.drop_last() =~= all.subrange(0, k as int));
        assert(now.last() == entries@[k as int]@);
        if matches!(entries[k].kind, FileEntryKind::File) {
            let path: Vec<String> = if matches!(content_kind, ContentKind::File) {
                Vec::new()
            } else {
                relative_path(entries[k].relative_path.as_str())
            };
            assert(content_kind is File ==> views(path@) =~= Seq::<Seq<char>>::empty());
            let ghost step = StagingStep::CreateFile {
                path: views(path@),
                byte_len: entries@[k as int].byte_len,
            };
            steps.push(StagingStep::CreateFile { path, byte_len: entries[k].byte_len });
            assert(step_views(steps@) =~= before.push(step));
        }
        k = k + 1;
    }
    assert(all.subrange(0, k as int) =~= all);
    let ghost before = step_views(steps@);
    steps.push(StagingStep::SyncRoot);
    assert(step_views(steps@) =~= before.push(StagingStep::SyncRoot));
    assert(step_views(steps@) =~= staging_steps(content_kind, all));
    steps
}

fn clone_names(names: &Vec<String>) -> (r: Vec<String>)
    ensures
        views(r@) == views(names@),
{
    let mut copy: Vec<String> = Vec::new();
    let mut i: usize = 0;
    while i < names.len()
        invariant
            i <= names@.len(),
            views(copy@) =~= views(names@).subrange(0, i as int),
        decreases names@.len() - i,
    {
        let ghost before = views(copy@);
        copy.push(names[i].clone());
        assert(views(copy@) =~= before.push(names@[i as int]@));
        i = i + 1;
    }
    assert(views(copy@) =~= views(names@));
    copy
}

/// Directories are made from the top down: no path comes before a less deep one, and
/// each directory of the manifest is made.
pub proof fn lemma_directories_from_the_top(paths: Seq<Names>)
    ensures
        forall|i: int, j: int|
            0 <= i <= j < by_depth(paths).len() ==> (#[trigger] by_depth(paths)[i]).len() <= (
            #[trigger] by_depth(paths)[j]).len(),
        by_depth(paths).to_multiset() =~= paths.to_multiset(),
    decreases paths.len(),
{
    broadcast use group_to_multiset_ensures;

    if paths.len() > 0 {
        let rest = paths.drop_last();
        lemma_directories_from_the_top(rest);
        lemma_placed_keeps_order(by_depth(rest), paths.last());
        assert(rest.push(paths.last()) =~= paths);
    } else {
        assert(paths =~= Seq::<Names>::empty());
    }
}

proof fn lemma_placed_keeps_order(sorted: Seq<Names>, path: Names)
    requires
        forall|i: int, j: int|
            0 <= i <= j < sorted.len() ==> (#[trigger] sorted[i]).len() <= (
            #[trigger] sorted[j]).len(),
    ensures
        forall|i: int, j: int|
            0 <= i <= j < placed(sorted, path).len() ==> (#[trigger] placed(sorted, path)[i]).len()
                <= (#[trigger] placed(sorted, path)[j]).len(),
        placed(sorted, path).len() == sorted.len() + 1,
        placed(sorted, path).last().len() <= if sorted.len() > 0 && sorted.last().len()
            > path.len() {
            sorted.last().len()
        } else {
            path.len()
        },
        placed(sorted, path).to_multiset() =~= sorted.to_multiset().insert(path),
    decreases sorted.len(),
{
    broadcast use group_to_multiset_ensures;

    if sorted.len() == 0 || sorted.last().len() <= path.len() {
    } else {
        let rest = sorted.drop_last();
        lemma_placed_keeps_order(rest, path);
        assert(rest.push(sorted.last()) =~= sorted);
        let inner = placed(rest, path);
        if rest.len() > 0 {
            assert(sorted[rest.len() - 1].len() <= sorted[sorted.len() - 1].len());
        }
        assert(inner.last().len() <= sorted.last().len());
    }
}

/// Whether a step makes room for the content of a file.
pub open spec fn makes_room(step: StagingStep<Names>, file: StagedFile) -> bool {
    step matches StagingStep::CreateFile { byte_len, .. } && byte_len == file.byte_len
}

/// A file is made, with room for its content, for each file that is going to be
/// received, and in that order.
pub proof fn lemma_every_file_has_room(content_kind: ContentKind, entries: Seq<EntryView>)
    ensures
        file_steps(content_kind, entries).len() == staged_files(entries).len(),
        forall|i: int|
            0 <= i < staged_files(entries).len() ==> makes_room(
                #[trigger] file_steps(content_kind, entries)[i],
                staged_files(entries)[i],
            ),
    decreases entries.len(),
{
    if entries.len() > 0 {
        lemma_every_file_has_room(content_kind, entries.drop_last());
    }
}

/// An input or output error; `S` is the type of its text.
#[derive(Debug)]
pub struct IoFault<S = String> {
    pub kind: IoKind,
    pub text: S,
}

impl View for IoFault<String> {
    type V = IoFault<Seq<char>>;

    open spec fn view(&self) -> IoFault<Seq<char>> {
        IoFault { kind: self.kind, text: self.text@ }
    }
}

/// What a step gave, with its text as a sequence.
pub open spec fn fault_view<T>(r: Result<T, IoFault>) -> Result<T, IoFault<Seq<char>>> {
    match r {
        Ok(value) => Ok(value),
        Err(fault) => Err(fault@),
    }
}

/// The removal of a staging directory, and of the directory above it where that is
/// empty then; `S` is the type of the texts.
#[derive(Debug)]
pub enum StagingCleanup<S = String> {
    RemoveTree,
    InspectParent,
    /// Refuse a parent that is a link; then go on if it is a directory.
    CheckParent { is_directory: bool },
    RemoveParent,
    Finished(Result<(), IoFault<S>>),
}

impl View for StagingCleanup<String> {
    type V = StagingCleanup<Seq<char>>;

    open spec fn view(&self) -> StagingCleanup<Seq<char>> {
        match *self {
            StagingCleanup::RemoveTree => StagingCleanup::RemoveTree,
            StagingCleanup::InspectParent => StagingCleanup::InspectParent,
            StagingCleanup::CheckParent { is_directory } => StagingCleanup::CheckParent {
                is_directory,
            },
            StagingCleanup::RemoveParent => StagingCleanup::RemoveParent,
            StagingCleanup::Finished(r) => StagingCleanup::Finished(fault_view(r)),
        }
    }
}

/// What became of a step of a removal.
#[derive(Debug)]
pub enum RemovalEvent {
    Done(Result<(), IoFault>),
    /// Whether the object is a directory.
    Inspected(Result<bool, IoFault>),
}

/// The step of a cleanup after an event.  `has_parent` says whether the staging
/// directory has one.
pub open spec fn cleanup_next(
    step: StagingCleanup<Seq<char>>,
    event: RemovalEvent,
    has_parent: bool,
) -> StagingCleanup<Seq<char>> {
    match (step, event) {
        (StagingCleanup::RemoveTree, RemovalEvent::Done(Ok(()))) => if has_parent {
            StagingCleanup::InspectParent
        } else {
            StagingCleanup::Finished(Ok(()))
        },
        (StagingCleanup::RemoveTree, RemovalEvent::Done(Err(fault))) => StagingCleanup::Finished(
            Err(fault@),
        ),
        (StagingCleanup::InspectParent, RemovalEvent::Inspected(Ok(is_directory))) =>
            StagingCleanup::CheckParent { is_directory },
        (StagingCleanup::InspectParent, RemovalEvent::Inspected(Err(fault))) =>
            StagingCleanup::Finished(if fault.kind is NotFound { Ok(()) } else { Err(fault@) }),
        (StagingCleanup::CheckParent { is_directory }, RemovalEvent::Done(Ok(()))) => if
            is_directory {
            StagingCleanup::RemoveParent
        } else {
            StagingCleanup::Finished(Ok(()))
        },
        (StagingCleanup::CheckParent { .. }, RemovalEvent::Done(Err(fault))) =>
            StagingCleanup::Finished(Err(fault@)),
        (StagingCleanup::RemoveParent, RemovalEvent::Done(Ok(()))) => StagingCleanup::Finished(
            Ok(()),
        ),
        (StagingCleanup::RemoveParent, RemovalEvent::Done(Err(fault))) => StagingCleanup::Finished(
            if fault.kind is NotFound || fault.kind is DirectoryNotEmpty {
                Ok(())
            } else {
                Err(fault@)
            },
        ),
        _ => step,
    }
}

/// Takes the outcome of the current step of a cleanup.
pub fn cleanup_staging(step: StagingCleanup, event: RemovalEvent, has_parent: bool) -> (r:
    StagingCleanup)
    ensures
        r@ == cleanup_next(step@, event, has_parent),
{
    match (step, event) {
        (StagingCleanup::RemoveTree, RemovalEvent::Done(result)) => match result {
            Ok(()) => if has_parent {
                StagingCleanup::InspectParent
            } else {
                StagingCleanup::Finished(Ok(()))
            },
            Err(fault) => StagingCleanup::Finished(Err(fault)),
        },
        (StagingCleanup::InspectParent, RemovalEvent::Inspected(result)) => match result {
            Ok(is_directory) => StagingCleanup::CheckParent { is_directory },
            Err(fault) => if matches!(fault.kind, IoKind::NotFound) {
                StagingCleanup::Finished(Ok(()))
            } else {
                StagingCleanup::Finished(Err(fault))
            },
        },
        (StagingCleanup::CheckParent { is_directory }, RemovalEvent::Done(result)) => match result {
            Ok(()) => if is_directory {
                StagingCleanup::RemoveParent
            } else {
                StagingCleanup::Finished(Ok(()))
            },
            Err(fault) => StagingCleanup::Finished(Err(fault)),
        },
        (StagingCleanup::RemoveParent, RemovalEvent::Done(result)) => match result {
            Ok(()) => StagingCleanup::Finished(Ok(())),
            Err(fault) => if matches!(fault.kind, IoKind::NotFound | IoKind::DirectoryNotEmpty) {
                StagingCleanup::Finished(Ok(()))
            } else {
                StagingCleanup::Finished(Err(fault))
            },
        },
        (step, _) => step,
    }
}

/// A cleanup ends well only where the staging directory itself was removed.
pub proof fn lemma_cleanup_removes_the_tree(event: RemovalEvent, has_parent: bool)
    ensures
        ({
            let next = cleanup_next(StagingCleanup::RemoveTree, event, has_parent);
            ||| next is RemoveTree
            ||| next matches StagingCleanup::Finished(Err(_))
            ||| event matches RemovalEvent::Done(Ok(_))
        }),
{
}

/// The removal of published content; `S` is the type of the texts.
#[derive(Debug)]
pub enum CacheRemoval<S = String> {
    Inspect,
    /// Refuse a link.
    Check { is_directory: bool },
    RemoveTree,
    RemoveFile,
    Finished(Result<(), IoFault<S>>),
}

impl View for CacheRemoval<String> {
    type V = CacheRemoval<Seq<char>>;

    open spec fn view(&self) -> CacheRemoval<Seq<char>> {
        match *self {
            CacheRemoval::Inspect => CacheRemoval::Inspect,
            CacheRemoval::Check { is_directory } => CacheRemoval::Check { is_directory },
            CacheRemoval::RemoveTree => CacheRemoval::RemoveTree,
            CacheRemoval::RemoveFile => CacheRemoval::RemoveFile,
            CacheRemoval::Finished(r) => CacheRemoval::Finished(fault_view(r)),
        }
    }
}

/// The step of a removal after an event: what is not there is removed already.
pub open spec fn removal_next(step: CacheRemoval<Seq<char>>, event: RemovalEvent) -> CacheRemoval<
    Seq<char>,
> {
    match (step, event) {
        (CacheRemoval::Inspect, RemovalEvent::Inspected(Ok(is_directory))) => CacheRemoval::Check {
            is_directory,
        },
        (CacheRemoval::Inspect, RemovalEvent::Inspected(Err(fault))) => CacheRemoval::Finished(
            if fault.kind is NotFound {
                Ok(())
            } else {
                Err(fault@)
            },
        ),
        (CacheRemoval::Check { is_directory }, RemovalEvent::Done(Ok(()))) => if is_directory {
            CacheRemoval::RemoveTree
        } else {
            CacheRemoval::RemoveFile
        },
        (CacheRemoval::Check { .. }, RemovalEvent::Done(Err(fault))) => CacheRemoval::Finished(
            Err(fault@),
        ),
        (CacheRemoval::RemoveTree, RemovalEvent::Done(result))
        | (CacheRemoval::RemoveFile, RemovalEvent::Done(result)) => CacheRemoval::Finished(
            fault_view(result),
        ),
        _ => step,
    }
}

/// Takes the outcome of the current step of a removal.
pub fn remove_published_cache_object(step: CacheRemoval, event: RemovalEvent) -> (r: CacheRemoval)
    ensures
        r@ == removal_next(step@, event),
{
    match (step, event) {
        (CacheRemoval::Inspect, RemovalEvent::Inspected(result)) => match result {
            Ok(is_directory) => CacheRemoval::Check { is_directory },
            Err(fault) => if matches!(fault.kind, IoKind::NotFound) {
                CacheRemoval::Finished(Ok(()))
            } else {
                CacheRemoval::Finished(Err(fault))
            },
        },
        (CacheRemoval::Check { is_directory }, RemovalEvent::Done(result)) => match result {
            Ok(()) => if is_directory {
                CacheRemoval::RemoveTree
            } else {
                CacheRemoval::RemoveFile
            },
            Err(fault) => CacheRemoval::Finished(Err(fault)),
        },
        (CacheRemoval::RemoveTree, RemovalEvent::Done(result)) => CacheRemoval::Finished(result),
        (CacheRemoval::RemoveFile, RemovalEvent::Done(result)) => CacheRemoval::Finished(result),
        (step, _) => step,
    }
}

/// Whether a guard that was dropped left its staging directory behind: it did where
/// the removal failed for another reason than that nothing was there.
#[must_use]
pub fn staging_removal_failed(removal: &Result<(), IoFault>) -> (r: bool)
    ensures
        r == match *removal {
            Ok(()) => false,
            Err(fault) => !(fault.kind is NotFound),
        },
{
    match removal {
        Ok(()) => false,
        Err(fault) => !matches!(fault.kind, IoKind::NotFound),
    }
}

/// Making content visible under a name that nothing has yet; `S` is the type of the
/// texts.
#[derive(Debug)]
pub enum Finalization<S = String> {
    /// Refuse content that is a link.
    CheckPayload,
    /// Require that the directory above the name is one, once more.
    RequireParent,
    /// Link the file under its name, which fails where the name is taken.
    LinkFile,
    /// Remove the staged name of a file that is visible.
    RemoveStaged,
    /// Rename the folder, which fails where the name is taken.
    RenameFolder,
    Finished { result: Result<(), NetError<S>>, name_taken: bool },
}

impl View for Finalization<String> {
    type V = Finalization<Seq<char>>;

    open spec fn view(&self) -> Finalization<Seq<char>> {
        match *self {
            Finalization::CheckPayload => Finalization::CheckPayload,
            Finalization::RequireParent => Finalization::RequireParent,
            Finalization::LinkFile => Finalization::LinkFile,
            Finalization::RemoveStaged => Finalization::RemoveStaged,
            Finalization::RenameFolder => Finalization::RenameFolder,
            Finalization::Finished { result, name_taken } => Finalization::Finished {
                result: crate::outcome::result_view(result),
                name_taken,
            },
        }
    }
}

/// How a failed step ends the finalization: the next name is tried where the error
/// says that something exists.
pub open spec fn finalization_failed(fault: IoFault<Seq<char>>) -> Finalization<Seq<char>> {
    Finalization::Finished {
        result: Err(NetError::Io(fault.text)),
        name_taken: fault.kind is AlreadyExists,
    }
}

pub open spec fn finalization_next(
    step: Finalization<Seq<char>>,
    result: Result<(), IoFault>,
    content_kind: ContentKind,
    has_parent: bool,
) -> Finalization<Seq<char>> {
    match (step, result) {
        (Finalization::Finished { .. }, _) => step,
        (_, Err(fault)) => finalization_failed(fault@),
        (Finalization::CheckPayload, Ok(())) => if has_parent {
            Finalization::RequireParent
        } else {
            Finalization::Finished {
                result: Err(NetError::FileTransfer("destination has no parent"@)),
                name_taken: false,
            }
        },
        (Finalization::RequireParent, Ok(())) => if content_kind is File {
            Finalization::LinkFile
        } else {
            Finalization::RenameFolder
        },
        (Finalization::LinkFile, Ok(())) => Finalization::RemoveStaged,
        (Finalization::RemoveStaged, Ok(())) | (Finalization::RenameFolder, Ok(())) =>
            Finalization::Finished { result: Ok(()), name_taken: false },
    }
}

/// Takes the outcome of the current step of a finalization.
pub fn finalize_payload(
    step: Finalization,
    result: Result<(), IoFault>,
    content_kind: ContentKind,
    has_parent: bool,
) -> (r: Finalization)
    ensures
        r@ == finalization_next(step@, result, content_kind, has_parent),
{
    if matches!(step, Finalization::Finished { .. }) {
        return step;
    }
    if let Err(fault) = result {
        return Finalization::Finished {
            name_taken: matches!(fault.kind, IoKind::AlreadyExists),
            result: Err(NetError::Io(fault.text)),
        };
    }
    match step {
        Finalization::CheckPayload => if has_parent {
            Finalization::RequireParent
        } else {
            Finalization::Finished {
                result: Err(NetError::FileTransfer("destination has no parent".to_owned())),
                name_taken: false,
            }
        },
        Finalization::RequireParent => if matches!(content_kind, ContentKind::File) {
            Finalization::LinkFile
        } else {
            Finalization::RenameFolder
        },
        Finalization::LinkFile => Finalization::RemoveStaged,
        Finalization::RemoveStaged => Finalization::Finished { result: Ok(()), name_taken: false },
        Finalization::RenameFolder => Finalization::Finished { result: Ok(()), name_taken: false },
        finished => finished,
    }
}

/// Content becomes visible only right after its directory was required, and only by
/// an operation that fails where the name is taken.
pub proof fn lemma_publication_needs_its_directory(
    step: Finalization<Seq<char>>,
    result: Result<(), IoFault>,
    content_kind: ContentKind,
    has_parent: bool,
)
    requires
        !(step is LinkFile || step is RenameFolder),
    ensures
        ({
            let next = finalization_next(step, result, content_kind, has_parent);
            &&& next is LinkFile || next is RenameFolder ==> step is RequireParent && result is Ok
            &&& next is LinkFile ==> content_kind is File
            &&& next is RenameFolder ==> !(content_kind is File)
        }),
{
}

} // verus!
