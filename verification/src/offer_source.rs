//! Preparing an offer from text or from a path, by metadata alone.
use vstd::prelude::*;

use crate::digest::{finish, new_hasher, sha256};
use crate::offer::{
    line_total, preview_of, DescriptorView, OfferDescriptor, OfferDescriptorError,
    MAX_OFFER_FILE_BYTES, MAX_TEXT_BYTES,
};
use crate::order::{name_views, sorted_names};
use crate::source::{
    hash_metadata, metadata_bytes, offerable_component, validate_offer_component, MetadataView,
    SourceMetadata,
};
use crate::source_plan::{file_check, folder_check, folder_walk, root_commitment, OfferSource};
use crate::text::{byte_len, join2, opt_view};
use crate::walk::{FrameView, Walk, WalkEvent, WalkFault, WalkRules, WalkStep, WalkView};

verus! {

/// What somebody offers.
#[derive(Debug)]
pub enum OfferInput {
    Text(String),
    Path(String),
}

/// An offer that can be stored.
#[derive(Debug)]
pub struct PreparedOfferSource {
    pub descriptor: OfferDescriptor,
    pub source: OfferSource,
}

/// Why something cannot be offered; `S` is the type of its texts.
#[derive(Debug)]
pub enum SourcePreparationError<S = String> {
    Text(OfferDescriptorError),
    Inspect(S),
    Symlink,
    SpecialFile,
    NonUtf8Name,
    InvalidName,
    FileTooLarge,
    TreeTooLarge,
    Commitment,
}

impl View for SourcePreparationError<String> {
    type V = SourcePreparationError<Seq<char>>;

    open spec fn view(&self) -> SourcePreparationError<Seq<char>> {
        match *self {
            SourcePreparationError::Text(error) => SourcePreparationError::Text(error),
            SourcePreparationError::Inspect(s) => SourcePreparationError::Inspect(s@),
            SourcePreparationError::Symlink => SourcePreparationError::Symlink,
            SourcePreparationError::SpecialFile => SourcePreparationError::SpecialFile,
            SourcePreparationError::NonUtf8Name => SourcePreparationError::NonUtf8Name,
            SourcePreparationError::InvalidName => SourcePreparationError::InvalidName,
            SourcePreparationError::FileTooLarge => SourcePreparationError::FileTooLarge,
            SourcePreparationError::TreeTooLarge => SourcePreparationError::TreeTooLarge,
            SourcePreparationError::Commitment => SourcePreparationError::Commitment,
        }
    }
}

impl SourcePreparationError<Seq<char>> {
    /// The message shown for the error.
    pub open spec fn message(self) -> Seq<char> {
        match self {
            SourcePreparationError::Text(error) => "text offer is invalid: "@ + error.message(),
            SourcePreparationError::Inspect(_) => "source path could not be inspected"@,
            SourcePreparationError::Symlink => "source path is a symbolic link"@,
            SourcePreparationError::SpecialFile =>
                "source path is not a regular file or directory"@,
            SourcePreparationError::NonUtf8Name => "source name is not valid UTF-8"@,
            SourcePreparationError::InvalidName => "source name is not portable"@,
            SourcePreparationError::FileTooLarge => "source file exceeds the v2 size limit"@,
            SourcePreparationError::TreeTooLarge =>
                "source tree exceeds the v2 size or entry limit"@,
            SourcePreparationError::Commitment => "source metadata commitment failed"@,
        }
    }
}

impl SourcePreparationError {
    /// The message shown for the error.
    #[must_use]
    pub fn describe(&self) -> (r: String)
        ensures
            r@ == self@.message(),
    {
        match self {
            SourcePreparationError::Text(error) => join2(
                "text offer is invalid: ",
                error.describe().as_str(),
            ),
            SourcePreparationError::Inspect(_) => "source path could not be inspected".to_owned(),
            SourcePreparationError::Symlink => "source path is a symbolic link".to_owned(),
            SourcePreparationError::SpecialFile =>
                "source path is not a regular file or directory".to_owned(),
            SourcePreparationError::NonUtf8Name => "source name is not valid UTF-8".to_owned(),
            SourcePreparationError::InvalidName => "source name is not portable".to_owned(),
            SourcePreparationError::FileTooLarge =>
                "source file exceeds the v2 size limit".to_owned(),
            SourcePreparationError::TreeTooLarge =>
                "source tree exceeds the v2 size or entry limit".to_owned(),
            SourcePreparationError::Commitment => "source metadata commitment failed".to_owned(),
        }
    }
}

/// The first half of preparing an input: a text is ready, a path is to be inspected.
#[derive(Debug)]
pub enum Preparation {
    Ready(PreparedOfferSource),
    Inspect(String),
}

/// Prepares a text, or says which path is to be inspected.
pub fn prepare_source(input: OfferInput) -> (r: Result<Preparation, SourcePreparationError>)
    ensures
        match input {
            OfferInput::Path(path) => r matches Ok(Preparation::Inspect(p)) && p@ == path@,
            OfferInput::Text(text) => {
                &&& 0 < byte_len(text@) <= MAX_TEXT_BYTES <==> r is Ok
                &&& r matches Ok(preparation) ==> preparation matches Preparation::Ready(prepared)
                    && {
                    &&& prepared.descriptor@ == (DescriptorView::Text {
                        utf8_bytes: byte_len(text@) as u32,
                        line_count: line_total(text@) as u32,
                        preview: preview_of(text@),
                    })
                    &&& prepared.source matches OfferSource::Text { text: stored } && stored@
                        == text@
                }
                &&& r matches Err(error) ==> error@ == SourcePreparationError::<Seq<char>>::Text(
                    if byte_len(text@) == 0 {
                        OfferDescriptorError::EmptyText
                    } else {
                        OfferDescriptorError::TextTooLarge {
                            bytes: byte_len(text@) as usize,
                            maximum: MAX_TEXT_BYTES,
                        }
                    },
                )
            },
        },
{
    match input {
        OfferInput::Text(text) => match OfferDescriptor::text(text.as_str()) {
            Ok(descriptor) => Ok(
                Preparation::Ready(
                    PreparedOfferSource { descriptor, source: OfferSource::Text { text } },
                ),
            ),
            Err(error) => Err(SourcePreparationError::Text(error)),
        },
        OfferInput::Path(path) => Ok(Preparation::Inspect(path)),
    }
}

/// Checks the path as it was given, before it is made canonical.
pub fn inspect_path(metadata: Result<SourceMetadata, String>) -> (r: Result<
    (),
    SourcePreparationError,
>)
    ensures
        match metadata {
            Err(s) => r matches Err(error) && error@ == SourcePreparationError::<
                Seq<char>,
            >::Inspect(s@),
            Ok(m) => if m.is_symlink {
                r matches Err(error) && error@ == SourcePreparationError::<Seq<char>>::Symlink
            } else {
                r is Ok
            },
        },
{
    match metadata {
        Err(s) => Err(SourcePreparationError::Inspect(s)),
        Ok(metadata) => if metadata.is_symlink {
            Err(SourcePreparationError::Symlink)
        } else {
            Ok(())
        },
    }
}

/// A canonical path with its last component, where that is text.
#[derive(Debug)]
pub struct CanonicalPath {
    pub path: String,
    pub name: Option<String>,
}

/// The second half of preparing a path: a file is ready, a folder is to be walked.
pub enum PathPreparation {
    Ready(PreparedOfferSource),
    Walk(String, Walk),
}

/// The rules under which a folder is walked to be offered.
pub open spec fn offering() -> WalkRules {
    WalkRules { serving: None }
}

/// Why an object under a canonical path cannot be offered, as far as its own
/// metadata and name show.
pub open spec fn root_error(
    name: Option<Seq<char>>,
    metadata: MetadataView,
) -> Option<SourcePreparationError<Seq<char>>> {
    if metadata.is_symlink {
        Some(SourcePreparationError::Symlink)
    } else if name is None || name->0.len() == 0 {
        Some(SourcePreparationError::NonUtf8Name)
    } else if !offerable_component(name->0) {
        Some(SourcePreparationError::InvalidName)
    } else if metadata.modified is None {
        Some(SourcePreparationError::Commitment)
    } else if metadata.is_file {
        let descriptor = DescriptorView::File {
            root_name: name->0,
            total_bytes: metadata.len,
        };
        if metadata.len > MAX_OFFER_FILE_BYTES {
            Some(SourcePreparationError::FileTooLarge)
        } else {
            match descriptor.check() {
                Ok(()) => None,
                Err(error) => Some(SourcePreparationError::Text(error)),
            }
        }
    } else if !metadata.is_directory {
        Some(SourcePreparationError::SpecialFile)
    } else {
        None
    }
}

/// The name of an object, where it has one.
pub open spec fn name_or_error(name: Option<Seq<char>>) -> Result<
    Seq<char>,
    SourcePreparationError<Seq<char>>,
> {
    match name {
        Some(name) if name.len() > 0 => Ok(name),
        _ => Err(SourcePreparationError::NonUtf8Name),
    }
}

/// The last component of a path, where it is text and not empty.
pub fn portable_name(name: Option<String>) -> (r: Result<String, SourcePreparationError>)
    ensures
        match (r, name_or_error(opt_view(name))) {
            (Ok(a), Ok(b)) => a@ == b,
            (Err(a), Err(b)) => a@ == b,
            _ => false,
        },
{
    match name {
        Some(name) => if name.as_str().is_empty() {
            Err(SourcePreparationError::NonUtf8Name)
        } else {
            Ok(name)
        },
        None => Err(SourcePreparationError::NonUtf8Name),
    }
}

/// Prepares the object under a canonical path.
pub fn prepare_path(canonical: CanonicalPath, metadata: SourceMetadata) -> (r: Result<
    PathPreparation,
    SourcePreparationError,
>)
    ensures
        match root_error(opt_view(canonical.name), metadata@) {
            Some(expected) => r matches Err(error) && error@ == expected,
            None => {
                let name = opt_view(canonical.name)->0;
                r matches Ok(preparation) && if metadata.is_file {
                    preparation matches PathPreparation::Ready(prepared) && {
                        &&& prepared.descriptor@ == (DescriptorView::File {
                            root_name: name,
                            total_bytes: metadata.len,
                        })
                        &&& prepared.source matches OfferSource::File {
                            canonical_path,
                            metadata_commitment,
                        } && canonical_path@ == canonical.path@ && metadata_commitment@
                            == root_commitment(name, metadata@) && metadata_commitment@.len() == 32
                    }
                } else {
                    preparation matches PathPreparation::Walk(root_name, walk) && {
                        &&& root_name@ == name
                        &&& walk@ == folder_walk(name, metadata@, offering())
                        &&& walk@.wf()
                    }
                }
            },
        },
{
    if metadata.is_symlink {
        return Err(SourcePreparationError::Symlink);
    }
    let root_name = match portable_name(canonical.name) {
        Ok(name) => name,
        Err(error) => {
            return Err(error);
        },
    };
    if !validate_offer_component(root_name.as_str()) {
        return Err(SourcePreparationError::InvalidName);
    }
    let mut commitment = new_hasher();
    if !hash_metadata(&mut commitment, "root", root_name.as_str(), &metadata) {
        return Err(SourcePreparationError::Commitment);
    }
    proof {
        let bytes = metadata_bytes("root"@, root_name@, metadata@);
        assert(Seq::<u8>::empty() + bytes =~= bytes);
    }
    if metadata.is_file {
        let total_bytes: u64 = metadata.len;
        if total_bytes > MAX_OFFER_FILE_BYTES {
            return Err(SourcePreparationError::FileTooLarge);
        }
        let descriptor = OfferDescriptor::File { root_name, total_bytes };
        if let Err(error) = descriptor.validate() {
            return Err(SourcePreparationError::Text(error));
        }
        return Ok(
            PathPreparation::Ready(
                PreparedOfferSource {
                    descriptor,
                    source: OfferSource::File {
                        canonical_path: canonical.path,
                        metadata_commitment: finish(commitment),
                    },
                },
            ),
        );
    }
    if !metadata.is_directory {
        return Err(SourcePreparationError::SpecialFile);
    }
    Ok(PathPreparation::Walk(root_name, Walk::new(WalkRules { serving: None }, commitment)))
}

/// Why a folder cannot be offered, as far as its walk shows.
pub open spec fn walk_error(fault: WalkFault<Seq<char>>) -> SourcePreparationError<Seq<char>> {
    match fault {
        WalkFault::Unreadable(s) => SourcePreparationError::Inspect(s),
        WalkFault::NonUtf8Name => SourcePreparationError::NonUtf8Name,
        WalkFault::InvalidName => SourcePreparationError::InvalidName,
        WalkFault::Symlink => SourcePreparationError::Symlink,
        WalkFault::NoTimestamp => SourcePreparationError::Commitment,
        WalkFault::SpecialFile => SourcePreparationError::SpecialFile,
        _ => SourcePreparationError::TreeTooLarge,
    }
}

/// The descriptor of a folder that was walked to its end.
pub open spec fn walked_descriptor(root_name: Seq<char>, walk: WalkView) -> DescriptorView {
    DescriptorView::Folder {
        root_name,
        total_bytes: walk.total_bytes,
        entry_count: walk.entry_count,
        file_count: walk.file_count,
        directory_count: walk.directory_count,
    }
}

/// Prepares a folder after its walk; one that has not come to its end cannot be
/// inspected.
pub fn walk_directory(root_name: String, canonical_path: String, walk: Walk) -> (r: Result<
    PreparedOfferSource,
    SourcePreparationError,
>)
    ensures
        match walk@.step {
            WalkStep::Finished(Err(fault)) => r matches Err(error) && error@ == walk_error(fault),
            WalkStep::Finished(Ok(())) => match walked_descriptor(root_name@, walk@).check() {
                Err(expected) => r matches Err(error) && error@ == SourcePreparationError::<
                    Seq<char>,
                >::Text(expected),
                Ok(()) => r matches Ok(prepared) && {
                    &&& prepared.descriptor@ == walked_descriptor(root_name@, walk@)
                    &&& prepared.source matches OfferSource::Folder {
                        canonical_path: path,
                        metadata_commitment,
                    } && path@ == canonical_path@ && metadata_commitment@ == sha256(
                        walk@.transcript,
                    ) && metadata_commitment@.len() == 32
                },
            },
            _ => r matches Err(error) && error@ == SourcePreparationError::<Seq<char>>::Inspect(
                "walk is not finished"@,
            ),
        },
{
    match walk.step {
        WalkStep::Finished(Ok(())) => {},
        WalkStep::Finished(Err(fault)) => {
            return Err(
                match fault {
                    WalkFault::Unreadable(s) => SourcePreparationError::Inspect(s),
                    WalkFault::NonUtf8Name => SourcePreparationError::NonUtf8Name,
                    WalkFault::InvalidName => SourcePreparationError::InvalidName,
                    WalkFault::Symlink => SourcePreparationError::Symlink,
                    WalkFault::NoTimestamp => SourcePreparationError::Commitment,
                    WalkFault::SpecialFile => SourcePreparationError::SpecialFile,
                    _ => SourcePreparationError::TreeTooLarge,
                },
            );
        },
        _ => {
            return Err(SourcePreparationError::Inspect("walk is not finished".to_owned()));
        },
    }
    let descriptor = OfferDescriptor::Folder {
        root_name,
        total_bytes: walk.total_bytes,
        entry_count: walk.entry_count,
        file_count: walk.file_count,
        directory_count: walk.directory_count,
    };
    if let Err(error) = descriptor.validate() {
        return Err(SourcePreparationError::Text(error));
    }
    Ok(
        PreparedOfferSource {
            descriptor,
            source: OfferSource::Folder {
                canonical_path,
                metadata_commitment: finish(walk.commitment),
            },
        },
    )
}

/// A file that can be offered, and has not changed since, is found unchanged when
/// it is served.
pub proof fn lemma_unchanged_file_is_served(name: Seq<char>, metadata: MetadataView)
    requires
        root_error(Some(name), metadata) is None,
        metadata.is_file,
    ensures
        file_check(
            name,
            metadata.len,
            Some(metadata),
            Some(name),
            root_commitment(name, metadata),
        ) is Ok,
{
}

/// The walk that serves a folder is the walk that offered it, but for its rules.
pub open spec fn same_walk(offered: WalkView, served: WalkView) -> bool {
    served == WalkView { rules: served.rules, ..offered }
}

/// Whether serving takes every name and path that offering takes on the way, and
/// at least as many entries.
pub open spec fn rules_agree(w: WalkView, rules: WalkRules) -> bool {
    &&& w.rules == offering()
    &&& rules.max_entries() >= w.rules.max_entries()
    &&& forall|i: int, k: int|
        #![trigger w.frames[i].names[k]]
        0 <= i < w.frames.len() && 0 <= k < w.frames[i].names.len() ==> name_agrees(
            w.frames[i].directory,
            w.frames[i].names[k],
            rules,
        )
}

/// Whether serving takes a name where offering takes it.
pub open spec fn name_agrees(directory: Seq<char>, name: Seq<u8>, rules: WalkRules) -> bool {
    let text = vstd::utf8::decode_utf8(name);
    offerable_component(text) ==> {
        &&& rules.accepts_name(text)
        &&& rules.accepts_path(crate::walk::child_path(directory, text))
    }
}

proof fn lemma_same_advance(offered: WalkView, rules: WalkRules)
    requires
        rules_agree(offered, rules),
        !(offered.advance().step matches WalkStep::Finished(Err(_))),
    ensures
        same_walk(offered.advance(), (WalkView { rules, ..offered }).advance()),
    decreases offered.frames.len(),
{
    let served = WalkView { rules, ..offered };
    if offered.frames.len() > 0 {
        let last = offered.frames.len() - 1;
        let frame = offered.frames.last();
        if frame.names.len() == 0 {
            let outer = WalkView { frames: offered.frames.drop_last(), ..offered };
            assert forall|i: int, k: int|
                #![trigger outer.frames[i].names[k]]
                0 <= i < outer.frames.len() && 0 <= k
                    < outer.frames[i].names.len() implies name_agrees(
                outer.frames[i].directory,
                outer.frames[i].names[k],
                rules,
            ) by {
                assert(outer.frames[i] == offered.frames[i]);
                assert(name_agrees(
                    offered.frames[i].directory,
                    offered.frames[i].names[k],
                    rules,
                ));
            }
            lemma_same_advance(outer, rules);
        } else {
            assert(name_agrees(
                offered.frames[last].directory,
                offered.frames[last].names[0],
                rules,
            ));
        }
    }
}

/// As long as a folder can be offered and does not change, serving it goes through the
/// same steps as offering it did, and so commits to the same metadata.  This leaves out
/// folders with names or paths that may be offered but not served.
pub proof fn lemma_unchanged_folder_is_walked_alike(
    offered: WalkView,
    rules: WalkRules,
    event: WalkEvent,
)
    requires
        rules_agree(offered, rules),
        event matches WalkEvent::Listed(Ok(names)) ==> (offered.step matches WalkStep::List(
            directory,
        ) ==> forall|k: int|
            0 <= k < sorted_names(name_views(names@)).len() ==> name_agrees(
                directory,
                #[trigger] sorted_names(name_views(names@))[k],
                rules,
            )),
        !(offered.next(event).step matches WalkStep::Finished(Err(_))),
    ensures
        same_walk(offered.next(event), (WalkView { rules, ..offered }).next(event)),
{
    let served = WalkView { rules, ..offered };
    match (offered.step, event) {
        (WalkStep::List(directory), WalkEvent::Listed(Ok(names))) => {
            let frame = FrameView { directory, names: sorted_names(name_views(names@)) };
            let pushed = WalkView { frames: offered.frames.push(frame), ..offered };
            assert forall|i: int, k: int|
                #![trigger pushed.frames[i].names[k]]
                0 <= i < pushed.frames.len() && 0 <= k
                    < pushed.frames[i].names.len() implies name_agrees(
                pushed.frames[i].directory,
                pushed.frames[i].names[k],
                rules,
            ) by {
                if i < offered.frames.len() {
                    assert(pushed.frames[i] == offered.frames[i]);
                    assert(name_agrees(
                        offered.frames[i].directory,
                        offered.frames[i].names[k],
                        rules,
                    ));
                }
            }
            lemma_same_advance(pushed, rules);
        },
        (WalkStep::Inspect(path), WalkEvent::Inspected(Ok(metadata))) => {
            let visited = offered.visit(path, metadata@);
            if !metadata.is_symlink && metadata.modified is Some && metadata.is_file {
                let m = metadata@;
                let counted = WalkView {
                    entry_count: (offered.entry_count + 1) as u32,
                    transcript: offered.transcript + metadata_bytes("entry"@, path, m),
                    file_count: (offered.file_count + 1) as u32,
                    total_bytes: (offered.total_bytes + m.len) as u64,
                    manifest: offered.manifest.push(
                        crate::wire::EntryView {
                            relative_path: path,
                            kind: crate::wire::FileEntryKind::File,
                            byte_len: m.len,
                        },
                    ),
                    files: offered.files.push(
                        crate::walk::LiveFileView {
                            entry_index: offered.manifest.len() as u32,
                            is_root: false,
                            relative_name: path,
                            byte_len: m.len,
                            metadata_digest: sha256(metadata_bytes("entry"@, path, m)),
                        },
                    ),
                    ..offered
                };
                lemma_same_advance(counted, rules);
            }
        },
        _ => {},
    }
}

/// A folder whose walk came to the same end is found unchanged when it is served.
pub proof fn lemma_unchanged_folder_is_served(
    root_name: Seq<char>,
    offered: WalkView,
    served: WalkView,
)
    requires
        offered.step == WalkStep::<Seq<char>>::Finished(Ok(())),
        same_walk(offered, served),
        walked_descriptor(root_name, offered).check() is Ok,
    ensures
        folder_check(
            served,
            walked_descriptor(root_name, offered),
            sha256(offered.transcript),
        ) is Ok,
{
}

} // verus!
