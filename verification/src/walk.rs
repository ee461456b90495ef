//! Walking an offered folder by metadata alone.
//!
//! The walk visits every object of the folder in the order of its names, a folder
//! before what is in it.  The caller lists directories and reads metadata, as the
//! current step asks for.  Offering a folder and serving it take the same walk,
//! under different rules.
use vstd::prelude::*;
use vstd::utf8::valid_utf8;

use crate::digest::{absorbed, sha256};
use crate::offer::{MAX_OFFER_FILE_BYTES, MAX_OFFER_MANIFEST_ENTRIES, MAX_OFFER_TRANSFER_BYTES};
use crate::order::{name_views, sort_names, sorted_names};
use crate::payload::{text_from_utf8, StagedFile};
use crate::source::{
    hash_metadata, metadata_bytes, metadata_digest, offerable_component, servable_component,
    validate_offer_component, validate_source_component, MetadataView, SourceMetadata,
};
use crate::text::{byte_len, byte_length, join3};
use crate::wire::{entry_views, EntryView, FileEntryKind, ManifestEntry, V2Limits};

verus! {

/// What may be walked: with limits for serving, without them for offering.
#[derive(Debug, Clone, Copy, PartialEq, Eq, Structural)]
pub struct WalkRules {
    pub serving: Option<V2Limits>,
}

/// Why a walk ended early; `S` is the type of its texts.
#[derive(Debug)]
pub enum WalkFault<S = String> {
    /// A directory or its metadata could not be read.
    Unreadable(S),
    NonUtf8Name,
    InvalidName,
    PathTooLong,
    Symlink,
    TooManyEntries,
    /// The time of change is not known.
    NoTimestamp,
    FileTooLarge,
    TreeTooLarge,
    SpecialFile,
}

/// What to do next; `S` is the type of its texts.
#[derive(Debug)]
pub enum WalkStep<S = String> {
    /// List the directory of this path below the root; the root itself is empty.
    List(S),
    /// Read the metadata of the object of this path below the root.
    Inspect(S),
    Finished(Result<(), WalkFault<S>>),
}

/// The outcome of a step.
#[derive(Debug)]
pub enum WalkEvent {
    /// The names in a directory, in any order, as the host spells them.
    Listed(Result<Vec<Vec<u8>>, String>),
    Inspected(Result<SourceMetadata, String>),
}

/// A directory that is being walked, and the names in it that are still to come.
#[derive(Debug)]
pub struct Frame {
    pub directory: String,
    /// The next name stands last.
    pub names: Vec<Vec<u8>>,
}

/// A directory that is being walked, as a value.
pub ghost struct FrameView {
    pub directory: Seq<char>,
    pub names: Seq<Seq<u8>>,
}

impl View for Frame {
    type V = FrameView;

    open spec fn view(&self) -> FrameView {
        FrameView {
            directory: self.directory@,
            names: name_views(self.names@).reverse(),
        }
    }
}

/// A file that an origin can send.
#[derive(Debug)]
pub struct LiveFile {
    pub entry_index: u32,
    /// Whether it is the offered file itself, and not one in a folder.
    pub is_root: bool,
    pub relative_name: String,
    pub byte_len: u64,
    pub metadata_digest: Vec<u8>,
}

/// A file that an origin can send, as a value.
pub ghost struct LiveFileView {
    pub entry_index: u32,
    pub is_root: bool,
    pub relative_name: Seq<char>,
    pub byte_len: u64,
    pub metadata_digest: Seq<u8>,
}

impl View for LiveFile {
    type V = LiveFileView;

    open spec fn view(&self) -> LiveFileView {
        LiveFileView {
            entry_index: self.entry_index,
            is_root: self.is_root,
            relative_name: self.relative_name@,
            byte_len: self.byte_len,
            metadata_digest: self.metadata_digest@,
        }
    }
}

pub open spec fn file_views(v: Seq<LiveFile>) -> Seq<LiveFileView> {
    Seq::new(v.len(), |i: int| v[i]@)
}

pub open spec fn frame_views(v: Seq<Frame>) -> Seq<FrameView> {
    Seq::new(v.len(), |i: int| v[i]@)
}

/// The walk of one folder.
pub struct Walk {
    pub rules: WalkRules,
    pub commitment: sha2::Sha256,
    pub total_bytes: u64,
    pub entry_count: u32,
    pub file_count: u32,
    pub directory_count: u32,
    pub manifest: Vec<ManifestEntry>,
    pub files: Vec<LiveFile>,
    pub frames: Vec<Frame>,
    pub step: WalkStep,
}

/// The walk of one folder, as a value.
pub ghost struct WalkView {
    pub rules: WalkRules,
    /// What the commitment has taken in.
    pub transcript: Seq<u8>,
    pub total_bytes: u64,
    pub entry_count: u32,
    pub file_count: u32,
    pub directory_count: u32,
    pub manifest: Seq<EntryView>,
    pub files: Seq<LiveFileView>,
    pub frames: Seq<FrameView>,
    pub step: WalkStep<Seq<char>>,
}

pub open spec fn fault_view(fault: WalkFault) -> WalkFault<Seq<char>> {
    match fault {
        WalkFault::Unreadable(s) => WalkFault::Unreadable(s@),
        WalkFault::NonUtf8Name => WalkFault::NonUtf8Name,
        WalkFault::InvalidName => WalkFault::InvalidName,
        WalkFault::PathTooLong => WalkFault::PathTooLong,
        WalkFault::Symlink => WalkFault::Symlink,
        WalkFault::TooManyEntries => WalkFault::TooManyEntries,
        WalkFault::NoTimestamp => WalkFault::NoTimestamp,
        WalkFault::FileTooLarge => WalkFault::FileTooLarge,
        WalkFault::TreeTooLarge => WalkFault::TreeTooLarge,
        WalkFault::SpecialFile => WalkFault::SpecialFile,
    }
}

pub open spec fn walk_step_view(step: WalkStep) -> WalkStep<Seq<char>> {
    match step {
        WalkStep::List(s) => WalkStep::List(s@),
        WalkStep::Inspect(s) => WalkStep::Inspect(s@),
        WalkStep::Finished(Ok(())) => WalkStep::Finished(Ok(())),
        WalkStep::Finished(Err(fault)) => WalkStep::Finished(Err(fault_view(fault))),
    }
}

impl View for Walk {
    type V = WalkView;

    open spec fn view(&self) -> WalkView {
        WalkView {
            rules: self.rules,
            transcript: absorbed(self.commitment),
            total_bytes: self.total_bytes,
            entry_count: self.entry_count,
            file_count: self.file_count,
            directory_count: self.directory_count,
            manifest: entry_views(self.manifest@),
            files: file_views(self.files@),
            frames: frame_views(self.frames@),
            step: walk_step_view(self.step),
        }
    }
}

/// The path of `name` in `directory`.
pub open spec fn child_path(directory: Seq<char>, name: Seq<char>) -> Seq<char> {
    if directory.len() == 0 {
        name
    } else {
        directory + "/"@ + name
    }
}

impl WalkRules {
    pub open spec fn accepts_name(self, name: Seq<char>) -> bool {
        match self.serving {
            Some(limits) => servable_component(name, limits.max_component_bytes as nat),
            None => offerable_component(name),
        }
    }

    pub open spec fn accepts_path(self, path: Seq<char>) -> bool {
        match self.serving {
            Some(limits) => byte_len(path) <= limits.max_relative_path_bytes,
            None => true,
        }
    }

    pub open spec fn max_entries(self) -> u32 {
        match self.serving {
            Some(limits) => limits.max_manifest_entries,
            None => MAX_OFFER_MANIFEST_ENTRIES,
        }
    }

    fn takes_name(&self, name: &str) -> (r: bool)
        ensures
            r == self.accepts_name(name@),
    {
        match &self.serving {
            Some(limits) => validate_source_component(name, limits.max_component_bytes),
            None => validate_offer_component(name),
        }
    }

    fn takes_path(&self, path: &str) -> (r: bool)
        ensures
            r == self.accepts_path(path@),
    {
        match &self.serving {
            Some(limits) => byte_length(path) <= limits.max_relative_path_bytes,
            None => true,
        }
    }

    fn entry_limit(&self) -> (r: u32)
        ensures
            r == self.max_entries(),
    {
        match &self.serving {
            Some(limits) => limits.max_manifest_entries,
            None => MAX_OFFER_MANIFEST_ENTRIES,
        }
    }
}

impl WalkView {
    pub open spec fn stop(self, fault: WalkFault<Seq<char>>) -> WalkView {
        WalkView { step: WalkStep::Finished(Err(fault)), ..self }
    }

    /// Goes on to `name` in `directory`.
    pub open spec fn visit_name(self, directory: Seq<char>, name: Seq<u8>) -> WalkView {
        let text = vstd::utf8::decode_utf8(name);
        if !valid_utf8(name) {
            self.stop(WalkFault::NonUtf8Name)
        } else if !self.rules.accepts_name(text) {
            self.stop(WalkFault::InvalidName)
        } else if !self.rules.accepts_path(child_path(directory, text)) {
            self.stop(WalkFault::PathTooLong)
        } else {
            WalkView { step: WalkStep::Inspect(child_path(directory, text)), ..self }
        }
    }

    /// Goes on to the next name that is still to come, or ends.
    pub open spec fn advance(self) -> WalkView
        decreases self.frames.len(),
    {
        if self.frames.len() == 0 {
            WalkView { step: WalkStep::Finished(Ok(())), ..self }
        } else {
            let frame = self.frames.last();
            let outer = self.frames.drop_last();
            if frame.names.len() == 0 {
                WalkView { frames: outer, ..self }.advance()
            } else {
                let rest = FrameView { names: frame.names.drop_first(), ..frame };
                WalkView { frames: outer.push(rest), ..self }.visit_name(
                    frame.directory,
                    frame.names[0],
                )
            }
        }
    }

    /// Counts one object and goes on: into a directory, or to the next name.
    pub open spec fn visit(self, path: Seq<char>, metadata: MetadataView) -> WalkView {
        let counted = WalkView {
            entry_count: (self.entry_count + 1) as u32,
            transcript: self.transcript + metadata_bytes("entry"@, path, metadata),
            ..self
        };
        if metadata.is_symlink {
            self.stop(WalkFault::Symlink)
        } else if self.entry_count + 1 > self.rules.max_entries() {
            self.stop(WalkFault::TooManyEntries)
        } else if metadata.modified is None {
            self.stop(WalkFault::NoTimestamp)
        } else if metadata.is_file {
            if metadata.len > MAX_OFFER_FILE_BYTES {
                self.stop(WalkFault::FileTooLarge)
            } else if self.total_bytes + metadata.len > MAX_OFFER_TRANSFER_BYTES {
                self.stop(WalkFault::TreeTooLarge)
            } else {
                WalkView {
                    file_count: (self.file_count + 1) as u32,
                    total_bytes: (self.total_bytes + metadata.len) as u64,
                    manifest: self.manifest.push(
                        EntryView {
                            relative_path: path,
                            kind: FileEntryKind::File,
                            byte_len: metadata.len,
                        },
                    ),
                    files: self.files.push(
                        LiveFileView {
                            entry_index: self.manifest.len() as u32,
                            is_root: false,
                            relative_name: path,
                            byte_len: metadata.len,
                            metadata_digest: sha256(metadata_bytes("entry"@, path, metadata)),
                        },
                    ),
                    ..counted
                }.advance()
            }
        } else if metadata.is_directory {
            WalkView {
                directory_count: (self.directory_count + 1) as u32,
                manifest: self.manifest.push(
                    EntryView {
                        relative_path: path,
                        kind: FileEntryKind::Directory,
                        byte_len: 0,
                    },
                ),
                step: WalkStep::List(path),
                ..counted
            }
        } else {
            self.stop(WalkFault::SpecialFile)
        }
    }

    /// What an event does; one that does not answer the current step changes nothing.
    pub open spec fn next(self, event: WalkEvent) -> WalkView {
        match (self.step, event) {
            (WalkStep::List(directory), WalkEvent::Listed(Ok(names))) => WalkView {
                frames: self.frames.push(
                    FrameView { directory, names: sorted_names(name_views(names@)) },
                ),
                ..self
            }.advance(),
            (WalkStep::Inspect(path), WalkEvent::Inspected(Ok(metadata))) => self.visit(
                path,
                metadata@,
            ),
            (WalkStep::List(_), WalkEvent::Listed(Err(s)))
            | (WalkStep::Inspect(_), WalkEvent::Inspected(Err(s))) => self.stop(
                WalkFault::Unreadable(s@),
            ),
            _ => self,
        }
    }

    /// What holds between any two steps: the counts are those of the manifest, and
    /// the files are its files.
    pub open spec fn wf(self) -> bool {
        &&& self.manifest.len() == self.entry_count
        &&& self.file_count + self.directory_count == self.entry_count
        &&& self.file_count == crate::manifest::kind_count(self.manifest, FileEntryKind::File)
        &&& self.directory_count == crate::manifest::kind_count(
            self.manifest,
            FileEntryKind::Directory,
        )
        &&& self.total_bytes == crate::manifest::file_bytes(self.manifest)
        &&& self.total_bytes <= MAX_OFFER_TRANSFER_BYTES
        &&& self.files.len() == self.file_count
        &&& crate::payload::staged_files(self.manifest) =~= Seq::new(
            self.files.len(),
            |i: int|
                StagedFile {
                    entry_index: self.files[i].entry_index,
                    byte_len: self.files[i].byte_len,
                },
        )
    }
}

proof fn lemma_advance_wf(w: WalkView)
    requires
        w.wf(),
    ensures
        w.advance().wf(),
        w.advance().transcript == w.transcript,
        w.advance().manifest == w.manifest,
    decreases w.frames.len(),
{
    if w.frames.len() > 0 && w.frames.last().names.len() == 0 {
        lemma_advance_wf(WalkView { frames: w.frames.drop_last(), ..w });
    }
}

/// Every event keeps what holds between any two steps.
pub proof fn lemma_walk_wf(w: WalkView, event: WalkEvent)
    requires
        w.wf(),
    ensures
        w.next(event).wf(),
{
    match (w.step, event) {
        (WalkStep::List(directory), WalkEvent::Listed(Ok(names))) => {
            lemma_advance_wf(
                WalkView {
                    frames: w.frames.push(
                        FrameView { directory, names: sorted_names(name_views(names@)) },
                    ),
                    ..w
                },
            );
        },
        (WalkStep::Inspect(path), WalkEvent::Inspected(Ok(metadata))) => {
            lemma_visit_wf(w, path, metadata@);
        },
        _ => {},
    }
}

proof fn lemma_visit_wf(w: WalkView, path: Seq<char>, metadata: MetadataView)
    requires
        w.wf(),
    ensures
        w.visit(path, metadata).wf(),
{
    let file = EntryView { relative_path: path, kind: FileEntryKind::File, byte_len: metadata.len };
    let directory = EntryView {
        relative_path: path,
        kind: FileEntryKind::Directory,
        byte_len: 0,
    };
    assert(w.manifest.push(file).drop_last() =~= w.manifest);
    assert(w.manifest.push(directory).drop_last() =~= w.manifest);
    let counted = WalkView {
        entry_count: (w.entry_count + 1) as u32,
        transcript: w.transcript + metadata_bytes("entry"@, path, metadata),
        ..w
    };
    let with_file = WalkView {
        file_count: (w.file_count + 1) as u32,
        total_bytes: (w.total_bytes + metadata.len) as u64,
        manifest: w.manifest.push(file),
        files: w.files.push(
            LiveFileView {
                entry_index: w.manifest.len() as u32,
                is_root: false,
                relative_name: path,
                byte_len: metadata.len,
                metadata_digest: sha256(metadata_bytes("entry"@, path, metadata)),
            },
        ),
        ..counted
    };
    if w.entry_count + 1 <= w.rules.max_entries() && metadata.is_file && w.total_bytes
        + metadata.len <= MAX_OFFER_TRANSFER_BYTES {
        assert(with_file.wf());
        lemma_advance_wf(with_file);
    }
}

impl Walk {
    /// Starts the walk of a folder whose own metadata is already committed to.
    pub(crate) fn new(rules: WalkRules, commitment: sha2::Sha256) -> (r: Self)
        ensures
            r@ == (WalkView {
                rules,
                transcript: absorbed(commitment),
                total_bytes: 0,
                entry_count: 0,
                file_count: 0,
                directory_count: 0,
                manifest: Seq::empty(),
                files: Seq::empty(),
                frames: Seq::empty(),
                step: WalkStep::List(Seq::empty()),
            }),
            r@.wf(),
    {
        let r = Walk {
            rules,
            commitment,
            total_bytes: 0,
            entry_count: 0,
            file_count: 0,
            directory_count: 0,
            manifest: Vec::new(),
            files: Vec::new(),
            frames: Vec::new(),
            step: WalkStep::List(String::new()),
        };
        assert(r@.manifest =~= Seq::<EntryView>::empty());
        assert(r@.files =~= Seq::<LiveFileView>::empty());
        assert(r@.frames =~= Seq::<FrameView>::empty());
        assert(walk_step_view(r.step) == WalkStep::<Seq<char>>::List(Seq::<char>::empty()));
        r
    }

    fn stop(self, fault: WalkFault) -> (r: Self)
        ensures
            r@ == self@.stop(fault_view(fault)),
            r.frames@ == self.frames@,
    {
        let mut this = self;
        this.step = WalkStep::Finished(Err(fault));
        this
    }

    fn visit_name(self, directory: &str, name: Vec<u8>) -> (r: Self)
        ensures
            r@ == self@.visit_name(directory@, name@),
            r.frames@ == self.frames@,
    {
        let text = match text_from_utf8(name) {
            Some(text) => text,
            None => {
                return self.stop(WalkFault::NonUtf8Name);
            },
        };
        proof {
            vstd::utf8::encode_utf8_decode_utf8(text@);
        }
        if !self.rules.takes_name(text.as_str()) {
            return self.stop(WalkFault::InvalidName);
        }
        let path = if directory.is_empty() {
            text
        } else {
            join3(directory, "/", text.as_str())
        };
        if !self.rules.takes_path(path.as_str()) {
            return self.stop(WalkFault::PathTooLong);
        }
        let mut this = self;
        this.step = WalkStep::Inspect(path);
        this
    }

    fn advance(self) -> (r: Self)
        ensures
            r@ == self@.advance(),
        decreases self.frames@.len(),
    {
        let mut this = self;
        match this.frames.pop() {
            None => {
                this.step = WalkStep::Finished(Ok(()));
                assert(this@.frames =~= self@.frames);
                this
            },
            Some(frame) => {
                assert(this@.frames =~= self@.frames.drop_last());
                assert(frame@ == self@.frames.last());
                let mut frame = frame;
                let ghost before = frame@;
                match frame.names.pop() {
                    None => this.advance(),
                    Some(name) => {
                        let directory = frame.directory.clone();
                        assert(name@ == before.names[0]);
                        assert(frame@.names =~= before.names.drop_first());
                        this.frames.push(frame);
                        assert(this@.frames =~= self@.frames.drop_last().push(
                            FrameView { names: before.names.drop_first(), ..before },
                        ));
                        this.visit_name(directory.as_str(), name)
                    },
                }
            },
        }
    }

    fn on_listed(self, directory: String, names: Vec<Vec<u8>>) -> (r: Self)
        requires
            self.step matches WalkStep::List(d) && d@ == directory@,
        ensures
            r@ == self@.next(WalkEvent::Listed(Ok(names))),
    {
        let mut sorted = sort_names(&names);
        let ghost all = name_views(sorted@);
        let mut to_come: Vec<Vec<u8>> = Vec::new();
        while sorted.len() > 0
            invariant
                sorted@.len() + to_come@.len() == all.len(),
                name_views(sorted@) =~= all.subrange(0, sorted@.len() as int),
                name_views(to_come@) =~= all.subrange(
                    sorted@.len() as int,
                    all.len() as int,
                ).reverse(),
            decreases sorted@.len(),
        {
            let ghost before = name_views(sorted@);
            let ghost moved = name_views(to_come@);
            if let Some(name) = sorted.pop() {
                assert(before[sorted@.len() as int] == name@);
                assert(all[sorted@.len() as int] == name@);
                to_come.push(name);
                assert(name_views(to_come@) =~= moved.push(name@));
                assert(all.subrange(sorted@.len() as int, all.len() as int).drop_first()
                    =~= all.subrange(sorted@.len() + 1int, all.len() as int));
            }
        }
        let frame = Frame { directory, names: to_come };
        assert(frame@.names =~= sorted_names(name_views(names@)));
        let mut this = self;
        this.frames.push(frame);
        assert(this@.frames =~= self@.frames.push(frame@));
        this.advance()
    }

    fn on_inspected(self, path: String, metadata: SourceMetadata) -> (r: Self)
        requires
            self@.wf(),
        ensures
            r@ == self@.visit(path@, metadata@),
    {
        if metadata.is_symlink {
            return self.stop(WalkFault::Symlink);
        }
        let limit: u32 = self.rules.entry_limit();
        if self.entry_count >= limit {
            return self.stop(WalkFault::TooManyEntries);
        }
        if metadata.modified.is_none() {
            return self.stop(WalkFault::NoTimestamp);
        }
        if metadata.is_file {
            if metadata.len > MAX_OFFER_FILE_BYTES {
                return self.stop(WalkFault::FileTooLarge);
            }
            if metadata.len > MAX_OFFER_TRANSFER_BYTES - self.total_bytes {
                return self.stop(WalkFault::TreeTooLarge);
            }
        } else if !metadata.is_directory {
            return self.stop(WalkFault::SpecialFile);
        }
        let ghost old_view = self@;
        let mut this = self;
        let _ = hash_metadata(&mut this.commitment, "entry", path.as_str(), &metadata);
        this.entry_count = this.entry_count + 1;
        if metadata.is_file {
            let digest = match metadata_digest("entry", path.as_str(), &metadata) {
                Some(digest) => digest,
                None => Vec::new(),
            };
            let file = LiveFile {
                entry_index: this.manifest.len() as u32,
                is_root: false,
                relative_name: path.clone(),
                byte_len: metadata.len,
                metadata_digest: digest,
            };
            this.file_count = this.file_count + 1;
            this.total_bytes = this.total_bytes + metadata.len;
            this.manifest.push(
                ManifestEntry {
                    relative_path: path,
                    kind: FileEntryKind::File,
                    byte_len: metadata.len,
                },
            );
            this.files.push(file);
            assert(this@.files =~= old_view.files.push(file@));
            assert(this@.manifest =~= old_view.manifest.push(
                EntryView {
                    relative_path: path@,
                    kind: FileEntryKind::File,
                    byte_len: metadata.len,
                },
            ));
            this.advance()
        } else {
            this.directory_count = this.directory_count + 1;
            this.manifest.push(
                ManifestEntry {
                    relative_path: path.clone(),
                    kind: FileEntryKind::Directory,
                    byte_len: 0,
                },
            );
            assert(this@.manifest =~= old_view.manifest.push(
                EntryView {
                    relative_path: path@,
                    kind: FileEntryKind::Directory,
                    byte_len: 0,
                },
            ));
            this.step = WalkStep::List(path);
            this
        }
    }

    /// Takes the outcome of the current step.
    pub fn walk_folder(self, event: WalkEvent) -> (r: Self)
        requires
            self@.wf(),
        ensures
            r@ == self@.next(event),
            r@.wf(),
    {
        proof {
            lemma_walk_wf(self@, event);
        }
        match event {
            WalkEvent::Listed(result) => {
                let directory = match &self.step {
                    WalkStep::List(directory) => directory.clone(),
                    _ => {
                        return self;
                    },
                };
                match result {
                    Ok(names) => self.on_listed(directory, names),
                    Err(s) => self.stop(WalkFault::Unreadable(s)),
                }
            },
            WalkEvent::Inspected(result) => {
                let path = match &self.step {
                    WalkStep::Inspect(path) => path.clone(),
                    _ => {
                        return self;
                    },
                };
                match result {
                    Ok(metadata) => self.on_inspected(path, metadata),
                    Err(s) => self.stop(WalkFault::Unreadable(s)),
                }
            },
        }
    }
}

} // verus!
