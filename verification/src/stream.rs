//! Sending one file of an offer, which must stay as it was planned.
use vstd::prelude::*;

use crate::digest::{absorb, absorbed, finish, new_hasher, sha256};
use crate::ids::ActivationId;
use crate::net_error::NetError;
use crate::payload::least;
use crate::source::{metadata_bytes, metadata_digest, SourceMetadata};
use crate::walk::LiveFile;
use crate::wire::{FileEnd, FileStart};

verus! {

/// How the sending of one file ended; `S` is the type of the texts.
#[derive(Debug)]
pub enum FileOutcome<S = String, B = Vec<u8>> {
    /// Everything was sent; the digest of it.
    Sent(B),
    /// The file is gone, and nothing was sent.
    Unavailable,
    /// The file is another one, and nothing was sent.
    Changed,
    /// Part of the content was sent, so that only closing is left.
    MidStream,
    /// Everything was sent, and then the file was gone.
    AfterFileUnavailable(B),
    /// Everything was sent, and then the file was another one.
    AfterFileChanged(B),
    Io(NetError<S>),
}

pub open spec fn file_outcome_view(outcome: FileOutcome) -> FileOutcome<Seq<char>, Seq<u8>> {
    match outcome {
        FileOutcome::Sent(digest) => FileOutcome::Sent(digest@),
        FileOutcome::Unavailable => FileOutcome::Unavailable,
        FileOutcome::Changed => FileOutcome::Changed,
        FileOutcome::MidStream => FileOutcome::MidStream,
        FileOutcome::AfterFileUnavailable(digest) => FileOutcome::AfterFileUnavailable(digest@),
        FileOutcome::AfterFileChanged(digest) => FileOutcome::AfterFileChanged(digest@),
        FileOutcome::Io(error) => FileOutcome::Io(error@),
    }
}

/// What the origin sees under the path or the handle of a file: its metadata
/// digest, or that it cannot be read.
#[derive(Debug)]
pub enum Observation {
    /// The metadata digest, where the time of change is known.
    Seen(Option<Vec<u8>>),
    Missing,
}

/// The word under which the metadata of a file is digested.
pub open spec fn metadata_kind(file: LiveFile) -> Seq<char> {
    if file.is_root {
        "root"@
    } else {
        "entry"@
    }
}

/// What is seen of a file, given its metadata where that can be read.
pub fn observe_file(file: &LiveFile, metadata: &Option<SourceMetadata>) -> (r: Observation)
    ensures
        match *metadata {
            None => r is Missing,
            Some(metadata) => r matches Observation::Seen(digest) && {
                &&& digest is Some <==> metadata.modified is Some
                &&& digest is Some ==> digest->0@ == sha256(
                    metadata_bytes(metadata_kind(*file), file.relative_name@, metadata@),
                )
            },
        },
{
    match metadata {
        None => Observation::Missing,
        Some(metadata) => {
            let kind = if file.is_root {
                "root"
            } else {
                "entry"
            };
            Observation::Seen(metadata_digest(kind, file.relative_name.as_str(), metadata))
        },
    }
}

/// Whether a file is as planned.
#[derive(Debug, Clone, Copy, PartialEq, Eq, Structural)]
pub enum FileState {
    AsPlanned,
    Unavailable,
    Changed,
}

/// What an observation says of a planned file.
pub open spec fn observed(observation: Observation, planned: Seq<u8>) -> FileState {
    match observation {
        Observation::Missing => FileState::Unavailable,
        Observation::Seen(Some(digest)) if digest@ == planned => FileState::AsPlanned,
        Observation::Seen(_) => FileState::Changed,
    }
}

/// Compares a file under its path with the plan.
#[must_use]
pub fn verify_path_metadata(observation: &Observation, planned: &Vec<u8>) -> (r: FileState)
    ensures
        r == observed(*observation, planned@),
{
    match observation {
        Observation::Missing => FileState::Unavailable,
        Observation::Seen(None) => FileState::Changed,
        Observation::Seen(Some(digest)) => if crate::wire::same_bytes(digest, planned) {
            FileState::AsPlanned
        } else {
            FileState::Changed
        },
    }
}

/// What to do next with a file; `S` and `B` are the types of texts and bytes.
#[derive(Debug)]
pub enum FileStep<S = String, B = Vec<u8>> {
    /// Look at the file under its path.
    CheckPath,
    /// Open the file and look at it.
    Open,
    WriteStart,
    /// Read a piece of it.
    ReadPiece,
    /// Send these bytes, which were just read.
    WritePiece(B),
    /// Look at the open file once more.
    CheckOpened,
    WriteEnd,
    /// Look at the file under its path once more.
    CheckPathAgain,
    Finished(FileOutcome<S, B>),
}

/// The outcome of a step with a file.
#[derive(Debug)]
pub enum FileEvent {
    Observed(Observation),
    /// A piece of the file; empty at its end, missing where it cannot be read.
    Read(Option<Vec<u8>>),
    Wrote(Result<(), NetError>),
}

/// The sending of one file.
pub struct FileSend {
    pub request_id: ActivationId,
    pub entry_index: u32,
    pub byte_len: u64,
    pub metadata_digest: Vec<u8>,
    pub remaining: u64,
    pub pending: u64,
    pub hasher: sha2::Sha256,
    pub digest: Vec<u8>,
    pub step: FileStep,
}

/// The sending of one file, as a value.
pub ghost struct FileSendView {
    pub request_id: ActivationId,
    pub entry_index: u32,
    pub byte_len: u64,
    pub metadata_digest: Seq<u8>,
    pub remaining: u64,
    pub pending: u64,
    /// What was sent of the file.
    pub content: Seq<u8>,
    pub digest: Seq<u8>,
    pub step: FileStep<Seq<char>, Seq<u8>>,
}

pub open spec fn file_step_view(step: FileStep) -> FileStep<Seq<char>, Seq<u8>> {
    match step {
        FileStep::CheckPath => FileStep::CheckPath,
        FileStep::Open => FileStep::Open,
        FileStep::WriteStart => FileStep::WriteStart,
        FileStep::ReadPiece => FileStep::ReadPiece,
        FileStep::WritePiece(bytes) => FileStep::WritePiece(bytes@),
        FileStep::CheckOpened => FileStep::CheckOpened,
        FileStep::WriteEnd => FileStep::WriteEnd,
        FileStep::CheckPathAgain => FileStep::CheckPathAgain,
        FileStep::Finished(outcome) => FileStep::Finished(file_outcome_view(outcome)),
    }
}

impl View for FileSend {
    type V = FileSendView;

    open spec fn view(&self) -> FileSendView {
        FileSendView {
            request_id: self.request_id,
            entry_index: self.entry_index,
            byte_len: self.byte_len,
            metadata_digest: self.metadata_digest@,
            remaining: self.remaining,
            pending: self.pending,
            content: absorbed(self.hasher),
            digest: self.digest@,
            step: file_step_view(self.step),
        }
    }
}

impl FileSendView {
    pub open spec fn at(self, step: FileStep<Seq<char>, Seq<u8>>) -> FileSendView {
        FileSendView { step, ..self }
    }

    pub open spec fn end(self, outcome: FileOutcome<Seq<char>, Seq<u8>>) -> FileSendView {
        self.at(FileStep::Finished(outcome))
    }

    /// The step once a piece, or the start, is sent.
    pub open spec fn more(self) -> FileSendView {
        self.at(
            if self.remaining > 0 {
                FileStep::ReadPiece
            } else {
                FileStep::CheckOpened
            },
        )
    }

    /// What an observation does.
    pub open spec fn observe(self, observation: Observation) -> FileSendView {
        let state = observed(observation, self.metadata_digest);
        match self.step {
            FileStep::CheckPath => match state {
                FileState::AsPlanned => self.at(FileStep::Open),
                FileState::Unavailable => self.end(FileOutcome::Unavailable),
                FileState::Changed => self.end(FileOutcome::Changed),
            },
            FileStep::Open => match state {
                FileState::AsPlanned => self.at(FileStep::WriteStart),
                FileState::Unavailable => self.end(FileOutcome::Unavailable),
                FileState::Changed => self.end(FileOutcome::Changed),
            },
            FileStep::CheckOpened => match state {
                FileState::AsPlanned => FileSendView {
                    digest: sha256(self.content),
                    content: Seq::empty(),
                    step: FileStep::WriteEnd,
                    ..self
                },
                _ => self.end(FileOutcome::MidStream),
            },
            FileStep::CheckPathAgain => match state {
                FileState::AsPlanned => self.end(FileOutcome::Sent(self.digest)),
                FileState::Unavailable => self.end(
                    FileOutcome::AfterFileUnavailable(self.digest),
                ),
                FileState::Changed => self.end(FileOutcome::AfterFileChanged(self.digest)),
            },
            _ => self,
        }
    }

    /// What a written message or piece does.
    pub open spec fn wrote(self, result: Result<(), NetError>) -> FileSendView {
        if !(self.step is WriteStart || self.step is WritePiece || self.step is WriteEnd) {
            self
        } else {
            match result {
                Err(error) => self.end(FileOutcome::Io(error@)),
                Ok(()) => if self.step is WriteStart {
                    self.more()
                } else if self.step is WritePiece {
                    FileSendView {
                        remaining: if self.remaining > self.pending {
                            (self.remaining - self.pending) as u64
                        } else {
                            0
                        },
                        pending: 0,
                        ..self
                    }.more()
                } else {
                    self.at(FileStep::CheckPathAgain)
                },
            }
        }
    }

    /// What an event does; one that does not answer the current step changes nothing.
    pub open spec fn next(self, event: FileEvent) -> FileSendView {
        match event {
            FileEvent::Observed(observation) => self.observe(observation),
            FileEvent::Wrote(result) => self.wrote(result),
            FileEvent::Read(piece) => if !(self.step is ReadPiece) {
                self
            } else {
                match piece {
                    Some(bytes) if bytes@.len() > 0 => FileSendView {
                        content: self.content + bytes@,
                        pending: bytes@.len() as u64,
                        step: FileStep::WritePiece(bytes@),
                        ..self
                    },
                    _ => self.end(FileOutcome::MidStream),
                }
            },
        }
    }

    /// The most bytes to read now.
    pub open spec fn wanted(self, buffer: int) -> int {
        least(self.remaining as int, buffer)
    }
}

impl FileSend {
    /// Starts to send a planned file.
    pub fn new(
        request_id: ActivationId,
        entry_index: u32,
        byte_len: u64,
        metadata_digest: Vec<u8>,
    ) -> (r: Self)
        ensures
            r@ == (FileSendView {
                request_id,
                entry_index,
                byte_len,
                metadata_digest: metadata_digest@,
                remaining: byte_len,
                pending: 0,
                content: Seq::empty(),
                digest: Seq::empty(),
                step: FileStep::CheckPath,
            }),
    {
        let r = FileSend {
            request_id,
            entry_index,
            byte_len,
            metadata_digest,
            remaining: byte_len,
            pending: 0,
            hasher: new_hasher(),
            digest: Vec::new(),
            step: FileStep::CheckPath,
        };
        assert(r@.digest =~= Seq::<u8>::empty());
        r
    }

    /// How many bytes to read now, with a buffer of `buffer` bytes.
    #[must_use]
    pub fn wanted(&self, buffer: usize) -> (r: u64)
        ensures
            r == self@.wanted(buffer as int),
    {
        if self.remaining < buffer as u64 {
            self.remaining
        } else {
            buffer as u64
        }
    }

    /// The message that opens the file.
    #[must_use]
    pub fn start_message(&self) -> (r: FileStart)
        ensures
            r.request_id == self.request_id,
            r.entry_index == self.entry_index,
            r.byte_len == self.byte_len,
    {
        FileStart {
            request_id: self.request_id,
            entry_index: self.entry_index,
            byte_len: self.byte_len,
        }
    }

    /// The message that closes the file.
    #[must_use]
    pub fn end_message(&self) -> (r: FileEnd)
        ensures
            r.request_id == self.request_id,
            r.entry_index == self.entry_index,
            r.sha256@ == self@.digest,
    {
        FileEnd {
            request_id: self.request_id,
            entry_index: self.entry_index,
            sha256: self.digest.clone(),
        }
    }

    fn end(self, outcome: FileOutcome) -> (r: Self)
        ensures
            r@ == self@.end(file_outcome_view(outcome)),
    {
        let mut this = self;
        this.step = FileStep::Finished(outcome);
        this
    }

    fn more(self) -> (r: Self)
        ensures
            r@ == self@.more(),
    {
        let mut this = self;
        this.step = if this.remaining > 0 {
            FileStep::ReadPiece
        } else {
            FileStep::CheckOpened
        };
        this
    }

    fn on_observed(self, observation: Observation) -> (r: Self)
        ensures
            r@ == self@.observe(observation),
    {
        let state = verify_path_metadata(&observation, &self.metadata_digest);
        let mut this = self;
        match this.step {
            FileStep::CheckPath => match state {
                FileState::AsPlanned => {
                    this.step = FileStep::Open;
                    this
                },
                FileState::Unavailable => this.end(FileOutcome::Unavailable),
                FileState::Changed => this.end(FileOutcome::Changed),
            },
            FileStep::Open => match state {
                FileState::AsPlanned => {
                    this.step = FileStep::WriteStart;
                    this
                },
                FileState::Unavailable => this.end(FileOutcome::Unavailable),
                FileState::Changed => this.end(FileOutcome::Changed),
            },
            FileStep::CheckOpened => match state {
                FileState::AsPlanned => {
                    let mut hasher = new_hasher();
                    std::mem::swap(&mut hasher, &mut this.hasher);
                    this.digest = finish(hasher);
                    this.step = FileStep::WriteEnd;
                    this
                },
                _ => this.end(FileOutcome::MidStream),
            },
            FileStep::CheckPathAgain => {
                let digest = this.digest.clone();
                match state {
                    FileState::AsPlanned => this.end(FileOutcome::Sent(digest)),
                    FileState::Unavailable => this.end(FileOutcome::AfterFileUnavailable(digest)),
                    FileState::Changed => this.end(FileOutcome::AfterFileChanged(digest)),
                }
            },
            _ => this,
        }
    }

    fn on_wrote(self, result: Result<(), NetError>) -> (r: Self)
        ensures
            r@ == self@.wrote(result),
    {
        if !matches!(
            self.step,
            FileStep::WriteStart | FileStep::WritePiece(_) | FileStep::WriteEnd
        ) {
            return self;
        }
        if let Err(error) = result {
            return self.end(FileOutcome::Io(error));
        }
        let mut this = self;
        match this.step {
            FileStep::WriteStart => this.more(),
            FileStep::WritePiece(_) => {
                this.remaining = this.remaining.saturating_sub(this.pending);
                this.pending = 0;
                this.more()
            },
            _ => {
                this.step = FileStep::CheckPathAgain;
                this
            },
        }
    }

    /// Takes the outcome of the current step.
    pub fn stream_file(self, event: FileEvent) -> (r: Self)
        ensures
            r@ == self@.next(event),
    {
        match event {
            FileEvent::Observed(observation) => self.on_observed(observation),
            FileEvent::Wrote(result) => self.on_wrote(result),
            FileEvent::Read(piece) => {
                if !matches!(self.step, FileStep::ReadPiece) {
                    return self;
                }
                match piece {
                    Some(bytes) => {
                        if bytes.len() == 0 {
                            return self.end(FileOutcome::MidStream);
                        }
                        let mut this = self;
                        absorb(&mut this.hasher, bytes.as_slice());
                        this.pending = bytes.len() as u64;
                        this.step = FileStep::WritePiece(bytes);
                        this
                    },
                    None => self.end(FileOutcome::MidStream),
                }
            },
        }
    }
}

/// Once part of a file was sent, a change of the source never ends in an abort
/// message: the stream is closed, or the file is finished first.
pub proof fn lemma_no_abort_inside_a_file(m: FileSendView, event: FileEvent)
    requires
        m.step is ReadPiece || m.step is WritePiece || m.step is CheckOpened,
    ensures
        !(m.next(event).step matches FileStep::Finished(FileOutcome::Unavailable)),
        !(m.next(event).step matches FileStep::Finished(FileOutcome::Changed)),
{
}

impl FileSendView {
    /// What was read of the file and what remains make up its planned length.
    pub open spec fn accounted(self) -> bool {
        &&& self.step is ReadPiece || self.step is CheckOpened ==> self.content.len()
            + self.remaining == self.byte_len
        &&& self.step is CheckPath || self.step is Open || self.step is WriteStart
            ==> self.content.len() == 0 && self.remaining == self.byte_len
        &&& self.step is WritePiece ==> self.pending <= self.remaining && self.content.len()
            + self.remaining == self.byte_len + self.pending
        &&& self.step is CheckOpened ==> self.content.len() == self.byte_len
    }
}

/// Every step keeps the account of a file, so that a digest is sent only for as
/// many bytes as the file was planned with.
pub proof fn lemma_file_stays_accounted(m: FileSendView, event: FileEvent)
    requires
        m.accounted(),
        event matches FileEvent::Read(Some(bytes)) ==> bytes@.len() <= m.remaining,
    ensures
        m.next(event).accounted(),
{
}

/// The sending of a file after some events.
pub open spec fn file_run(m: FileSendView, events: Seq<FileEvent>) -> FileSendView
    decreases events.len(),
{
    if events.len() == 0 {
        m
    } else {
        file_run(m, events.drop_last()).next(events.last())
    }
}

/// What was sent of a file: the bytes of each piece that went out, in order.
pub open spec fn on_wire(m: FileSendView, events: Seq<FileEvent>) -> Seq<u8>
    decreases events.len(),
{
    if events.len() == 0 {
        Seq::empty()
    } else {
        let before = on_wire(m, events.drop_last());
        match (file_run(m, events.drop_last()).step, events.last()) {
            (FileStep::WritePiece(bytes), FileEvent::Wrote(Ok(_))) => before + bytes,
            _ => before,
        }
    }
}

/// What is sent of a file is what is hashed of it, byte for byte and in order,
/// whatever the events: the digest that closes it is that of the bytes that went out.
pub proof fn lemma_what_is_hashed_is_sent(m: FileSendView, events: Seq<FileEvent>)
    requires
        m.step is CheckPath,
        m.content == Seq::<u8>::empty(),
    ensures
        ({
            let n = file_run(m, events);
            let wire = on_wire(m, events);
            &&& n.step is CheckPath || n.step is Open || n.step is WriteStart || n.step is ReadPiece
                || n.step is CheckOpened ==> n.content == wire
            &&& n.step matches FileStep::WritePiece(bytes) ==> n.content == wire + bytes
            &&& n.step is WriteEnd || n.step is CheckPathAgain ==> n.digest == sha256(wire)
            &&& n.step matches FileStep::Finished(FileOutcome::Sent(digest)) ==> digest
                == sha256(wire)
        }),
    decreases events.len(),
{
    if events.len() > 0 {
        lemma_what_is_hashed_is_sent(m, events.drop_last());
    }
}

} // verus!
