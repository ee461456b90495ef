//! Receiving the content of one admitted fetch.
//!
//! The caller performs what `action` asks for and hands the outcome to `handle`
//! until the step is `Finished`.  Every byte of content is hashed before it is
//! written, and the digests of the origin must agree with what arrived.
use vstd::prelude::*;
use vstd::utf8::{encode_utf8, valid_utf8};

use crate::digest::{absorb, absorbed, finish, new_hasher, sha256, sha256_of};
use crate::failure::{
    abort_failure, aborted, content_failure, content_read_failure, control_failure,
    protocol_read_failure, verification, ReadFault, ReceiveFailure,
};
use crate::ids::ActivationId;
use crate::manifest::PlanCounts;
use crate::model::ContentKind;
use crate::wire::{
    entry_views, same_bytes, EntryView, FetchAbort, FetchComplete, FileEnd, FileEntryKind,
    FileStart, ManifestEntry, TextEnd,
};

verus! {

/// A file that waits for its content.
#[derive(Debug, Clone, Copy, PartialEq, Eq, Structural)]
pub struct StagedFile {
    pub entry_index: u32,
    pub byte_len: u64,
}

/// The files among the first entries of a manifest, in order.
pub open spec fn staged_files(entries: Seq<EntryView>) -> Seq<StagedFile>
    decreases entries.len(),
{
    if entries.len() == 0 {
        Seq::empty()
    } else {
        let before = staged_files(entries.drop_last());
        if entries.last().kind is File {
            before.push(
                StagedFile {
                    entry_index: (entries.len() - 1) as u32,
                    byte_len: entries.last().byte_len,
                },
            )
        } else {
            before
        }
    }
}

/// The files of a manifest, in the order in which they are sent.
#[must_use]
pub fn files_to_stage(entries: &Vec<ManifestEntry>) -> (r: Vec<StagedFile>)
    requires
        entries@.len() <= u32::MAX,
    ensures
        r@ == staged_files(entry_views(entries@)),
        r@.len() <= entries@.len(),
{
    let ghost all = entry_views(entries@);
    let mut files: Vec<StagedFile> = Vec::new();
    let mut i: usize = 0;
    assert(all.subrange(0, 0) =~= Seq::<EntryView>::empty());
    while i < entries.len()
        invariant
            i <= entries@.len() <= u32::MAX,
            all == entry_views(entries@),
            files@ == staged_files(all.subrange(0, i as int)),
            files@.len() <= i,
        decreases entries@.len() - i,
    {
        let ghost now = all.subrange(0, i + 1);
        assert(now.drop_last() =~= all.subrange(0, i as int));
        assert(now.last() == entries@[i as int]@);
        if matches!(entries[i].kind, FileEntryKind::File) {
            files.push(StagedFile { entry_index: i as u32, byte_len: entries[i].byte_len });
        }
        i = i + 1;
    }
    assert(all.subrange(0, i as int) =~= all);
    files
}

/// A message that an origin sends with its content.
#[derive(Debug)]
pub enum PayloadMessage {
    TextEnd(TextEnd),
    FileStart(FileStart),
    FileEnd(FileEnd),
    Complete(FetchComplete),
    Abort(FetchAbort),
    Other,
}

/// What is read or done next; `S` and `B` are the types of texts and bytes.
#[derive(Debug)]
pub enum PayloadStep<S = String, B = Vec<u8>> {
    /// Read the whole text.
    ReadText,
    ReadTextEnd,
    ReadTextComplete,
    ReadFileStart,
    /// Read a piece of the current file.
    ReadChunk,
    /// Write these bytes, which were just read, behind what is there of the file.
    WriteChunk(B),
    SyncFile,
    ReadFileEnd,
    ReadComplete,
    SyncStaging,
    Finished(Result<(), ReceiveFailure<S>>),
}

/// What came of the last step.
#[derive(Debug)]
pub enum PayloadEvent {
    /// The whole text, or a piece of a file; an empty piece is the end of the stream.
    Content(Result<Vec<u8>, ReadFault>),
    Message(Result<PayloadMessage, ReadFault>),
    /// The outcome of a write or of a synchronization.
    Local(Result<(), String>),
}

/// A content that is being received.
pub struct PayloadReceive {
    pub request_id: ActivationId,
    pub counts: PlanCounts,
    pub files: Vec<StagedFile>,
    pub position: usize,
    pub remaining: u64,
    pub pending: u64,
    pub files_received: u32,
    pub bytes_received: u64,
    pub file_hash: sha2::Sha256,
    pub content_set: sha2::Sha256,
    pub digest: Vec<u8>,
    pub body: Vec<u8>,
    pub text: Option<String>,
    pub step: PayloadStep,
    /// The digest of the manifest.
    pub manifest_digest: Ghost<Seq<u8>>,
    /// The content of the file that was written last.
    pub current: Ghost<Seq<u8>>,
    /// The contents of the files that arrived whole.
    pub received: Ghost<Seq<Seq<u8>>>,
}

/// A content that is being received, with what was hashed so far.
pub ghost struct PayloadView {
    pub request_id: ActivationId,
    pub counts: PlanCounts,
    pub files: Seq<StagedFile>,
    pub position: int,
    pub remaining: int,
    pub pending: int,
    pub files_received: u32,
    pub bytes_received: u64,
    /// The bytes of the current file.
    pub file_content: Seq<u8>,
    /// The manifest digest and the digests of the files that arrived.
    pub content_set: Seq<u8>,
    pub digest: Seq<u8>,
    pub body: Seq<u8>,
    pub text: Option<Seq<char>>,
    pub step: PayloadStep<Seq<char>, Seq<u8>>,
    pub manifest_digest: Seq<u8>,
    pub current: Seq<u8>,
    pub received: Seq<Seq<u8>>,
}

pub open spec fn step_view(step: PayloadStep) -> PayloadStep<Seq<char>, Seq<u8>> {
    match step {
        PayloadStep::ReadText => PayloadStep::ReadText,
        PayloadStep::ReadTextEnd => PayloadStep::ReadTextEnd,
        PayloadStep::ReadTextComplete => PayloadStep::ReadTextComplete,
        PayloadStep::ReadFileStart => PayloadStep::ReadFileStart,
        PayloadStep::ReadChunk => PayloadStep::ReadChunk,
        PayloadStep::WriteChunk(bytes) => PayloadStep::WriteChunk(bytes@),
        PayloadStep::SyncFile => PayloadStep::SyncFile,
        PayloadStep::ReadFileEnd => PayloadStep::ReadFileEnd,
        PayloadStep::ReadComplete => PayloadStep::ReadComplete,
        PayloadStep::SyncStaging => PayloadStep::SyncStaging,
        PayloadStep::Finished(Ok(())) => PayloadStep::Finished(Ok(())),
        PayloadStep::Finished(Err(failure)) => PayloadStep::Finished(Err(failure@)),
    }
}

impl View for PayloadReceive {
    type V = PayloadView;

    open spec fn view(&self) -> PayloadView {
        PayloadView {
            request_id: self.request_id,
            counts: self.counts,
            files: self.files@,
            position: self.position as int,
            remaining: self.remaining as int,
            pending: self.pending as int,
            files_received: self.files_received,
            bytes_received: self.bytes_received,
            file_content: absorbed(self.file_hash),
            content_set: absorbed(self.content_set),
            digest: self.digest@,
            body: self.body@,
            text: crate::text::opt_view(self.text),
            step: step_view(self.step),
            manifest_digest: self.manifest_digest@,
            current: self.current@,
            received: self.received@,
        }
    }
}

/// The lesser of two numbers.
pub open spec fn least(a: int, b: int) -> int {
    if a < b {
        a
    } else {
        b
    }
}

impl PayloadView {
    /// What holds between any two steps.
    pub open spec fn wf(self) -> bool {
        &&& self.files.len() <= u32::MAX
        &&& 0 <= self.position <= self.files.len()
        &&& self.files_received == self.position
        &&& self.step is ReadFileStart ==> self.position < self.files.len()
        &&& self.step is ReadChunk ==> self.position < self.files.len() && 0 < self.remaining
        &&& self.step matches PayloadStep::WriteChunk(bytes) ==> {
            &&& self.position < self.files.len()
            &&& 0 < self.pending <= self.remaining
            &&& bytes.len() == self.pending
        }
        &&& self.step is SyncFile ==> self.position < self.files.len()
        &&& self.step is ReadFileEnd ==> self.position < self.files.len()
        &&& !(self.step is Finished) ==> (self.counts.content_kind is Text <==> (
        self.step is ReadText || self.step is ReadTextEnd || self.step is ReadTextComplete))
    }

    pub open spec fn failed(self, failure: ReceiveFailure<Seq<char>>) -> PayloadView {
        PayloadView { step: PayloadStep::Finished(Err(failure)), ..self }
    }

    pub open spec fn unverified(self, detail: Seq<char>) -> PayloadView {
        self.failed(
            ReceiveFailure::Verification {
                files: self.files_received,
                bytes: self.bytes_received,
                detail,
            },
        )
    }

    pub open spec fn at(self, step: PayloadStep<Seq<char>, Seq<u8>>) -> PayloadView {
        PayloadView { step, ..self }
    }

    /// The step that follows a complete file.
    pub open spec fn after_files(self) -> PayloadStep<Seq<char>, Seq<u8>> {
        if self.position < self.files.len() {
            PayloadStep::ReadFileStart
        } else {
            PayloadStep::ReadComplete
        }
    }

    /// A failed check of a text, which counts all of its bytes as received.
    pub open spec fn bad_text(self, detail: Seq<char>) -> PayloadView {
        self.failed(
            ReceiveFailure::Verification { files: 0, bytes: self.counts.total_bytes, detail },
        )
    }

    /// What the text end does.
    pub open spec fn text_end(self, message: PayloadMessage) -> PayloadView {
        match message {
            PayloadMessage::TextEnd(end) => if end.request_id == self.request_id && end.sha256@
                == self.digest {
                self.at(PayloadStep::ReadTextComplete)
            } else {
                self.bad_text("text digest mismatch"@)
            },
            PayloadMessage::Abort(abort) if abort.request_id == self.request_id => self.failed(
                aborted(abort),
            ),
            _ => self.bad_text("expected text_end"@),
        }
    }

    /// What the completion of a text does.
    pub open spec fn text_complete(self, message: PayloadMessage) -> PayloadView {
        match message {
            PayloadMessage::Complete(complete) => if complete.request_id != self.request_id
                || complete.files_sent != 0 || complete.bytes_sent != self.counts.total_bytes
                || complete.content_set_sha256@ != self.digest {
                self.bad_text("text completion counts or digest mismatch"@)
            } else if !valid_utf8(self.body) {
                self.bad_text("text payload is not UTF-8"@)
            } else {
                PayloadView {
                    text: Some(vstd::utf8::decode_utf8(self.body)),
                    step: PayloadStep::Finished(Ok(())),
                    ..self
                }
            },
            PayloadMessage::Abort(abort) => self.failed(aborted(abort)),
            _ => self.failed(
                ReceiveFailure::Verification {
                    files: 0,
                    bytes: 0,
                    detail: "expected fetch_complete"@,
                },
            ),
        }
    }

    /// What the start of a file does.
    pub open spec fn file_start(self, message: PayloadMessage) -> PayloadView {
        let staged = self.files[self.position];
        match message {
            PayloadMessage::Abort(abort) if abort.request_id == self.request_id => self.failed(
                aborted(abort),
            ),
            PayloadMessage::FileStart(start) => if start.request_id != self.request_id
                || start.entry_index != staged.entry_index || start.byte_len != staged.byte_len {
                self.unverified("file_start ordering or length mismatch"@)
            } else {
                PayloadView {
                    remaining: staged.byte_len as int,
                    file_content: Seq::empty(),
                    step: if staged.byte_len > 0 {
                        PayloadStep::ReadChunk
                    } else {
                        PayloadStep::SyncFile
                    },
                    ..self
                }
            },
            _ => self.unverified("expected file_start"@),
        }
    }

    /// What the end of a file does.
    pub open spec fn file_end(self, message: PayloadMessage) -> PayloadView {
        let staged = self.files[self.position];
        match message {
            PayloadMessage::Abort(abort) if abort.request_id == self.request_id => self.failed(
                aborted(abort),
            ),
            PayloadMessage::FileEnd(end) => if end.request_id != self.request_id
                || end.entry_index != staged.entry_index || end.sha256@ != self.digest {
                self.unverified("file digest or ordering mismatch"@)
            } else {
                let counted = PayloadView {
                    content_set: self.content_set + self.digest,
                    position: self.position + 1,
                    files_received: (self.files_received + 1) as u32,
                    received: self.received.push(self.current),
                    ..self
                };
                counted.at(counted.after_files())
            },
            _ => self.unverified("expected file_end"@),
        }
    }

    /// The digest of the content set has been taken.
    pub open spec fn closed_set(self) -> PayloadView {
        PayloadView { content_set: Seq::empty(), ..self }
    }

    /// What the completion of files does.
    pub open spec fn complete(self, message: PayloadMessage) -> PayloadView {
        match message {
            PayloadMessage::Complete(complete) => if complete.request_id != self.request_id
                || complete.files_sent != self.files_received || complete.bytes_sent
                != self.bytes_received || complete.content_set_sha256@ != sha256(
                self.content_set,
            ) {
                self.closed_set().unverified(
                    "fetch completion counts or content-set digest mismatch"@,
                )
            } else {
                self.closed_set().at(PayloadStep::SyncStaging)
            },
            PayloadMessage::Abort(abort) => self.failed(aborted(abort)),
            _ => self.failed(
                ReceiveFailure::Verification {
                    files: 0,
                    bytes: 0,
                    detail: "expected fetch_complete"@,
                },
            ),
        }
    }

    /// What a message does at the current step.
    pub open spec fn message(self, message: PayloadMessage) -> PayloadView {
        match self.step {
            PayloadStep::ReadTextEnd => self.text_end(message),
            PayloadStep::ReadTextComplete => self.text_complete(message),
            PayloadStep::ReadFileStart => self.file_start(message),
            PayloadStep::ReadFileEnd => self.file_end(message),
            PayloadStep::ReadComplete => self.complete(message),
            _ => self,
        }
    }

    /// The counts that a fault in reading a message is reported with.
    pub open spec fn fault_counts(self) -> (u32, u64) {
        match self.step {
            PayloadStep::ReadTextEnd => (0, self.counts.total_bytes),
            PayloadStep::ReadFileStart | PayloadStep::ReadFileEnd => (
                self.files_received,
                self.bytes_received,
            ),
            _ => (0, 0),
        }
    }

    /// Whether a message is read at the current step.
    pub open spec fn reads_message(self) -> bool {
        ||| self.step is ReadTextEnd
        ||| self.step is ReadTextComplete
        ||| self.step is ReadFileStart
        ||| self.step is ReadFileEnd
        ||| self.step is ReadComplete
    }

    /// What read content does.
    pub open spec fn content(self, content: Result<Vec<u8>, ReadFault>) -> PayloadView {
        match (self.step, content) {
            (PayloadStep::ReadText, Ok(bytes)) => PayloadView {
                digest: sha256(bytes@),
                body: bytes@,
                step: PayloadStep::ReadTextEnd,
                ..self
            },
            (PayloadStep::ReadText, Err(fault)) => self.failed(
                content_failure(fault@, "read payload"@, 0, 0),
            ),
            (PayloadStep::ReadChunk, Ok(bytes)) => if bytes@.len() == 0 {
                self.failed(
                    ReceiveFailure::Disconnected {
                        files: self.files_received,
                        bytes: self.bytes_received,
                    },
                )
            } else {
                PayloadView {
                    file_content: self.file_content + bytes@,
                    pending: bytes@.len() as int,
                    step: PayloadStep::WriteChunk(bytes@),
                    ..self
                }
            },
            (PayloadStep::ReadChunk, Err(fault)) => self.failed(
                content_failure(
                    fault@,
                    "read file payload"@,
                    self.files_received,
                    self.bytes_received,
                ),
            ),
            _ => self,
        }
    }

    /// What a write or a synchronization does.
    pub open spec fn local(self, result: Result<(), String>) -> PayloadView {
        if !(self.step is WriteChunk || self.step is SyncFile || self.step is SyncStaging) {
            self
        } else {
            match result {
                Err(detail) => self.failed(
                    ReceiveFailure::LocalIo {
                        files: self.files_received,
                        bytes: self.bytes_received,
                        detail: detail@,
                    },
                ),
                Ok(()) => if self.step is WriteChunk {
                    PayloadView {
                        remaining: self.remaining - self.pending,
                        bytes_received: least(
                            self.bytes_received + self.pending,
                            u64::MAX as int,
                        ) as u64,
                        pending: 0,
                        step: if self.remaining > self.pending {
                            PayloadStep::ReadChunk
                        } else {
                            PayloadStep::SyncFile
                        },
                        ..self
                    }
                } else if self.step is SyncFile {
                    PayloadView {
                        digest: sha256(self.file_content),
                        current: self.file_content,
                        file_content: Seq::empty(),
                        step: PayloadStep::ReadFileEnd,
                        ..self
                    }
                } else {
                    self.at(PayloadStep::Finished(Ok(())))
                },
            }
        }
    }

    /// What an event does; one that does not answer the current step changes nothing.
    pub open spec fn next(self, event: PayloadEvent) -> PayloadView {
        match event {
            PayloadEvent::Content(content) => self.content(content),
            PayloadEvent::Message(Ok(message)) => self.message(message),
            PayloadEvent::Message(Err(fault)) => if self.reads_message() {
                self.failed(
                    control_failure(fault@, self.fault_counts().0, self.fault_counts().1),
                )
            } else {
                self
            },
            PayloadEvent::Local(result) => self.local(result),
        }
    }

    /// The most bytes to read now.
    pub open spec fn wanted(self, buffer: int) -> int {
        match self.step {
            PayloadStep::ReadText => self.counts.total_bytes as int,
            PayloadStep::ReadChunk => least(self.remaining, buffer),
            _ => 0,
        }
    }

    /// Whether the content of an event is what was asked for: the whole text, or
    /// no more of a file than is still missing.
    pub open spec fn takes(self, event: PayloadEvent) -> bool {
        event matches PayloadEvent::Content(Ok(bytes)) ==> {
            &&& self.step is ReadText ==> bytes@.len() == self.counts.total_bytes
            &&& self.step is ReadChunk ==> bytes@.len() <= self.remaining
        }
    }
}

/// `String::from_utf8`: succeeds exactly on UTF-8, and decodes it.
#[verifier::external_body]
pub(crate) fn text_from_utf8(bytes: Vec<u8>) -> (r: Option<String>)
    ensures
        r is Some <==> valid_utf8(bytes@),
        r matches Some(text) ==> encode_utf8(text@) == bytes@,
{
    String::from_utf8(bytes).ok()
}

impl PayloadReceive {
    /// Waits for the content that an admitted header announced.
    pub fn new(
        request_id: ActivationId,
        counts: PlanCounts,
        manifest_sha256: &Option<Vec<u8>>,
        files: Vec<StagedFile>,
    ) -> (r: Self)
        requires
            files@.len() <= u32::MAX,
        ensures
            r@.wf(),
            r@.request_id == request_id,
            r@.counts == counts,
            r@.files == files@,
            r@.position == 0,
            r@.bytes_received == 0,
            r@.content_set == match *manifest_sha256 {
                Some(digest) => digest@,
                None => Seq::<u8>::empty(),
            },
            r@.text is None,
            r@.manifest_digest == r@.content_set,
            r@.received == Seq::<Seq<u8>>::empty(),
            r@.accounted(),
            r@.step == if counts.content_kind is Text {
                PayloadStep::<Seq<char>, Seq<u8>>::ReadText
            } else {
                r@.after_files()
            },
    {
        let mut content_set = new_hasher();
        if let Some(digest) = manifest_sha256 {
            absorb(&mut content_set, digest.as_slice());
        }
        proof {
            if let Some(digest) = manifest_sha256 {
                assert(Seq::<u8>::empty() + digest@ =~= digest@);
            }
        }
        proof {
            let digest = absorbed(content_set);
            assert(digest + Seq::<u8>::empty() =~= digest);
        }
        let step = if matches!(counts.content_kind, ContentKind::Text) {
            PayloadStep::ReadText
        } else if files.len() > 0 {
            PayloadStep::ReadFileStart
        } else {
            PayloadStep::ReadComplete
        };
        PayloadReceive {
            request_id,
            counts,
            files,
            position: 0,
            remaining: 0,
            pending: 0,
            files_received: 0,
            bytes_received: 0,
            file_hash: new_hasher(),
            content_set,
            digest: Vec::new(),
            body: Vec::new(),
            text: None,
            step,
            manifest_digest: Ghost(absorbed(content_set)),
            current: Ghost(Seq::empty()),
            received: Ghost(Seq::empty()),
        }
    }

    /// How many bytes to read now, with a buffer of `buffer` bytes for files.
    #[must_use]
    pub fn wanted(&self, buffer: usize) -> (r: u64)
        ensures
            r == self@.wanted(buffer as int),
    {
        match self.step {
            PayloadStep::ReadText => self.counts.total_bytes,
            PayloadStep::ReadChunk => if self.remaining < buffer as u64 {
                self.remaining
            } else {
                buffer as u64
            },
            _ => 0,
        }
    }

    fn fail(self, failure: ReceiveFailure) -> (r: Self)
        ensures
            r@ == self@.failed(failure@),
    {
        let mut this = self;
        this.step = PayloadStep::Finished(Err(failure));
        this
    }

    fn unverified(self, detail: &str) -> (r: Self)
        ensures
            r@ == self@.unverified(detail@),
    {
        let failure = verification(self.files_received, self.bytes_received, detail);
        self.fail(failure)
    }

    fn bad_text(self, detail: &str) -> (r: Self)
        ensures
            r@ == self@.bad_text(detail@),
    {
        let failure = verification(0, self.counts.total_bytes, detail);
        self.fail(failure)
    }

    fn at(self, step: PayloadStep) -> (r: Self)
        ensures
            r@ == self@.at(step_view(step)),
    {
        let mut this = self;
        this.step = step;
        this
    }

    fn on_text_end(self, message: PayloadMessage) -> (r: Self)
        ensures
            r@ == self@.text_end(message),
    {
        match message {
            PayloadMessage::TextEnd(end) => {
                if end.request_id == self.request_id && same_bytes(&end.sha256, &self.digest) {
                    self.at(PayloadStep::ReadTextComplete)
                } else {
                    self.bad_text("text digest mismatch")
                }
            },
            PayloadMessage::Abort(abort) => {
                if abort.request_id == self.request_id {
                    self.fail(abort_failure(abort))
                } else {
                    self.bad_text("expected text_end")
                }
            },
            _ => self.bad_text("expected text_end"),
        }
    }

    fn on_text_complete(self, message: PayloadMessage) -> (r: Self)
        ensures
            r@ == self@.text_complete(message),
    {
        match message {
            PayloadMessage::Complete(complete) => {
                if complete.request_id != self.request_id || complete.files_sent != 0
                    || complete.bytes_sent != self.counts.total_bytes || !same_bytes(
                    &complete.content_set_sha256,
                    &self.digest,
                ) {
                    return self.bad_text("text completion counts or digest mismatch");
                }
                match text_from_utf8(self.body.clone()) {
                    Some(text) => {
                        proof {
                            vstd::utf8::encode_utf8_decode_utf8(text@);
                        }
                        let mut this = self;
                        this.text = Some(text);
                        this.step = PayloadStep::Finished(Ok(()));
                        this
                    },
                    None => self.bad_text("text payload is not UTF-8"),
                }
            },
            PayloadMessage::Abort(abort) => self.fail(abort_failure(abort)),
            _ => self.fail(verification(0, 0, "expected fetch_complete")),
        }
    }

    fn on_file_start(self, message: PayloadMessage) -> (r: Self)
        requires
            self.position < self.files@.len(),
        ensures
            r@ == self@.file_start(message),
    {
        let staged = self.files[self.position];
        match message {
            PayloadMessage::Abort(abort) => {
                if abort.request_id == self.request_id {
                    self.fail(abort_failure(abort))
                } else {
                    self.unverified("expected file_start")
                }
            },
            PayloadMessage::FileStart(start) => {
                if start.request_id != self.request_id || start.entry_index != staged.entry_index
                    || start.byte_len != staged.byte_len {
                    self.unverified("file_start ordering or length mismatch")
                } else {
                    let mut this = self;
                    this.remaining = staged.byte_len;
                    this.file_hash = new_hasher();
                    this.step = if staged.byte_len > 0 {
                        PayloadStep::ReadChunk
                    } else {
                        PayloadStep::SyncFile
                    };
                    this
                }
            },
            _ => self.unverified("expected file_start"),
        }
    }

    fn on_file_end(self, message: PayloadMessage) -> (r: Self)
        requires
            self@.wf(),
            self.position < self.files@.len(),
        ensures
            r@ == self@.file_end(message),
    {
        let staged = self.files[self.position];
        match message {
            PayloadMessage::Abort(abort) => {
                if abort.request_id == self.request_id {
                    self.fail(abort_failure(abort))
                } else {
                    self.unverified("expected file_end")
                }
            },
            PayloadMessage::FileEnd(end) => {
                if end.request_id != self.request_id || end.entry_index != staged.entry_index
                    || !same_bytes(&end.sha256, &self.digest) {
                    self.unverified("file digest or ordering mismatch")
                } else {
                    let mut this = self;
                    absorb(&mut this.content_set, this.digest.as_slice());
                    this.received = Ghost(this.received@.push(this.current@));
                    this.position = this.position + 1;
                    this.files_received = this.files_received + 1;
                    this.step = if this.position < this.files.len() {
                        PayloadStep::ReadFileStart
                    } else {
                        PayloadStep::ReadComplete
                    };
                    this
                }
            },
            _ => self.unverified("expected file_end"),
        }
    }

    fn on_complete(self, message: PayloadMessage) -> (r: Self)
        ensures
            r@ == self@.complete(message),
    {
        match message {
            PayloadMessage::Complete(complete) => {
                let mut this = self;
                let mut content_set = new_hasher();
                std::mem::swap(&mut content_set, &mut this.content_set);
                let expected = finish(content_set);
                if complete.request_id != this.request_id || complete.files_sent
                    != this.files_received || complete.bytes_sent != this.bytes_received
                    || !same_bytes(&complete.content_set_sha256, &expected) {
                    this.unverified("fetch completion counts or content-set digest mismatch")
                } else {
                    this.at(PayloadStep::SyncStaging)
                }
            },
            PayloadMessage::Abort(abort) => self.fail(abort_failure(abort)),
            _ => self.fail(verification(0, 0, "expected fetch_complete")),
        }
    }
}

impl PayloadReceive {
    fn on_content(self, content: Result<Vec<u8>, ReadFault>) -> (r: Self)
        ensures
            r@ == self@.content(content),
    {
        match self.step {
            PayloadStep::ReadText => match content {
                Ok(bytes) => {
                    let mut this = self;
                    this.digest = sha256_of(bytes.as_slice());
                    this.body = bytes;
                    this.step = PayloadStep::ReadTextEnd;
                    this
                },
                Err(fault) => self.fail(content_read_failure(fault, "read payload", 0, 0)),
            },
            PayloadStep::ReadChunk => match content {
                Ok(bytes) => {
                    if bytes.len() == 0 {
                        let failure = ReceiveFailure::Disconnected {
                            files: self.files_received,
                            bytes: self.bytes_received,
                        };
                        return self.fail(failure);
                    }
                    let mut this = self;
                    absorb(&mut this.file_hash, bytes.as_slice());
                    this.pending = bytes.len() as u64;
                    this.step = PayloadStep::WriteChunk(bytes);
                    this
                },
                Err(fault) => {
                    let failure = content_read_failure(
                        fault,
                        "read file payload",
                        self.files_received,
                        self.bytes_received,
                    );
                    self.fail(failure)
                },
            },
            _ => self,
        }
    }

    fn on_local(self, result: Result<(), String>) -> (r: Self)
        requires
            self@.wf(),
        ensures
            r@ == self@.local(result),
    {
        if !matches!(
            self.step,
            PayloadStep::WriteChunk(_) | PayloadStep::SyncFile | PayloadStep::SyncStaging
        ) {
            return self;
        }
        if let Err(detail) = result {
            let failure = ReceiveFailure::LocalIo {
                files: self.files_received,
                bytes: self.bytes_received,
                detail,
            };
            return self.fail(failure);
        }
        let mut this = self;
        match this.step {
            PayloadStep::WriteChunk(_) => {
                this.remaining = this.remaining - this.pending;
                this.bytes_received = this.bytes_received.saturating_add(this.pending);
                this.pending = 0;
                this.step = if this.remaining > 0 {
                    PayloadStep::ReadChunk
                } else {
                    PayloadStep::SyncFile
                };
            },
            PayloadStep::SyncFile => {
                let mut file_hash = new_hasher();
                std::mem::swap(&mut file_hash, &mut this.file_hash);
                this.current = Ghost(absorbed(file_hash));
                this.digest = finish(file_hash);
                this.step = PayloadStep::ReadFileEnd;
            },
            _ => {
                this.step = PayloadStep::Finished(Ok(()));
            },
        }
        this
    }

    /// Takes the outcome of the current step.
    pub fn handle(self, event: PayloadEvent) -> (r: Self)
        requires
            self@.wf(),
            self@.takes(event),
        ensures
            r@ == self@.next(event),
            r@.wf(),
    {
        match event {
            PayloadEvent::Content(content) => self.on_content(content),
            PayloadEvent::Message(Ok(message)) => match self.step {
                PayloadStep::ReadTextEnd => self.on_text_end(message),
                PayloadStep::ReadTextComplete => self.on_text_complete(message),
                PayloadStep::ReadFileStart => self.on_file_start(message),
                PayloadStep::ReadFileEnd => self.on_file_end(message),
                PayloadStep::ReadComplete => self.on_complete(message),
                _ => self,
            },
            PayloadEvent::Message(Err(fault)) => match self.step {
                PayloadStep::ReadTextEnd => {
                    let bytes: u64 = self.counts.total_bytes;
                    self.fail(protocol_read_failure(fault, 0, bytes))
                },
                PayloadStep::ReadFileStart | PayloadStep::ReadFileEnd => {
                    let failure = protocol_read_failure(
                        fault,
                        self.files_received,
                        self.bytes_received,
                    );
                    self.fail(failure)
                },
                PayloadStep::ReadTextComplete | PayloadStep::ReadComplete => self.fail(
                    protocol_read_failure(fault, 0, 0),
                ),
                _ => self,
            },
            PayloadEvent::Local(result) => self.on_local(result),
        }
    }
}

/// The bytes of the first `n` files.
pub open spec fn staged_bytes(files: Seq<StagedFile>, n: int) -> int
    decreases n,
{
    if n <= 0 {
        0
    } else {
        staged_bytes(files, n - 1) + files[n - 1].byte_len
    }
}

/// The digests of some contents in a row.
pub open spec fn digests_of(contents: Seq<Seq<u8>>) -> Seq<u8>
    decreases contents.len(),
{
    if contents.len() == 0 {
        Seq::empty()
    } else {
        digests_of(contents.drop_last()) + sha256(contents.last())
    }
}

impl PayloadView {
    /// How much of the current file has been written.
    pub open spec fn written(self) -> int {
        match self.step {
            PayloadStep::ReadChunk | PayloadStep::SyncFile => self.file_content.len() as int,
            PayloadStep::WriteChunk(_) => self.file_content.len() - self.pending,
            PayloadStep::ReadFileEnd => self.current.len() as int,
            _ => 0,
        }
    }

    /// What arrived is accounted for: every file before the current one has its
    /// announced length, the current one lacks exactly what remains, and the
    /// counters and the content set agree with all of them.
    pub open spec fn accounted(self) -> bool {
        ||| self.counts.content_kind is Text
        ||| self.step matches PayloadStep::Finished(Err(_))
        ||| {
            &&& self.received.len() == self.position
            &&& forall|i: int|
                0 <= i < self.position ==> (#[trigger] self.received[i]).len()
                    == self.files[i].byte_len
            &&& self.bytes_received == staged_bytes(self.files, self.position) + self.written()
            &&& self.step is ReadChunk || self.step is WriteChunk ==> self.remaining
                == self.files[self.position].byte_len - self.written()
            &&& self.step is SyncFile ==> self.written() == self.files[self.position].byte_len
            &&& self.step is ReadFileEnd ==> {
                &&& self.written() == self.files[self.position].byte_len
                &&& self.digest == sha256(self.current)
            }
            &&& self.step is ReadComplete || self.step is SyncStaging || self.step is Finished
                ==> self.position == self.files.len()
            &&& !(self.step is SyncStaging || self.step is Finished) ==> self.content_set
                == self.manifest_digest + digests_of(self.received)
        }
    }
}

proof fn lemma_staged_bytes_monotonic(files: Seq<StagedFile>, a: int, b: int)
    requires
        0 <= a <= b,
    ensures
        staged_bytes(files, a) <= staged_bytes(files, b),
    decreases b,
{
    if a < b {
        lemma_staged_bytes_monotonic(files, a, b - 1);
    }
}

/// Every step keeps the account of what arrived.
pub proof fn lemma_content_stays_accounted(p: PayloadView, event: PayloadEvent)
    requires
        p.wf(),
        p.accounted(),
        p.takes(event),
        staged_bytes(p.files, p.files.len() as int) <= u64::MAX,
    ensures
        p.next(event).accounted(),
{
    let q = p.next(event);
    if p.position < p.files.len() {
        lemma_staged_bytes_monotonic(p.files, p.position + 1, p.files.len() as int);
    }
    if q.received.len() == p.received.len() + 1 {
        assert(q.received.drop_last() =~= p.received);
        assert(q.content_set =~= q.manifest_digest + digests_of(q.received));
        assert forall|i: int| 0 <= i < q.position implies (#[trigger] q.received[i]).len()
            == q.files[i].byte_len by {
            if i < p.position {
                assert(q.received[i] == p.received[i]);
            }
        }
    }
}

/// Files are taken as complete only where the origin's completion names their
/// number, all of their bytes, and the digest over the manifest and over every
/// file that arrived.
pub proof fn lemma_completion_vouches_for_files(p: PayloadView, event: PayloadEvent)
    requires
        p.wf(),
        p.accounted(),
        p.step is ReadComplete,
        p.next(event).step is SyncStaging,
    ensures
        event matches PayloadEvent::Message(Ok(PayloadMessage::Complete(complete))) && {
            &&& complete.request_id == p.request_id
            &&& complete.files_sent == p.files.len()
            &&& complete.bytes_sent == staged_bytes(p.files, p.files.len() as int)
            &&& complete.content_set_sha256@ == sha256(
                p.manifest_digest + digests_of(p.received),
            )
            &&& p.received.len() == p.files.len()
        },
{
}

/// A text is taken as complete only where both digests of the origin are the
/// digest of the bytes that arrived, and these are its UTF-8 form.
pub proof fn lemma_text_is_verified(
    p: PayloadView,
    first: PayloadEvent,
    second: PayloadEvent,
    third: PayloadEvent,
)
    requires
        p.step is ReadText,
        p.takes(first),
        p.next(first).next(second).next(third).step == PayloadStep::<
            Seq<char>,
            Seq<u8>,
        >::Finished(Ok(())),
    ensures
        first matches PayloadEvent::Content(Ok(bytes)) && {
            &&& bytes@.len() == p.counts.total_bytes
            &&& second matches PayloadEvent::Message(Ok(PayloadMessage::TextEnd(end)))
                && end.sha256@ == sha256(bytes@)
            &&& third matches PayloadEvent::Message(Ok(PayloadMessage::Complete(complete))) && {
                &&& complete.content_set_sha256@ == sha256(bytes@)
                &&& complete.bytes_sent == bytes@.len()
                &&& complete.files_sent == 0
            }
            &&& p.next(first).next(second).next(third).text matches Some(text)
                && encode_utf8(text) == bytes@
        },
{
    let q = p.next(first).next(second).next(third);
    if let PayloadEvent::Content(Ok(bytes)) = first {
        vstd::utf8::decode_utf8_encode_utf8(bytes@);
    }
}

/// A receiver after some events.
pub open spec fn payload_run(p: PayloadView, events: Seq<PayloadEvent>) -> PayloadView
    decreases events.len(),
{
    if events.len() == 0 {
        p
    } else {
        payload_run(p, events.drop_last()).next(events.last())
    }
}

/// What was written of the file that started last: the bytes of each write that
/// succeeded, in order.
pub open spec fn on_disk(p: PayloadView, events: Seq<PayloadEvent>) -> Seq<u8>
    decreases events.len(),
{
    if events.len() == 0 {
        Seq::empty()
    } else {
        let before = payload_run(p, events.drop_last());
        match (before.step, events.last()) {
            (PayloadStep::ReadFileStart, PayloadEvent::Message(_)) => Seq::empty(),
            (PayloadStep::WriteChunk(bytes), PayloadEvent::Local(Ok(_))) => on_disk(
                p,
                events.drop_last(),
            ) + bytes,
            _ => on_disk(p, events.drop_last()),
        }
    }
}

/// What is written of a file is what is hashed of it, byte for byte and in order,
/// whatever the events: the digest that the origin must confirm is that of the
/// bytes on disk.
pub proof fn lemma_what_is_hashed_is_written(p: PayloadView, events: Seq<PayloadEvent>)
    requires
        p.step is ReadText || p.step is ReadFileStart || p.step is ReadComplete,
    ensures
        ({
            let q = payload_run(p, events);
            let disk = on_disk(p, events);
            &&& q.step is ReadChunk || q.step is SyncFile ==> disk == q.file_content
            &&& q.step matches PayloadStep::WriteChunk(bytes) ==> disk + bytes == q.file_content
            &&& q.step is ReadFileEnd ==> disk == q.current && q.digest == sha256(disk)
        }),
    decreases events.len(),
{
    if events.len() > 0 {
        lemma_what_is_hashed_is_written(p, events.drop_last());
    }
}

/// Whether each piece of content is what was asked for.
pub open spec fn takes_all(p: PayloadView, events: Seq<PayloadEvent>) -> bool {
    forall|k: int|
        0 <= k < events.len() ==> payload_run(p, events.subrange(0, k)).takes(
            #[trigger] events[k],
        )
}

pub(crate) proof fn lemma_takes_all_before(p: PayloadView, events: Seq<PayloadEvent>)
    requires
        events.len() > 0,
        takes_all(p, events),
    ensures
        takes_all(p, events.drop_last()),
        payload_run(p, events.drop_last()).takes(events.last()),
{
    let before = events.drop_last();
    let n = events.len() - 1;
    assert forall|k: int| 0 <= k < before.len() implies payload_run(
        p,
        before.subrange(0, k),
    ).takes(#[trigger] before[k]) by {
        assert(before.subrange(0, k) =~= events.subrange(0, k));
        assert(before[k] == events[k]);
    }
    assert(events.subrange(0, n) =~= before);
    assert(payload_run(p, events.subrange(0, n)).takes(events[n]));
}

/// Whether the last of some events closed a file.
pub open spec fn closes_file(p: PayloadView, events: Seq<PayloadEvent>) -> bool {
    &&& events.len() > 0
    &&& events.last() matches PayloadEvent::Message(Ok(PayloadMessage::FileEnd(_)))
    &&& payload_run(p, events.drop_last()).step is ReadFileEnd
    &&& !(payload_run(p, events).step matches PayloadStep::Finished(Err(_)))
}

/// The messages that closed a file, in order.
pub open spec fn closings(p: PayloadView, events: Seq<PayloadEvent>) -> Seq<FileEnd>
    decreases events.len(),
{
    if events.len() == 0 {
        Seq::empty()
    } else {
        let before = closings(p, events.drop_last());
        match events.last() {
            PayloadEvent::Message(Ok(PayloadMessage::FileEnd(end))) if closes_file(p, events) =>
                before.push(end),
            _ => before,
        }
    }
}

/// What was on disk of each file when it was closed, in order.
pub open spec fn closed_files(p: PayloadView, events: Seq<PayloadEvent>) -> Seq<Seq<u8>>
    decreases events.len(),
{
    if events.len() == 0 {
        Seq::empty()
    } else {
        let before = closed_files(p, events.drop_last());
        if closes_file(p, events) {
            before.push(on_disk(p, events.drop_last()))
        } else {
            before
        }
    }
}

/// Whether a message closes this file of the request, with the digest of this content.
pub open spec fn vouches(
    end: FileEnd,
    request_id: ActivationId,
    file: StagedFile,
    content: Seq<u8>,
) -> bool {
    &&& end.request_id == request_id
    &&& end.entry_index == file.entry_index
    &&& end.sha256@ == sha256(content)
}

/// A receiver that has received nothing.
pub open spec fn begins(p: PayloadView) -> bool {
    &&& p.wf()
    &&& p.position == 0
    &&& p.received == Seq::<Seq<u8>>::empty()
    &&& p.step is ReadText || p.step == p.after_files()
}

/// Every file that was received is what was on disk when it was closed, and its digest
/// is that of the message that closed it, whatever the events.
pub proof fn lemma_received_files_are_vouched_for(p: PayloadView, events: Seq<PayloadEvent>)
    requires
        begins(p),
        takes_all(p, events),
    ensures
        ({
            let q = payload_run(p, events);
            &&& q.wf()
            &&& q.request_id == p.request_id
            &&& q.files == p.files
            &&& q.received.len() == q.position
            &&& q.received == closed_files(p, events)
            &&& closings(p, events).len() == q.received.len()
            &&& forall|i: int|
                0 <= i < q.received.len() ==> vouches(
                    #[trigger] closings(p, events)[i],
                    p.request_id,
                    p.files[i],
                    q.received[i],
                )
        }),
    decreases events.len(),
{
    if events.len() > 0 {
        let before = events.drop_last();
        lemma_takes_all_before(p, events);
        lemma_received_files_are_vouched_for(p, before);
        lemma_what_is_hashed_is_written(p, before);
        let g = payload_run(p, before);
        let q = payload_run(p, events);
        lemma_payload_step(g, events.last());
        let ends = closings(p, events);
        assert forall|i: int| 0 <= i < q.received.len() implies vouches(
            #[trigger] ends[i],
            p.request_id,
            p.files[i],
            q.received[i],
        ) by {
            if i < g.received.len() {
                assert(ends[i] == closings(p, before)[i]);
                assert(q.received[i] == g.received[i]);
            }
        }
    } else {
        assert(closed_files(p, events) =~= p.received);
    }
}

proof fn lemma_payload_step(g: PayloadView, event: PayloadEvent)
    requires
        g.wf(),
        g.takes(event),
    ensures
        ({
            let q = g.next(event);
            let closed = event matches PayloadEvent::Message(Ok(PayloadMessage::FileEnd(_)))
                && g.step is ReadFileEnd && !(q.step matches PayloadStep::Finished(Err(_)));
            &&& q.wf()
            &&& q.request_id == g.request_id
            &&& q.files == g.files
            &&& q.position == g.position + if closed {
                1int
            } else {
                0int
            }
            &&& q.received == if closed {
                g.received.push(g.current)
            } else {
                g.received
            }
            &&& closed ==> (event matches PayloadEvent::Message(Ok(PayloadMessage::FileEnd(end)))
                && vouches(end, g.request_id, g.files[g.position], g.current) || g.digest
                != sha256(g.current))
        }),
{
}

/// A content of files that was received to its end holds every file of the manifest,
/// whole: each has the length that the manifest names, and the digest that the message
/// which closed it names.
pub proof fn lemma_a_finished_content_is_whole(p: PayloadView, events: Seq<PayloadEvent>)
    requires
        begins(p),
        p.accounted(),
        !(p.counts.content_kind is Text),
        staged_bytes(p.files, p.files.len() as int) <= u64::MAX,
        takes_all(p, events),
        payload_run(p, events).step == PayloadStep::<Seq<char>, Seq<u8>>::Finished(Ok(())),
    ensures
        ({
            let q = payload_run(p, events);
            &&& q.received.len() == p.files.len()
            &&& q.received == closed_files(p, events)
            &&& q.bytes_received == staged_bytes(p.files, p.files.len() as int)
            &&& forall|i: int|
                0 <= i < p.files.len() ==> {
                    &&& (#[trigger] q.received[i]).len() == p.files[i].byte_len
                    &&& vouches(closings(p, events)[i], p.request_id, p.files[i], q.received[i])
                }
        }),
{
    lemma_received_files_are_vouched_for(p, events);
    lemma_run_stays_accounted(p, events);
    let q = payload_run(p, events);
    assert forall|i: int| 0 <= i < p.files.len() implies (#[trigger] q.received[i]).len()
        == p.files[i].byte_len && vouches(
        closings(p, events)[i],
        p.request_id,
        p.files[i],
        q.received[i],
    ) by {
        let end = closings(p, events)[i];
    }
}

proof fn lemma_run_stays_accounted(p: PayloadView, events: Seq<PayloadEvent>)
    requires
        begins(p),
        p.accounted(),
        staged_bytes(p.files, p.files.len() as int) <= u64::MAX,
        takes_all(p, events),
    ensures
        payload_run(p, events).accounted(),
        payload_run(p, events).counts == p.counts,
    decreases events.len(),
{
    if events.len() > 0 {
        let before = events.drop_last();
        lemma_takes_all_before(p, events);
        lemma_run_stays_accounted(p, before);
        lemma_received_files_are_vouched_for(p, before);
        lemma_content_stays_accounted(payload_run(p, before), events.last());
        lemma_counts_stay(payload_run(p, before), events.last());
    }
}

proof fn lemma_counts_stay(g: PayloadView, event: PayloadEvent)
    ensures
        g.next(event).counts == g.counts,
{
}

} // verus!
