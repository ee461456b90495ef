//! Sending one plan from its header to the receipt.
use vstd::prelude::*;
use vstd::utf8::encode_utf8;

use crate::digest::{absorb, absorbed, finish, new_hasher, sha256, sha256_of};
use crate::ids::{ActivationId, OfferId};
use crate::net_error::NetError;
use crate::payload::least;
use crate::send::FetchRequest;
use crate::source_plan::{plan_result, same_plan, PlanView, SourceFailure, SourcePlan};
use crate::stream::{file_outcome_view, FileOutcome};
use crate::text::byte_len;
use crate::wire::{FetchAbort, FetchAbortCode, FetchAdmissionCode, FetchComplete, TextEnd};

verus! {

/// What to do next; `S` is the type of the texts.
#[derive(Debug)]
pub enum TransferStep<S = String> {
    WriteHeader,
    /// Send the chunk of the manifest with this number.
    WriteChunk(usize),
    WriteManifestEnd,
    ReadAdmission,
    /// Rebuild the plan before any content is sent.
    RecheckBefore,
    /// Send the text from this byte on.
    WriteText(usize),
    WriteTextEnd,
    WriteTextComplete,
    /// Send the file with this number.
    SendFile(usize),
    /// Rebuild the plan after all content is sent.
    RecheckAfter,
    WriteComplete,
    WriteAbort(FetchAbortCode),
    ReadReceipt,
    Finished(Result<(), NetError<S>>),
}

/// A message that the receiver answers a header with.
#[derive(Debug, Clone, Copy, PartialEq, Eq, Structural)]
pub enum AdmissionFrame {
    Admission { request_id: ActivationId, code: FetchAdmissionCode },
    Other,
}

/// A message that the receiver answers a completion with.
#[derive(Debug, Clone, Copy, PartialEq, Eq, Structural)]
pub enum ReceiptFrame {
    Receipt { request_id: ActivationId, offer_id: OfferId },
    Other,
}

/// The outcome of a step.
#[derive(Debug)]
pub enum TransferEvent {
    Wrote(Result<(), NetError>),
    AdmissionRead(Result<AdmissionFrame, NetError>),
    Rechecked(Result<SourcePlan, SourceFailure>),
    FileSent(FileOutcome),
    ReceiptRead(Result<ReceiptFrame, NetError>),
}

/// One plan that is being sent.
pub struct Transfer {
    pub request: FetchRequest,
    pub plan: SourcePlan,
    pub chunk_count: usize,
    pub buffer_bytes: usize,
    pub files_sent: u32,
    pub bytes_sent: u64,
    pub content_set: sha2::Sha256,
    pub step: TransferStep,
}

/// One plan that is being sent, as a value.
pub ghost struct TransferView {
    pub request: FetchRequest,
    pub plan: PlanView,
    pub chunk_count: usize,
    pub buffer_bytes: usize,
    pub files_sent: u32,
    pub bytes_sent: u64,
    /// The manifest digest and the digests of the files that were sent.
    pub content_set: Seq<u8>,
    pub step: TransferStep<Seq<char>>,
}

pub open spec fn transfer_step_view(step: TransferStep) -> TransferStep<Seq<char>> {
    match step {
        TransferStep::WriteHeader => TransferStep::WriteHeader,
        TransferStep::WriteChunk(i) => TransferStep::WriteChunk(i),
        TransferStep::WriteManifestEnd => TransferStep::WriteManifestEnd,
        TransferStep::ReadAdmission => TransferStep::ReadAdmission,
        TransferStep::RecheckBefore => TransferStep::RecheckBefore,
        TransferStep::WriteText(i) => TransferStep::WriteText(i),
        TransferStep::WriteTextEnd => TransferStep::WriteTextEnd,
        TransferStep::WriteTextComplete => TransferStep::WriteTextComplete,
        TransferStep::SendFile(i) => TransferStep::SendFile(i),
        TransferStep::RecheckAfter => TransferStep::RecheckAfter,
        TransferStep::WriteComplete => TransferStep::WriteComplete,
        TransferStep::WriteAbort(code) => TransferStep::WriteAbort(code),
        TransferStep::ReadReceipt => TransferStep::ReadReceipt,
        TransferStep::Finished(Ok(())) => TransferStep::Finished(Ok(())),
        TransferStep::Finished(Err(error)) => TransferStep::Finished(Err(error@)),
    }
}

impl View for Transfer {
    type V = TransferView;

    open spec fn view(&self) -> TransferView {
        TransferView {
            request: self.request,
            plan: self.plan@,
            chunk_count: self.chunk_count,
            buffer_bytes: self.buffer_bytes,
            files_sent: self.files_sent,
            bytes_sent: self.bytes_sent,
            content_set: absorbed(self.content_set),
            step: transfer_step_view(self.step),
        }
    }
}

/// The bytes of a plan's text.
pub open spec fn text_bytes(plan: PlanView) -> Seq<u8> {
    match plan.text {
        Some(text) => encode_utf8(text),
        None => Seq::empty(),
    }
}

/// The abort for a source that cannot be sent any more.
pub open spec fn abort_code(failure: SourceFailure) -> FetchAbortCode {
    match failure {
        SourceFailure::Unavailable => FetchAbortCode::SourceUnavailable,
        SourceFailure::Changed => FetchAbortCode::SourceChanged,
        SourceFailure::Malformed => FetchAbortCode::InternalError,
    }
}

impl TransferView {
    pub open spec fn at(self, step: TransferStep<Seq<char>>) -> TransferView {
        TransferView { step, ..self }
    }

    pub open spec fn fail(self, error: NetError<Seq<char>>) -> TransferView {
        self.at(TransferStep::Finished(Err(error)))
    }

    pub open spec fn done(self) -> TransferView {
        self.at(TransferStep::Finished(Ok(())))
    }

    pub open spec fn abort(self, code: FetchAbortCode) -> TransferView {
        self.at(TransferStep::WriteAbort(code))
    }

    /// The step behind the manifest chunk before number `index`.
    pub open spec fn chunk_or_end(self, index: int) -> TransferView {
        if index < self.chunk_count {
            self.at(TransferStep::WriteChunk(index as usize))
        } else if self.plan.manifest.len() > 0 {
            self.at(TransferStep::WriteManifestEnd)
        } else {
            self.at(TransferStep::ReadAdmission)
        }
    }

    /// The step behind the first `from` bytes of the text.
    pub open spec fn text_or_end(self, from: int) -> TransferView {
        if from < text_bytes(self.plan).len() {
            self.at(TransferStep::WriteText(from as usize))
        } else {
            self.at(TransferStep::WriteTextEnd)
        }
    }

    /// The step behind the files before number `index`.
    pub open spec fn file_or_recheck(self, index: int) -> TransferView {
        if index < self.plan.files.len() {
            self.at(TransferStep::SendFile(index as usize))
        } else {
            self.at(TransferStep::RecheckAfter)
        }
    }

    /// The bytes of the text that are written now.
    pub open spec fn text_piece(self) -> Seq<u8> {
        match self.step {
            TransferStep::WriteText(from) => {
                let bytes = text_bytes(self.plan);
                bytes.subrange(
                    from as int,
                    from + least(self.buffer_bytes as int, bytes.len() - from),
                )
            },
            _ => Seq::empty(),
        }
    }

    /// What a written message does.
    pub open spec fn wrote(self, result: Result<(), NetError>) -> TransferView {
        match (self.step, result) {
            (TransferStep::ReadAdmission, _)
            | (TransferStep::RecheckBefore, _)
            | (TransferStep::SendFile(_), _)
            | (TransferStep::RecheckAfter, _)
            | (TransferStep::ReadReceipt, _)
            | (TransferStep::Finished(_), _) => self,
            (_, Err(error)) => self.fail(error@),
            (TransferStep::WriteHeader, Ok(())) => self.chunk_or_end(0),
            (TransferStep::WriteChunk(index), Ok(())) => self.chunk_or_end(index + 1),
            (TransferStep::WriteManifestEnd, Ok(())) => self.at(TransferStep::ReadAdmission),
            (TransferStep::WriteText(from), Ok(())) => self.text_or_end(
                from + least(self.buffer_bytes as int, text_bytes(self.plan).len() - from),
            ),
            (TransferStep::WriteTextEnd, Ok(())) => self.at(TransferStep::WriteTextComplete),
            (TransferStep::WriteTextComplete, Ok(())) | (TransferStep::WriteComplete, Ok(())) =>
                self.at(TransferStep::ReadReceipt),
            (TransferStep::WriteAbort(_), Ok(())) => self.done(),
        }
    }

    /// What the answer to the header does: a plan that is not admitted is over.
    pub open spec fn admission(self, result: Result<AdmissionFrame, NetError>) -> TransferView {
        if !(self.step is ReadAdmission) {
            self
        } else {
            match result {
                Err(error) => self.fail(error@),
                Ok(AdmissionFrame::Other) => self.fail(
                    NetError::UnexpectedMessage("expected fetch_admission"@),
                ),
                Ok(AdmissionFrame::Admission { request_id, code }) => if request_id
                    != self.request.request_id {
                    self.fail(
                        NetError::IdentityMismatch("fetch admission request ID does not match"@),
                    )
                } else if !(code is Accepted) {
                    self.done()
                } else if self.plan.text is Some {
                    self.text_or_end(0)
                } else {
                    self.at(TransferStep::RecheckBefore)
                },
            }
        }
    }

    /// What a rebuilt plan does.
    pub open spec fn rechecked(self, result: Result<PlanView, SourceFailure>) -> TransferView {
        if !(self.step is RecheckBefore || self.step is RecheckAfter) {
            self
        } else {
            match result {
                Ok(current) => if !same_plan(current, self.plan) {
                    self.abort(FetchAbortCode::SourceChanged)
                } else if self.step is RecheckBefore {
                    self.file_or_recheck(0)
                } else {
                    self.at(TransferStep::WriteComplete)
                },
                Err(failure) => self.abort(abort_code(failure)),
            }
        }
    }

    /// One more file was sent.
    pub open spec fn counted(self, index: int, digest: Seq<u8>) -> TransferView {
        TransferView {
            content_set: self.content_set + digest,
            files_sent: least(self.files_sent + 1, u32::MAX as int) as u32,
            bytes_sent: least(
                self.bytes_sent + self.plan.files[index].byte_len,
                u64::MAX as int,
            ) as u64,
            ..self
        }
    }

    /// What the end of a file does.
    pub open spec fn file_sent(self, outcome: FileOutcome<Seq<char>, Seq<u8>>) -> TransferView {
        match self.step {
            TransferStep::SendFile(index) => match outcome {
                FileOutcome::Sent(digest) => self.counted(index as int, digest).file_or_recheck(
                    index + 1,
                ),
                FileOutcome::MidStream => self.done(),
                FileOutcome::Unavailable => self.abort(FetchAbortCode::SourceUnavailable),
                FileOutcome::Changed => self.abort(FetchAbortCode::SourceChanged),
                FileOutcome::AfterFileUnavailable(digest) => self.counted(
                    index as int,
                    digest,
                ).abort(FetchAbortCode::SourceUnavailable),
                FileOutcome::AfterFileChanged(digest) => self.counted(index as int, digest).abort(
                    FetchAbortCode::SourceChanged,
                ),
                FileOutcome::Io(error) => self.fail(error),
            },
            _ => self,
        }
    }

    /// What the receipt does.
    pub open spec fn receipt(self, result: Result<ReceiptFrame, NetError>) -> TransferView {
        if !(self.step is ReadReceipt) {
            self
        } else {
            match result {
                Err(error) => self.fail(error@),
                Ok(ReceiptFrame::Other) => self.fail(
                    NetError::UnexpectedMessage("expected fetch_receipt"@),
                ),
                Ok(ReceiptFrame::Receipt { request_id, offer_id }) => if request_id
                    != self.request.request_id || offer_id != self.request.offer_id {
                    self.fail(
                        NetError::IdentityMismatch("fetch receipt does not match the request"@),
                    )
                } else {
                    self.done()
                },
            }
        }
    }

    /// What an event does; one that does not answer the current step changes nothing.
    pub open spec fn next(self, event: TransferEvent) -> TransferView {
        match event {
            TransferEvent::Wrote(result) => self.wrote(result),
            TransferEvent::AdmissionRead(result) => self.admission(result),
            TransferEvent::Rechecked(result) => self.rechecked(plan_result(result)),
            TransferEvent::FileSent(outcome) => self.file_sent(file_outcome_view(outcome)),
            TransferEvent::ReceiptRead(result) => self.receipt(result),
        }
    }

    /// What holds between any two steps.
    pub open spec fn wf(self) -> bool {
        &&& self.buffer_bytes > 0
        &&& self.step matches TransferStep::WriteChunk(index) ==> index < self.chunk_count
        &&& self.step matches TransferStep::WriteText(from) ==> from < text_bytes(self.plan).len()
        &&& self.step matches TransferStep::SendFile(index) ==> {
            &&& index < self.plan.files.len()
            &&& self.files_sent == least(index as int, u32::MAX as int)
        }
        &&& self.nothing_sent() ==> self.files_sent == 0 && self.bytes_sent == 0
    }

    /// Whether the current step stands before the end of the first file.
    pub open spec fn nothing_sent(self) -> bool {
        match self.step {
            TransferStep::WriteHeader
            | TransferStep::WriteChunk(_)
            | TransferStep::WriteManifestEnd
            | TransferStep::ReadAdmission
            | TransferStep::RecheckBefore
            | TransferStep::WriteText(_)
            | TransferStep::WriteTextEnd
            | TransferStep::WriteTextComplete => true,
            TransferStep::SendFile(index) => index == 0,
            _ => false,
        }
    }
}

impl Transfer {
    /// Starts to send a plan whose manifest takes `chunk_count` chunks, with a
    /// buffer of `buffer_bytes` bytes.
    pub fn new(
        request: FetchRequest,
        plan: SourcePlan,
        chunk_count: usize,
        buffer_bytes: usize,
    ) -> (r: Self)
        requires
            buffer_bytes > 0,
        ensures
            r@ == (TransferView {
                request,
                plan: plan@,
                chunk_count,
                buffer_bytes,
                files_sent: 0,
                bytes_sent: 0,
                content_set: match plan@.manifest_sha256 {
                    Some(digest) => digest,
                    None => Seq::empty(),
                },
                step: TransferStep::WriteHeader,
            }),
            r@.wf(),
    {
        let mut content_set = new_hasher();
        if let Some(digest) = &plan.manifest_sha256 {
            absorb(&mut content_set, digest.as_slice());
            assert(Seq::<u8>::empty() + digest@ =~= digest@);
        }
        Transfer {
            request,
            plan,
            chunk_count,
            buffer_bytes,
            files_sent: 0,
            bytes_sent: 0,
            content_set,
            step: TransferStep::WriteHeader,
        }
    }

    fn at(self, step: TransferStep) -> (r: Self)
        ensures
            r@ == self@.at(transfer_step_view(step)),
    {
        let mut this = self;
        this.step = step;
        this
    }

    fn fail(self, error: NetError) -> (r: Self)
        ensures
            r@ == self@.fail(error@),
    {
        self.at(TransferStep::Finished(Err(error)))
    }

    fn done(self) -> (r: Self)
        ensures
            r@ == self@.done(),
    {
        self.at(TransferStep::Finished(Ok(())))
    }

    fn abort(self, code: FetchAbortCode) -> (r: Self)
        ensures
            r@ == self@.abort(code),
    {
        self.at(TransferStep::WriteAbort(code))
    }

    fn chunk_or_end(self, index: usize) -> (r: Self)
        ensures
            r@ == self@.chunk_or_end(index as int),
    {
        if index < self.chunk_count {
            self.at(TransferStep::WriteChunk(index))
        } else if self.plan.manifest.len() > 0 {
            self.at(TransferStep::WriteManifestEnd)
        } else {
            self.at(TransferStep::ReadAdmission)
        }
    }

    fn text_len(&self) -> (r: usize)
        ensures
            r == text_bytes(self@.plan).len(),
    {
        match &self.plan.text {
            Some(text) => crate::text::byte_length(text.as_str()),
            None => 0,
        }
    }

    fn text_or_end(self, from: usize) -> (r: Self)
        ensures
            r@ == self@.text_or_end(from as int),
    {
        let length: usize = self.text_len();
        if from < length {
            self.at(TransferStep::WriteText(from))
        } else {
            self.at(TransferStep::WriteTextEnd)
        }
    }

    fn file_or_recheck(self, index: usize) -> (r: Self)
        ensures
            r@ == self@.file_or_recheck(index as int),
    {
        if index < self.plan.files.len() {
            self.at(TransferStep::SendFile(index))
        } else {
            self.at(TransferStep::RecheckAfter)
        }
    }

    fn on_wrote(self, result: Result<(), NetError>) -> (r: Self)
        requires
            self@.wf(),
        ensures
            r@ == self@.wrote(result),
            r@.wf(),
    {
        match &self.step {
            TransferStep::ReadAdmission
            | TransferStep::RecheckBefore
            | TransferStep::SendFile(_)
            | TransferStep::RecheckAfter
            | TransferStep::ReadReceipt
            | TransferStep::Finished(_) => {
                return self;
            },
            _ => {},
        }
        if let Err(error) = result {
            return self.fail(error);
        }
        match self.step {
            TransferStep::WriteHeader => self.chunk_or_end(0),
            TransferStep::WriteChunk(index) => self.chunk_or_end(index + 1),
            TransferStep::WriteManifestEnd => self.at(TransferStep::ReadAdmission),
            TransferStep::WriteText(from) => {
                let length: usize = self.text_len();
                let rest: usize = length - from;
                let next: usize = if self.buffer_bytes < rest {
                    from + self.buffer_bytes
                } else {
                    length
                };
                self.text_or_end(next)
            },
            TransferStep::WriteTextEnd => self.at(TransferStep::WriteTextComplete),
            TransferStep::WriteTextComplete | TransferStep::WriteComplete => self.at(
                TransferStep::ReadReceipt,
            ),
            _ => self.done(),
        }
    }

    fn on_admission(self, result: Result<AdmissionFrame, NetError>) -> (r: Self)
        ensures
            r@ == self@.admission(result),
    {
        if !matches!(self.step, TransferStep::ReadAdmission) {
            return self;
        }
        match result {
            Err(error) => self.fail(error),
            Ok(AdmissionFrame::Other) => self.fail(
                NetError::UnexpectedMessage("expected fetch_admission".to_owned()),
            ),
            Ok(AdmissionFrame::Admission { request_id, code }) => {
                if request_id != self.request.request_id {
                    self.fail(
                        NetError::IdentityMismatch(
                            "fetch admission request ID does not match".to_owned(),
                        ),
                    )
                } else if !matches!(code, FetchAdmissionCode::Accepted) {
                    self.done()
                } else if self.plan.text.is_some() {
                    self.text_or_end(0)
                } else {
                    self.at(TransferStep::RecheckBefore)
                }
            },
        }
    }

    fn on_rechecked(self, result: Result<SourcePlan, SourceFailure>) -> (r: Self)
        ensures
            r@ == self@.rechecked(plan_result(result)),
    {
        let before = matches!(self.step, TransferStep::RecheckBefore);
        if !before && !matches!(self.step, TransferStep::RecheckAfter) {
            return self;
        }
        match result {
            Ok(current) => {
                if !current.same_source(&self.plan) {
                    self.abort(FetchAbortCode::SourceChanged)
                } else if before {
                    self.file_or_recheck(0)
                } else {
                    self.at(TransferStep::WriteComplete)
                }
            },
            Err(SourceFailure::Unavailable) => self.abort(FetchAbortCode::SourceUnavailable),
            Err(SourceFailure::Changed) => self.abort(FetchAbortCode::SourceChanged),
            Err(SourceFailure::Malformed) => self.abort(FetchAbortCode::InternalError),
        }
    }

    fn counted(self, index: usize, digest: &Vec<u8>) -> (r: Self)
        requires
            index < self.plan.files@.len(),
        ensures
            r@ == self@.counted(index as int, digest@),
    {
        let mut this = self;
        absorb(&mut this.content_set, digest.as_slice());
        this.files_sent = this.files_sent.saturating_add(1);
        this.bytes_sent = this.bytes_sent.saturating_add(this.plan.files[index].byte_len);
        this
    }

    fn on_file_sent(self, outcome: FileOutcome) -> (r: Self)
        requires
            self@.wf(),
        ensures
            r@ == self@.file_sent(file_outcome_view(outcome)),
            r@.wf(),
    {
        let index: usize = match self.step {
            TransferStep::SendFile(index) => index,
            _ => {
                return self;
            },
        };
        let planned: usize = self.plan.files.len();
        assert(index < planned);
        match outcome {
            FileOutcome::Sent(digest) => self.counted(index, &digest).file_or_recheck(index + 1),
            FileOutcome::MidStream => self.done(),
            FileOutcome::Unavailable => self.abort(FetchAbortCode::SourceUnavailable),
            FileOutcome::Changed => self.abort(FetchAbortCode::SourceChanged),
            FileOutcome::AfterFileUnavailable(digest) => self.counted(index, &digest).abort(
                FetchAbortCode::SourceUnavailable,
            ),
            FileOutcome::AfterFileChanged(digest) => self.counted(index, &digest).abort(
                FetchAbortCode::SourceChanged,
            ),
            FileOutcome::Io(error) => self.fail(error),
        }
    }

    fn on_receipt(self, result: Result<ReceiptFrame, NetError>) -> (r: Self)
        ensures
            r@ == self@.receipt(result),
    {
        if !matches!(self.step, TransferStep::ReadReceipt) {
            return self;
        }
        match result {
            Err(error) => self.fail(error),
            Ok(ReceiptFrame::Other) => self.fail(
                NetError::UnexpectedMessage("expected fetch_receipt".to_owned()),
            ),
            Ok(ReceiptFrame::Receipt { request_id, offer_id }) => {
                if request_id != self.request.request_id || offer_id != self.request.offer_id {
                    self.fail(
                        NetError::IdentityMismatch(
                            "fetch receipt does not match the request".to_owned(),
                        ),
                    )
                } else {
                    self.done()
                }
            },
        }
    }

    /// Takes the outcome of the current step.
    pub fn send_plan(self, event: TransferEvent) -> (r: Self)
        requires
            self@.wf(),
        ensures
            r@ == self@.next(event),
            r@.wf(),
    {
        match event {
            TransferEvent::Wrote(result) => self.on_wrote(result),
            TransferEvent::AdmissionRead(result) => self.on_admission(result),
            TransferEvent::Rechecked(result) => self.on_rechecked(result),
            TransferEvent::FileSent(outcome) => self.on_file_sent(outcome),
            TransferEvent::ReceiptRead(result) => self.on_receipt(result),
        }
    }

    /// The bytes of the text to write now.
    #[must_use]
    pub fn text_piece(&self) -> (r: Vec<u8>)
        requires
            self@.wf(),
        ensures
            r@ == self@.text_piece(),
    {
        let mut r: Vec<u8> = Vec::new();
        if let TransferStep::WriteText(from) = &self.step {
            if let Some(text) = &self.plan.text {
                let bytes = text.as_str().as_bytes();
                let rest: usize = bytes.len() - *from;
                let end: usize = if self.buffer_bytes < rest {
                    *from + self.buffer_bytes
                } else {
                    bytes.len()
                };
                let mut i: usize = *from;
                while i < end
                    invariant
                        *from <= i <= end <= bytes@.len(),
                        r@ =~= bytes@.subrange(*from as int, i as int),
                    decreases end - i,
                {
                    r.push(bytes[i]);
                    i += 1;
                }
            }
        }
        assert(r@ =~= self@.text_piece());
        r
    }

    /// The message that closes a text.
    #[must_use]
    pub fn text_end(&self) -> (r: TextEnd)
        ensures
            r.request_id == self.request.request_id,
            r.sha256@ == sha256(text_bytes(self@.plan)),
    {
        let sha256 = match &self.plan.text {
            Some(text) => sha256_of(text.as_str().as_bytes()),
            None => {
                let empty: Vec<u8> = Vec::new();
                assert(empty@ =~= text_bytes(self@.plan));
                sha256_of(empty.as_slice())
            },
        };
        TextEnd { request_id: self.request.request_id, sha256 }
    }

    /// The message that completes a text.
    #[must_use]
    pub fn text_complete(&self) -> (r: FetchComplete)
        ensures
            r.request_id == self.request.request_id,
            r.files_sent == 0,
            r.bytes_sent == text_bytes(self@.plan).len(),
            r.content_set_sha256@ == sha256(text_bytes(self@.plan)),
    {
        let end = self.text_end();
        FetchComplete {
            request_id: self.request.request_id,
            files_sent: 0,
            bytes_sent: self.text_len() as u64,
            content_set_sha256: end.sha256,
        }
    }

    /// The message that completes files.
    #[must_use]
    pub fn complete(self) -> (r: (Self, FetchComplete))
        ensures
            r.1.request_id == self.request.request_id,
            r.1.files_sent == self.files_sent,
            r.1.bytes_sent == self.bytes_sent,
            r.1.content_set_sha256@ == sha256(self@.content_set),
            r.0@ == (TransferView { content_set: Seq::empty(), ..self@ }),
    {
        let mut this = self;
        let mut content_set = new_hasher();
        std::mem::swap(&mut content_set, &mut this.content_set);
        let message = FetchComplete {
            request_id: this.request.request_id,
            files_sent: this.files_sent,
            bytes_sent: this.bytes_sent,
            content_set_sha256: finish(content_set),
        };
        (this, message)
    }

    /// The message that breaks the content off.
    #[must_use]
    pub fn send_abort(&self, code: FetchAbortCode) -> (r: FetchAbort)
        ensures
            r == (FetchAbort {
                request_id: self.request.request_id,
                code,
                files_sent: self.files_sent,
                bytes_sent: self.bytes_sent,
            }),
    {
        FetchAbort {
            request_id: self.request.request_id,
            code,
            files_sent: self.files_sent,
            bytes_sent: self.bytes_sent,
        }
    }
}

/// Content is sent only after the receiver accepted this very request.
pub proof fn lemma_content_needs_admission(m: TransferView, event: TransferEvent)
    requires
        m.step is WriteHeader || m.step is WriteChunk || m.step is WriteManifestEnd
            || m.step is ReadAdmission,
    ensures
        m.next(event).step is WriteText || m.next(event).step is WriteTextEnd
            || m.next(event).step is RecheckBefore ==> event == TransferEvent::AdmissionRead(
            Ok(
                AdmissionFrame::Admission {
                    request_id: m.request.request_id,
                    code: FetchAdmissionCode::Accepted,
                },
            ),
        ),
        !(m.next(event).step is SendFile),
{
}

/// A transfer that sent its completion succeeds only on a receipt for this request
/// and this offer.
pub proof fn lemma_receipt_closes_the_transfer(m: TransferView, event: TransferEvent)
    requires
        m.step is ReadReceipt,
    ensures
        m.next(event).step == TransferStep::<Seq<char>>::Finished(Ok(())) ==> event
            == TransferEvent::ReceiptRead(
            Ok(
                ReceiptFrame::Receipt {
                    request_id: m.request.request_id,
                    offer_id: m.request.offer_id,
                },
            ),
        ),
{
}

/// A text never ends in an abort: it is stored with its offer and cannot change.
pub proof fn lemma_text_is_never_aborted(m: TransferView, event: TransferEvent)
    requires
        m.wf(),
        m.plan.text is Some,
        !(m.step is WriteAbort || m.step is RecheckBefore || m.step is SendFile
            || m.step is RecheckAfter),
    ensures
        !(m.next(event).step is WriteAbort || m.next(event).step is RecheckBefore
            || m.next(event).step is SendFile || m.next(event).step is RecheckAfter),
{
}

/// A completion of files is sent only if the source was the same before and after.
pub proof fn lemma_completion_needs_unchanged_source(m: TransferView, event: TransferEvent)
    requires
        !(m.step is WriteComplete),
        m.next(event).step is WriteComplete,
    ensures
        m.step is RecheckAfter,
        event matches TransferEvent::Rechecked(Ok(current)) && same_plan(current@, m.plan),
{
}

} // verus!
