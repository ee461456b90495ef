//! What is sent and received, step by step.
use vstd::prelude::*;

use crate::digest::sha256;
use crate::failure::{
    aborted, content_failure, control_failure, disconnects, ReadFault, ReceiveFailure,
};
use crate::manifest::{file_bytes, kind_count};
use crate::net_error::NetError;
use crate::payload::{
    least, staged_bytes, staged_files, PayloadEvent, PayloadMessage, PayloadStep, PayloadView,
    StagedFile,
};
use crate::source_plan::{same_plan, PlanView, SourceFailure};
use crate::stream::{FileEvent, FileOutcome, FileSendView, FileStep, Observation};
use crate::transfer::{
    abort_code, AdmissionFrame, ReceiptFrame, TransferEvent, TransferStep, TransferView,
};
use crate::wire::{EntryView, FetchAbortCode, FileEntryKind};

verus! {

/// The lesser of two numbers is one of them, and not above the other.
pub proof fn lemma_the_lesser(a: int, b: int)
    ensures
        least(a, b) <= a && least(a, b) <= b,
        least(a, b) == a || least(a, b) == b,
{
}

/// The files that are waited for are the files of the manifest, in its order, each with
/// its place and its length, and together they hold the manifest's bytes.
pub proof fn lemma_files_that_are_waited_for(entries: Seq<EntryView>)
    requires
        entries.len() <= u32::MAX,
    ensures
        staged_files(entries).len() == kind_count(entries, FileEntryKind::File),
        forall|k: int|
            0 <= k < staged_files(entries).len() ==> {
                let file = #[trigger] staged_files(entries)[k];
                &&& file.entry_index < entries.len()
                &&& entries[file.entry_index as int].kind is File
                &&& entries[file.entry_index as int].byte_len == file.byte_len
            },
        forall|j: int, k: int|
            0 <= j < k < staged_files(entries).len() ==> (#[trigger] staged_files(
                entries,
            )[j]).entry_index < (#[trigger] staged_files(entries)[k]).entry_index,
        staged_bytes(staged_files(entries), staged_files(entries).len() as int) == file_bytes(
            entries,
        ),
    decreases entries.len(),
{
    if entries.len() > 0 {
        let before = entries.drop_last();
        lemma_files_that_are_waited_for(before);
        let files = staged_files(before);
        let all = staged_files(entries);
        assert forall|k: int| 0 <= k < files.len() implies all[k] == #[trigger] files[k] by {}
        if entries.last().kind is File {
            lemma_first_bytes(files, all, files.len() as int);
        }
        assert forall|k: int| 0 <= k < all.len() implies {
            let file = #[trigger] all[k];
            &&& file.entry_index < entries.len()
            &&& entries[file.entry_index as int].kind is File
            &&& entries[file.entry_index as int].byte_len == file.byte_len
        } by {
            if k < files.len() {
                let file = files[k];
                assert(before[file.entry_index as int] == entries[file.entry_index as int]);
            }
        }
        assert forall|j: int, k: int| 0 <= j < k < all.len() implies (
        #[trigger] all[j]).entry_index < (#[trigger] all[k]).entry_index by {
            assert(all[j] == files[j]);
            if k < files.len() {
                assert(all[k] == files[k]);
            }
        }
    }
}

proof fn lemma_first_bytes(
    a: Seq<StagedFile>,
    b: Seq<StagedFile>,
    n: int,
)
    requires
        0 <= n <= a.len() <= b.len(),
        forall|k: int| 0 <= k < a.len() ==> #[trigger] a[k] == b[k],
    ensures
        staged_bytes(a, n) == staged_bytes(b, n),
    decreases n,
{
    if n > 0 {
        lemma_first_bytes(a, b, n - 1);
    }
}

/// A file is begun exactly where its opening names the request, the file that is next and
/// its length; an abort is passed on with what it says, and anything else is refused.
pub proof fn lemma_a_file_is_begun(p: PayloadView, message: PayloadMessage)
    requires
        p.wf(),
        p.step is ReadFileStart,
    ensures
        ({
            let q = p.next(PayloadEvent::Message(Ok(message)));
            let file = p.files[p.position];
            &&& q.step is Finished <==> (!(message matches PayloadMessage::FileStart(start)
                && start.request_id == p.request_id && start.entry_index == file.entry_index
                && start.byte_len == file.byte_len))
            &&& !(q.step is Finished) ==> {
                &&& q.remaining == file.byte_len
                &&& q.file_content == Seq::<u8>::empty()
                &&& file.byte_len > 0 ==> q.step is ReadChunk
                &&& file.byte_len == 0 ==> q.step is SyncFile
                &&& q.position == p.position && q.received == p.received && q.bytes_received
                    == p.bytes_received && q.content_set == p.content_set
            }
            &&& q.step is Finished ==> (q.step matches PayloadStep::Finished(Err(failure)) && (
            failure is Aborted || (failure matches ReceiveFailure::Verification { files, bytes, .. }
                && files == p.files_received && bytes == p.bytes_received)))
            &&& message matches PayloadMessage::Abort(abort) ==> (abort.request_id == p.request_id
                ==> q.step == PayloadStep::<Seq<char>, Seq<u8>>::Finished(Err(aborted(abort))))
        }),
{
}

/// A file is closed exactly where its closing names the request, the file and the digest
/// of what was written; then it counts as received, and the next one follows, or the end.
pub proof fn lemma_a_file_is_closed(p: PayloadView, message: PayloadMessage)
    requires
        p.wf(),
        p.step is ReadFileEnd,
    ensures
        ({
            let q = p.next(PayloadEvent::Message(Ok(message)));
            let file = p.files[p.position];
            &&& q.step is Finished <==> (!(message matches PayloadMessage::FileEnd(end)
                && end.request_id == p.request_id && end.entry_index == file.entry_index
                && end.sha256@ == p.digest))
            &&& !(q.step is Finished) ==> {
                &&& q.position == p.position + 1
                &&& q.files_received == p.files_received + 1
                &&& q.bytes_received == p.bytes_received
                &&& q.content_set == p.content_set + p.digest
                &&& q.received == p.received.push(p.current)
                &&& p.position + 1 < p.files.len() ==> q.step is ReadFileStart
                &&& p.position + 1 == p.files.len() ==> q.step is ReadComplete
            }
            &&& q.step is Finished ==> (q.step matches PayloadStep::Finished(Err(failure)) && (
            failure is Aborted || (failure matches ReceiveFailure::Verification { files, bytes, .. }
                && files == p.files_received && bytes == p.bytes_received)))
            &&& message matches PayloadMessage::Abort(abort) ==> (abort.request_id == p.request_id
                ==> q.step == PayloadStep::<Seq<char>, Seq<u8>>::Finished(Err(aborted(abort))))
        }),
{
}

/// A piece that came is written as it came; once it is written, it counts, and the next
/// piece is read until the file is whole.  A connection that gives nothing more is lost.
pub proof fn lemma_pieces_of_a_file(p: PayloadView, bytes: Vec<u8>, error: String)
    requires
        p.wf(),
    ensures
        p.step is ReadChunk && bytes@.len() > 0 ==> ({
            let q = p.next(PayloadEvent::Content(Ok(bytes)));
            &&& q.step == PayloadStep::<Seq<char>, Seq<u8>>::WriteChunk(bytes@)
            &&& q.file_content == p.file_content + bytes@
            &&& q.pending == bytes@.len()
            &&& q.remaining == p.remaining && q.bytes_received == p.bytes_received
        }),
        p.step is ReadChunk && bytes@.len() == 0 ==> p.next(PayloadEvent::Content(Ok(bytes))).step
            == PayloadStep::<Seq<char>, Seq<u8>>::Finished(
            Err(
                ReceiveFailure::Disconnected { files: p.files_received, bytes: p.bytes_received },
            ),
        ),
        p.step is WriteChunk && p.bytes_received + p.pending <= u64::MAX ==> ({
            let q = p.next(PayloadEvent::Local(Ok(())));
            &&& q.remaining + p.pending == p.remaining
            &&& q.bytes_received == p.bytes_received + p.pending
            &&& q.step is ReadChunk <==> p.pending < p.remaining
            &&& q.step is SyncFile <==> p.pending == p.remaining
            &&& q.file_content == p.file_content
        }),
        p.step is SyncFile ==> ({
            let q = p.next(PayloadEvent::Local(Ok(())));
            &&& q.step is ReadFileEnd
            &&& q.digest == sha256(p.file_content)
            &&& q.current == p.file_content
        }),
        p.step is WriteChunk || p.step is SyncFile || p.step is SyncStaging ==> p.next(
            PayloadEvent::Local(Err(error)),
        ).step == PayloadStep::<Seq<char>, Seq<u8>>::Finished(
            Err(
                ReceiveFailure::LocalIo {
                    files: p.files_received,
                    bytes: p.bytes_received,
                    detail: error@,
                },
            ),
        ),
{
}

/// All is received exactly where the completion names the request, and as many files and
/// bytes, with the digest, as came; then what was written is synced, and that is the end.
pub proof fn lemma_all_is_received(p: PayloadView, message: PayloadMessage)
    requires
        p.wf(),
    ensures
        p.step is ReadComplete ==> ({
            let q = p.next(PayloadEvent::Message(Ok(message)));
            &&& q.step is SyncStaging <==> (message matches PayloadMessage::Complete(complete)
                && complete.request_id == p.request_id && complete.files_sent == p.files_received
                && complete.bytes_sent == p.bytes_received && complete.content_set_sha256@
                == sha256(p.content_set))
            &&& !(q.step is SyncStaging) ==> (q.step matches PayloadStep::Finished(Err(_)))
            &&& message matches PayloadMessage::Abort(abort) ==> q.step == PayloadStep::<
                Seq<char>,
                Seq<u8>,
            >::Finished(Err(aborted(abort)))
        }),
        p.step is SyncStaging ==> p.next(PayloadEvent::Local(Ok(()))).step == PayloadStep::<
            Seq<char>,
            Seq<u8>,
        >::Finished(Ok(())),
{
    assert(p.next(PayloadEvent::Local(Ok(()))) == p.local(Ok(())));
}

/// A text is taken exactly where its closing and its completion name the request and the
/// digest of the bytes that came, no file and as many bytes as were promised, and the
/// bytes are a text.
pub proof fn lemma_a_text_is_taken(p: PayloadView, bytes: Vec<u8>, message: PayloadMessage)
    ensures
        p.step is ReadText ==> ({
            let q = p.next(PayloadEvent::Content(Ok(bytes)));
            q.step is ReadTextEnd && q.body == bytes@ && q.digest == sha256(bytes@)
        }),
        p.step is ReadTextEnd ==> ({
            let q = p.next(PayloadEvent::Message(Ok(message)));
            &&& q.step is ReadTextComplete <==> (message matches PayloadMessage::TextEnd(end)
                && end.request_id == p.request_id && end.sha256@ == p.digest)
            &&& !(q.step is ReadTextComplete) ==> (q.step matches PayloadStep::Finished(Err(_)))
        }),
        p.step is ReadTextComplete ==> ({
            let q = p.next(PayloadEvent::Message(Ok(message)));
            let failed = q.step matches PayloadStep::Finished(Err(_));
            &&& !failed ==> q.text is Some && q.step == PayloadStep::<
                Seq<char>,
                Seq<u8>,
            >::Finished(Ok(()))
            &&& failed <==> !(message
                matches PayloadMessage::Complete(complete) && complete.request_id == p.request_id
                && complete.files_sent == 0 && complete.bytes_sent == p.counts.total_bytes
                && complete.content_set_sha256@ == p.digest && vstd::utf8::valid_utf8(p.body))
        }),
{
}

/// A fault while a message is read: a cancellation here is one, a lost connection is one,
/// and anything else is reported as it is, each with what was received so far.
pub proof fn lemma_faults_while_reading(
    fault: ReadFault<Seq<char>>,
    during: Seq<char>,
    files: u32,
    bytes: u64,
)
    ensures
        control_failure(fault, files, bytes) is LocalCancelled <==> fault is Cancelled,
        control_failure(fault, files, bytes) is Disconnected <==> (fault
            matches ReadFault::Io { kind, text } && disconnects(kind)),
        control_failure(fault, files, bytes) is Protocol <==> fault is Protocol,
        fault is TimedOut ==> control_failure(fault, files, bytes) == ReceiveFailure::<
            Seq<char>,
        >::Io(NetError::Timeout("read fetch control"@)) && content_failure(
            fault,
            during,
            files,
            bytes,
        ) == ReceiveFailure::<Seq<char>>::Io(NetError::Timeout(during)),
        content_failure(fault, during, files, bytes) is LocalCancelled <==> fault is Cancelled,
        content_failure(fault, during, files, bytes) is Protocol <==> fault is Protocol,
        content_failure(fault, during, files, bytes) is Io <==> fault is Io || fault is TimedOut,
        control_failure(fault, files, bytes) matches ReceiveFailure::Disconnected {
            files: f,
            bytes: b,
        } ==> f == files && b == bytes,
        control_failure(fault, files, bytes) matches ReceiveFailure::LocalCancelled {
            files: f,
            bytes: b,
        } ==> f == files && b == bytes,
        control_failure(fault, files, bytes) matches ReceiveFailure::Protocol {
            files: f,
            bytes: b,
            detail,
        } ==> f == files && b == bytes && fault == ReadFault::Protocol(detail),
        fault matches ReadFault::Io { kind, text } ==> (!disconnects(kind) ==> control_failure(
            fault,
            files,
            bytes,
        ) == ReceiveFailure::<Seq<char>>::Io(NetError::Io(text))),
{
}

// Sending a file.

/// An observation is as planned.
pub open spec fn as_planned(observation: Observation, m: FileSendView) -> bool {
    observation matches Observation::Seen(Some(digest)) && digest@ == m.metadata_digest
}

/// A file is opened, and its beginning written, only while it is as planned; one that is
/// missing is unavailable, and any other is changed.
pub proof fn lemma_a_file_is_checked_before(m: FileSendView, observation: Observation)
    requires
        m.step is CheckPath || m.step is Open,
    ensures
        ({
            let q = m.next(FileEvent::Observed(observation));
            let unavailable = FileStep::<Seq<char>, Seq<u8>>::Finished(FileOutcome::Unavailable);
            let changed = FileStep::<Seq<char>, Seq<u8>>::Finished(FileOutcome::Changed);
            &&& m.step is CheckPath ==> (q.step is Open <==> as_planned(observation, m))
            &&& m.step is Open ==> (q.step is WriteStart <==> as_planned(observation, m))
            &&& q.step == unavailable <==> observation is Missing
            &&& q.step == changed <==> observation is Seen && !as_planned(observation, m)
        }),
{
}

/// After a file was sent it is looked at twice more: one that is not as planned while it
/// is open ends the stream, and one that changed at its path ends it after the file.
pub proof fn lemma_a_file_is_checked_after(m: FileSendView, observation: Observation)
    ensures
        m.step is CheckOpened ==> ({
            let q = m.next(FileEvent::Observed(observation));
            &&& q.step is WriteEnd <==> as_planned(observation, m)
            &&& q.step is WriteEnd ==> q.digest == sha256(m.content)
            &&& !(q.step is WriteEnd) ==> q.step == FileStep::<Seq<char>, Seq<u8>>::Finished(
                FileOutcome::MidStream,
            )
        }),
        m.step is CheckPathAgain ==> ({
            let q = m.next(FileEvent::Observed(observation));
            let sent = FileStep::<Seq<char>, Seq<u8>>::Finished(FileOutcome::Sent(m.digest));
            let missing = FileStep::<Seq<char>, Seq<u8>>::Finished(
                FileOutcome::AfterFileUnavailable(m.digest),
            );
            let changed = FileStep::<Seq<char>, Seq<u8>>::Finished(
                FileOutcome::AfterFileChanged(m.digest),
            );
            &&& q.step == sent <==> as_planned(observation, m)
            &&& q.step == missing <==> observation is Missing
            &&& q.step == changed <==> observation is Seen && !as_planned(observation, m)
        }),
{
}

/// What is read of a file is written as it was read, until all of it is sent; a file that
/// ends early ends the stream.
pub proof fn lemma_pieces_of_a_sent_file(m: FileSendView, piece: Option<Vec<u8>>)
    ensures
        m.step is ReadPiece ==> ({
            let q = m.next(FileEvent::Read(piece));
            let broken = FileStep::<Seq<char>, Seq<u8>>::Finished(FileOutcome::MidStream);
            &&& q.step == broken <==> (!(piece matches Some(bytes) && bytes@.len() > 0))
            &&& piece matches Some(bytes) ==> (bytes@.len() > 0 ==> q.step == FileStep::<
                Seq<char>,
                Seq<u8>,
            >::WritePiece(bytes@) && q.content == m.content + bytes@ && q.remaining == m.remaining)
        }),
        m.step is WriteStart ==> ({
            let q = m.next(FileEvent::Wrote(Ok(())));
            &&& q.step is ReadPiece <==> m.remaining > 0
            &&& q.step is CheckOpened <==> m.remaining == 0
            &&& q.remaining == m.remaining && q.content == m.content
        }),
        m.step is WritePiece && m.pending <= m.remaining ==> ({
            let q = m.next(FileEvent::Wrote(Ok(())));
            &&& q.remaining + m.pending == m.remaining
            &&& q.step is ReadPiece <==> m.pending < m.remaining
            &&& q.step is CheckOpened <==> m.pending == m.remaining
            &&& q.content == m.content
        }),
        m.step is WriteEnd ==> m.next(FileEvent::Wrote(Ok(()))).step is CheckPathAgain,
{
}

/// A connection that fails while a file is sent is reported as it failed.
pub proof fn lemma_a_broken_send(m: FileSendView, error: NetError)
    requires
        m.step is WriteStart || m.step is WritePiece || m.step is WriteEnd,
    ensures
        m.next(FileEvent::Wrote(Err(error))).step == FileStep::<Seq<char>, Seq<u8>>::Finished(
            FileOutcome::Io(error@),
        ),
{
}

// Sending what was asked for.

/// The manifest is written part by part, each once and in order, closed where there is
/// one, and then the answer is waited for.
pub proof fn lemma_the_manifest_is_written(m: TransferView)
    requires
        m.wf(),
        m.step is WriteHeader || m.step is WriteChunk || m.step is WriteManifestEnd,
    ensures
        ({
            let q = m.next(TransferEvent::Wrote(Ok(())));
            let next = match m.step {
                TransferStep::WriteChunk(i) => i + 1,
                _ => 0int,
            };
            &&& m.step is WriteManifestEnd ==> q.step is ReadAdmission
            &&& !(m.step is WriteManifestEnd) && next < m.chunk_count ==> (q.step
                matches TransferStep::WriteChunk(i) && i == next)
            &&& !(m.step is WriteManifestEnd) && next >= m.chunk_count && m.plan.manifest.len() > 0
                ==> q.step is WriteManifestEnd
            &&& !(m.step is WriteManifestEnd) && next >= m.chunk_count && m.plan.manifest.len()
                == 0 ==> q.step is ReadAdmission
            &&& q.plan == m.plan && q.request == m.request
        }),
{
}

/// Content is sent only after the request was accepted; a refusal ends the transfer, and an
/// answer to another request, or no answer, is an error.
pub proof fn lemma_the_answer_decides(m: TransferView, frame: AdmissionFrame)
    requires
        m.step is ReadAdmission,
    ensures
        ({
            let q = m.next(TransferEvent::AdmissionRead(Ok(frame)));
            let accepted = frame matches AdmissionFrame::Admission { request_id, code }
                && request_id == m.request.request_id && code is Accepted;
            let done = TransferStep::<Seq<char>>::Finished(Ok(()));
            let mistaken = q.step matches TransferStep::Finished(
                Err(NetError::IdentityMismatch(_)),
            );
            let unexpected = q.step matches TransferStep::Finished(
                Err(NetError::UnexpectedMessage(_)),
            );
            &&& q.step is RecheckBefore <==> accepted && m.plan.text is None
            &&& q.step is WriteText || q.step is WriteTextEnd <==> accepted && m.plan.text is Some
            &&& q.step == done <==> (frame matches AdmissionFrame::Admission { request_id, code }
                && request_id == m.request.request_id && !(code is Accepted))
            &&& mistaken <==> (frame matches AdmissionFrame::Admission { request_id, code }
                && request_id != m.request.request_id)
            &&& unexpected <==> frame is Other
        }),
{
}

/// Files are sent in their order; one that was sent counts with its bytes and its digest,
/// and after the last one the source is looked at once more.
pub proof fn lemma_files_are_sent_in_order(m: TransferView, index: usize, digest: Seq<u8>)
    requires
        m.wf(),
        m.step == TransferStep::<Seq<char>>::SendFile(index),
        index < u32::MAX,
        m.bytes_sent + m.plan.files[index as int].byte_len <= u64::MAX,
    ensures
        ({
            let q = m.file_sent(FileOutcome::Sent(digest));
            &&& q.files_sent == m.files_sent + 1
            &&& q.bytes_sent == m.bytes_sent + m.plan.files[index as int].byte_len
            &&& q.content_set == m.content_set + digest
            &&& index + 1 < m.plan.files.len() ==> (q.step matches TransferStep::SendFile(i) && i
                == index + 1)
            &&& index + 1 == m.plan.files.len() ==> q.step is RecheckAfter
        }),
        m.file_sent(FileOutcome::AfterFileChanged(digest)).files_sent == m.files_sent + 1,
        m.file_sent(FileOutcome::AfterFileUnavailable(digest)).files_sent == m.files_sent + 1,
        m.file_sent(FileOutcome::Changed).files_sent == m.files_sent,
        m.file_sent(FileOutcome::Unavailable).files_sent == m.files_sent,
{
}

/// A file that could not be sent aborts the transfer, saying whether it is missing or has
/// changed; only inside a file nothing can be said, and the transfer ends.
pub proof fn lemma_files_that_were_not_sent(
    m: TransferView,
    index: usize,
    outcome: FileOutcome<Seq<char>, Seq<u8>>,
)
    requires
        m.step == TransferStep::<Seq<char>>::SendFile(index),
    ensures
        ({
            let q = m.file_sent(outcome);
            let missing = TransferStep::<Seq<char>>::WriteAbort(FetchAbortCode::SourceUnavailable);
            let changed = TransferStep::<Seq<char>>::WriteAbort(FetchAbortCode::SourceChanged);
            &&& q.step == missing <==> outcome is Unavailable || outcome is AfterFileUnavailable
            &&& q.step == changed <==> outcome is Changed || outcome is AfterFileChanged
            &&& q.step == TransferStep::<Seq<char>>::Finished(Ok(())) <==> outcome is MidStream
            &&& outcome matches FileOutcome::Io(error) ==> q.step == TransferStep::<
                Seq<char>,
            >::Finished(Err(error))
        }),
{
}

/// Before and after the files are sent, the source must be as it was; what stops the
/// transfer is named.
pub proof fn lemma_the_source_is_looked_at(
    m: TransferView,
    result: Result<PlanView, SourceFailure>,
)
    requires
        m.step is RecheckBefore || m.step is RecheckAfter,
    ensures
        ({
            let q = m.rechecked(result);
            let same = result matches Ok(current) && same_plan(current, m.plan);
            &&& q.step is WriteAbort <==> !same
            &&& m.step is RecheckBefore && same && m.plan.files.len() > 0 ==> q.step == (
            TransferStep::<Seq<char>>::SendFile(0))
            &&& m.step is RecheckBefore && same && m.plan.files.len() == 0
                ==> q.step is RecheckAfter
            &&& m.step is RecheckAfter && same ==> q.step is WriteComplete
            &&& q.step == TransferStep::<Seq<char>>::WriteAbort(FetchAbortCode::SourceUnavailable)
                <==> result == Err::<PlanView, _>(SourceFailure::Unavailable)
            &&& q.step == TransferStep::<Seq<char>>::WriteAbort(FetchAbortCode::InternalError)
                <==> result == Err::<PlanView, _>(SourceFailure::Malformed)
        }),
        abort_code(SourceFailure::Changed) is SourceChanged,
{
}

/// What ends a transfer: a receipt for the request and the offer, and nothing else; after
/// a text or the files a receipt is waited for, after an abort nothing.
pub proof fn lemma_a_receipt_is_waited_for(m: TransferView, frame: ReceiptFrame, error: NetError)
    ensures
        m.step is WriteTextEnd ==> m.next(
            TransferEvent::Wrote(Ok(())),
        ).step is WriteTextComplete,
        m.step is WriteTextComplete || m.step is WriteComplete ==> m.next(
            TransferEvent::Wrote(Ok(())),
        ).step is ReadReceipt,
        m.step is WriteAbort ==> m.next(TransferEvent::Wrote(Ok(()))).step == TransferStep::<
            Seq<char>,
        >::Finished(Ok(())),
        m.step is ReadReceipt ==> ({
            let q = m.next(TransferEvent::ReceiptRead(Ok(frame)));
            let unexpected = q.step matches TransferStep::Finished(
                Err(NetError::UnexpectedMessage(_)),
            );
            &&& q.step == TransferStep::<Seq<char>>::Finished(Ok(())) <==> (frame
                matches ReceiptFrame::Receipt { request_id, offer_id } && request_id
                == m.request.request_id && offer_id == m.request.offer_id)
            &&& unexpected <==> frame is Other
        }),
        m.step is WriteHeader || m.step is WriteChunk || m.step is WriteManifestEnd
            || m.step is WriteText || m.step is WriteTextEnd || m.step is WriteTextComplete
            || m.step is WriteComplete || m.step is WriteAbort ==> m.next(
            TransferEvent::Wrote(Err(error)),
        ).step == TransferStep::<Seq<char>>::Finished(Err(error@)),
        m.step is ReadAdmission ==> m.next(TransferEvent::AdmissionRead(Err(error))).step
            == TransferStep::<Seq<char>>::Finished(Err(error@)),
        m.step is ReadReceipt ==> m.next(TransferEvent::ReceiptRead(Err(error))).step
            == TransferStep::<Seq<char>>::Finished(Err(error@)),
{
}

} // verus!
