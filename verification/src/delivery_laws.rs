//! Content arrives as it was sent, in whatever pieces it travels.
use vstd::prelude::*;

use crate::digest::sha256;
use crate::ids::ActivationId;
use crate::payload::{
    digests_of, least, staged_bytes, PayloadEvent, PayloadMessage, PayloadStep, PayloadView,
    StagedFile,
};
use crate::source_plan::{same_plan, SourcePlan};
use crate::stream::{
    observed, FileEvent, FileOutcome, FileSendView, FileStep, Observation,
};
use crate::transfer::{text_bytes, AdmissionFrame, TransferEvent, TransferStep, TransferView};
use crate::wire::{FetchAdmissionCode, FetchComplete, FileEnd, FileStart};

verus! {

/// What some pieces hold together.
pub open spec fn whole(pieces: Seq<Vec<u8>>) -> Seq<u8>
    decreases pieces.len(),
{
    if pieces.len() == 0 {
        Seq::empty()
    } else {
        whole(pieces.drop_last()) + pieces.last()@
    }
}

/// Whether no piece is empty.
pub open spec fn no_empty_piece(pieces: Seq<Vec<u8>>) -> bool {
    forall|i: int| 0 <= i < pieces.len() ==> (#[trigger] pieces[i])@.len() > 0
}

/// A receiver after it has read and written some pieces.
pub open spec fn after_pieces(p: PayloadView, pieces: Seq<Vec<u8>>) -> PayloadView
    decreases pieces.len(),
{
    if pieces.len() == 0 {
        p
    } else {
        after_pieces(p, pieces.drop_last()).next(
            PayloadEvent::Content(Ok(pieces.last())),
        ).next(PayloadEvent::Local(Ok(())))
    }
}

/// The messages and the pieces in which one file arrives.
pub ghost struct Delivery {
    pub start: FileStart,
    pub pieces: Seq<Vec<u8>>,
    pub end: FileEnd,
}

impl Delivery {
    /// Whether it delivers `content` as this file: the messages are those of an origin
    /// that sends `content`, and the pieces are `content`.
    pub open spec fn delivers(
        self,
        request_id: ActivationId,
        file: StagedFile,
        content: Seq<u8>,
    ) -> bool {
        &&& content.len() == file.byte_len
        &&& self.start.request_id == request_id
        &&& self.start.entry_index == file.entry_index
        &&& self.start.byte_len == file.byte_len
        &&& no_empty_piece(self.pieces)
        &&& whole(self.pieces) == content
        &&& self.end.request_id == request_id
        &&& self.end.entry_index == file.entry_index
        &&& self.end.sha256@ == sha256(content)
    }

    /// A receiver after the delivery.
    pub open spec fn received_by(self, p: PayloadView) -> PayloadView {
        after_pieces(
            p.next(PayloadEvent::Message(Ok(PayloadMessage::FileStart(self.start)))),
            self.pieces,
        ).next(PayloadEvent::Local(Ok(()))).next(
            PayloadEvent::Message(Ok(PayloadMessage::FileEnd(self.end))),
        )
    }
}

/// A receiver after some deliveries.
pub open spec fn after_deliveries(p: PayloadView, deliveries: Seq<Delivery>) -> PayloadView
    decreases deliveries.len(),
{
    if deliveries.len() == 0 {
        p
    } else {
        deliveries.last().received_by(after_deliveries(p, deliveries.drop_last()))
    }
}

proof fn lemma_whole_grows(pieces: Seq<Vec<u8>>)
    requires
        pieces.len() > 0,
        no_empty_piece(pieces),
    ensures
        no_empty_piece(pieces.drop_last()),
        whole(pieces).len() == whole(pieces.drop_last()).len() + pieces.last()@.len(),
        pieces.last()@.len() > 0,
{
    assert(pieces.last() == pieces[pieces.len() - 1]);
    assert forall|i: int| 0 <= i < pieces.drop_last().len() implies (
    #[trigger] pieces.drop_last()[i])@.len() > 0 by {
        assert(pieces.drop_last()[i] == pieces[i]);
    }
}

/// Pieces are taken in the order in which they come, and counted.
proof fn lemma_pieces_are_taken(p: PayloadView, pieces: Seq<Vec<u8>>)
    requires
        p.step is ReadChunk,
        pieces.len() > 0,
        no_empty_piece(pieces),
        whole(pieces).len() <= p.remaining,
        p.bytes_received + whole(pieces).len() <= u64::MAX,
    ensures
        after_pieces(p, pieces) == (PayloadView {
            remaining: p.remaining - whole(pieces).len(),
            pending: 0,
            bytes_received: (p.bytes_received + whole(pieces).len()) as u64,
            file_content: p.file_content + whole(pieces),
            step: if p.remaining > whole(pieces).len() {
                PayloadStep::ReadChunk
            } else {
                PayloadStep::SyncFile
            },
            ..p
        }),
    decreases pieces.len(),
{
    let rest = pieces.drop_last();
    let last = pieces.last();
    lemma_whole_grows(pieces);
    if rest.len() > 0 {
        lemma_pieces_are_taken(p, rest);
    } else {
        assert(p.file_content + whole(rest) =~= p.file_content);
    }
    assert((p.file_content + whole(rest)) + last@ =~= p.file_content + whole(pieces));
}

/// One file that an origin sends is received as what it is: its content stands behind
/// the contents before it, and is counted with its bytes and its digest.
pub proof fn lemma_a_file_arrives(p: PayloadView, delivery: Delivery, content: Seq<u8>)
    requires
        p.step is ReadFileStart,
        0 <= p.position < p.files.len() <= u32::MAX,
        p.files_received == p.position,
        delivery.delivers(p.request_id, p.files[p.position], content),
        p.bytes_received + content.len() <= u64::MAX,
    ensures
        ({
            let q = delivery.received_by(p);
            &&& q.request_id == p.request_id
            &&& q.counts == p.counts
            &&& q.files == p.files
            &&& q.manifest_digest == p.manifest_digest
            &&& q.position == p.position + 1
            &&& q.files_received == p.files_received + 1
            &&& q.bytes_received == p.bytes_received + content.len()
            &&& q.content_set == p.content_set + sha256(content)
            &&& q.received == p.received.push(content)
            &&& q.step == q.after_files()
        }),
{
    let opened = p.next(PayloadEvent::Message(Ok(PayloadMessage::FileStart(delivery.start))));
    let pieces = delivery.pieces;
    if content.len() == 0 {
        if pieces.len() > 0 {
            lemma_whole_grows(pieces);
        }
        assert(opened.file_content =~= content);
    } else {
        assert(pieces.len() > 0);
        lemma_pieces_are_taken(opened, pieces);
        assert(opened.file_content + content =~= content);
    }
}

/// Whether the deliveries deliver these contents as these files.
pub open spec fn deliver_all(
    deliveries: Seq<Delivery>,
    request_id: ActivationId,
    files: Seq<StagedFile>,
    contents: Seq<Seq<u8>>,
) -> bool {
    &&& deliveries.len() == contents.len() <= files.len()
    &&& forall|i: int|
        0 <= i < deliveries.len() ==> (#[trigger] deliveries[i]).delivers(
            request_id,
            files[i],
            contents[i],
        )
}

proof fn lemma_files_arrive(p: PayloadView, deliveries: Seq<Delivery>, contents: Seq<Seq<u8>>)
    requires
        p.position == 0,
        p.files_received == 0,
        p.bytes_received == 0,
        p.received == Seq::<Seq<u8>>::empty(),
        p.content_set == p.manifest_digest,
        p.step == p.after_files(),
        p.files.len() <= u32::MAX,
        deliver_all(deliveries, p.request_id, p.files, contents),
        staged_bytes(p.files, deliveries.len() as int) <= u64::MAX,
    ensures
        ({
            let q = after_deliveries(p, deliveries);
            &&& q.request_id == p.request_id
            &&& q.counts == p.counts
            &&& q.files == p.files
            &&& q.manifest_digest == p.manifest_digest
            &&& q.position == deliveries.len()
            &&& q.files_received == deliveries.len()
            &&& q.bytes_received == staged_bytes(p.files, deliveries.len() as int)
            &&& q.content_set == p.manifest_digest + digests_of(contents)
            &&& q.received == contents
            &&& q.step == q.after_files()
        }),
    decreases deliveries.len(),
{
    if deliveries.len() == 0 {
        assert(contents =~= Seq::<Seq<u8>>::empty());
        assert(p.manifest_digest + digests_of(contents) =~= p.manifest_digest);
    } else {
        let n = deliveries.len() - 1;
        let rest = deliveries.drop_last();
        let before = contents.drop_last();
        assert(deliver_all(rest, p.request_id, p.files, before)) by {
            assert forall|i: int| 0 <= i < rest.len() implies (#[trigger] rest[i]).delivers(
                p.request_id,
                p.files[i],
                before[i],
            ) by {
                assert(rest[i] == deliveries[i]);
                assert(before[i] == contents[i]);
            }
        }
        assert(deliveries.last() == deliveries[n]);
        assert(contents.last() == contents[n]);
        lemma_files_arrive(p, rest, before);
        let q = after_deliveries(p, rest);
        lemma_a_file_arrives(q, deliveries.last(), contents.last());
        assert(before.push(contents.last()) =~= contents);
        assert((p.manifest_digest + digests_of(before)) + sha256(contents.last())
            =~= p.manifest_digest + digests_of(contents));
    }
}

/// An origin after the files with these outcomes.
pub open spec fn after_files_sent(m: TransferView, outcomes: Seq<FileOutcome>) -> TransferView
    decreases outcomes.len(),
{
    if outcomes.len() == 0 {
        m
    } else {
        after_files_sent(m, outcomes.drop_last()).next(TransferEvent::FileSent(outcomes.last()))
    }
}

/// Whether all files were sent, and these were their contents.
pub open spec fn sent_all(outcomes: Seq<FileOutcome>, contents: Seq<Seq<u8>>) -> bool {
    &&& outcomes.len() == contents.len()
    &&& forall|i: int| 0 <= i < outcomes.len() ==> sent_as(#[trigger] outcomes[i], contents[i])
}

/// Whether a file was sent, and this was its content.
pub open spec fn sent_as(outcome: FileOutcome, content: Seq<u8>) -> bool {
    outcome matches FileOutcome::Sent(digest) && digest@ == sha256(content)
}

proof fn lemma_files_are_counted(
    m: TransferView,
    files: Seq<StagedFile>,
    outcomes: Seq<FileOutcome>,
    contents: Seq<Seq<u8>>,
)
    requires
        m.step == m.file_or_recheck(0).step,
        m.files_sent == 0,
        m.bytes_sent == 0,
        sent_all(outcomes, contents),
        outcomes.len() <= m.plan.files.len() == files.len() <= u32::MAX,
        forall|i: int|
            0 <= i < files.len() ==> (#[trigger] m.plan.files[i]).byte_len == files[i].byte_len,
        staged_bytes(files, outcomes.len() as int) <= u64::MAX,
    ensures
        ({
            let n = after_files_sent(m, outcomes);
            &&& n.request == m.request
            &&& n.plan == m.plan
            &&& n.files_sent == outcomes.len()
            &&& n.bytes_sent == staged_bytes(files, outcomes.len() as int)
            &&& n.content_set == m.content_set + digests_of(contents)
            &&& n.step == n.file_or_recheck(outcomes.len() as int).step
        }),
    decreases outcomes.len(),
{
    if outcomes.len() == 0 {
        assert(m.content_set + digests_of(contents) =~= m.content_set);
    } else {
        let k = outcomes.len() - 1;
        let rest = outcomes.drop_last();
        let before = contents.drop_last();
        assert(sent_all(rest, before)) by {
            assert forall|i: int| 0 <= i < rest.len() implies sent_as(
                #[trigger] rest[i],
                before[i],
            ) by {
                assert(rest[i] == outcomes[i]);
                assert(before[i] == contents[i]);
            }
        }
        assert(outcomes.last() == outcomes[k]);
        assert(contents.last() == contents[k]);
        assert(m.plan.files[k].byte_len == files[k].byte_len);
        lemma_files_are_counted(m, files, rest, before);
        assert((m.content_set + digests_of(before)) + sha256(contents.last())
            =~= m.content_set + digests_of(contents));
    }
}

/// Files arrive as they were sent.  Where an origin sends the contents of all files of
/// its plan, finds its source unchanged and completes, the receiver that gets its
/// messages and the contents, in whatever pieces, ends well and holds exactly these
/// contents.
pub proof fn lemma_files_arrive_as_sent(
    p: PayloadView,
    m: TransferView,
    deliveries: Seq<Delivery>,
    outcomes: Seq<FileOutcome>,
    contents: Seq<Seq<u8>>,
    current: SourcePlan,
    complete: FetchComplete,
)
    requires
        p.position == 0,
        p.files_received == 0,
        p.bytes_received == 0,
        p.received == Seq::<Seq<u8>>::empty(),
        p.content_set == p.manifest_digest,
        p.step == p.after_files(),
        p.files.len() <= u32::MAX,
        deliveries.len() == p.files.len(),
        deliver_all(deliveries, p.request_id, p.files, contents),
        staged_bytes(p.files, p.files.len() as int) <= u64::MAX,
        m.request.request_id == p.request_id,
        m.step == m.file_or_recheck(0).step,
        m.files_sent == 0,
        m.bytes_sent == 0,
        m.content_set == p.manifest_digest,
        m.plan.files.len() == p.files.len(),
        forall|i: int|
            0 <= i < p.files.len() ==> (#[trigger] m.plan.files[i]).byte_len
                == p.files[i].byte_len,
        sent_all(outcomes, contents),
        same_plan(current@, m.plan),
        complete.request_id == m.request.request_id,
        complete.files_sent == after_files_sent(m, outcomes).files_sent,
        complete.bytes_sent == after_files_sent(m, outcomes).bytes_sent,
        complete.content_set_sha256@ == sha256(after_files_sent(m, outcomes).content_set),
    ensures
        after_files_sent(m, outcomes).next(TransferEvent::Rechecked(Ok(current))).step
            is WriteComplete,
        ({
            let q = after_deliveries(p, deliveries).next(
                PayloadEvent::Message(Ok(PayloadMessage::Complete(complete))),
            ).next(PayloadEvent::Local(Ok(())));
            &&& q.step == PayloadStep::<Seq<char>, Seq<u8>>::Finished(Ok(()))
            &&& q.received == contents
        }),
{
    lemma_files_arrive(p, deliveries, contents);
    lemma_files_are_counted(m, p.files, outcomes, contents);
}

/// An origin's file after it has read and sent some pieces.
pub open spec fn after_pieces_sent(f: FileSendView, pieces: Seq<Vec<u8>>) -> FileSendView
    decreases pieces.len(),
{
    if pieces.len() == 0 {
        f
    } else {
        after_pieces_sent(f, pieces.drop_last()).next(
            FileEvent::Read(Some(pieces.last())),
        ).next(FileEvent::Wrote(Ok(())))
    }
}

proof fn lemma_pieces_are_sent(f: FileSendView, pieces: Seq<Vec<u8>>)
    requires
        f.step is ReadPiece,
        pieces.len() > 0,
        no_empty_piece(pieces),
        whole(pieces).len() <= f.remaining,
    ensures
        after_pieces_sent(f, pieces) == (FileSendView {
            remaining: (f.remaining - whole(pieces).len()) as u64,
            pending: 0,
            content: f.content + whole(pieces),
            step: if f.remaining > whole(pieces).len() {
                FileStep::ReadPiece
            } else {
                FileStep::CheckOpened
            },
            ..f
        }),
    decreases pieces.len(),
{
    let rest = pieces.drop_last();
    let last = pieces.last();
    lemma_whole_grows(pieces);
    if rest.len() > 0 {
        lemma_pieces_are_sent(f, rest);
    } else {
        assert(f.content + whole(rest) =~= f.content);
    }
    assert((f.content + whole(rest)) + last@ =~= f.content + whole(pieces));
}

/// A file that stays as planned while it is read is sent with the digest of what was
/// read: of all of it, and of nothing else.
pub proof fn lemma_a_file_is_sent_with_its_digest(
    f: FileSendView,
    pieces: Seq<Vec<u8>>,
    opened: Observation,
    path: Observation,
)
    requires
        f.step is WriteStart,
        f.remaining == f.byte_len,
        f.content == Seq::<u8>::empty(),
        no_empty_piece(pieces),
        whole(pieces).len() == f.byte_len,
        observed(opened, f.metadata_digest) is AsPlanned,
        observed(path, f.metadata_digest) is AsPlanned,
    ensures
        ({
            let closed = after_pieces_sent(
                f.next(FileEvent::Wrote(Ok(()))),
                pieces,
            ).next(FileEvent::Observed(opened));
            &&& closed.step is WriteEnd
            &&& closed.digest == sha256(whole(pieces))
            &&& closed.next(FileEvent::Wrote(Ok(()))).next(FileEvent::Observed(path)).step
                == FileStep::<Seq<char>, Seq<u8>>::Finished(
                FileOutcome::Sent(sha256(whole(pieces))),
            )
        }),
{
    let started = f.next(FileEvent::Wrote(Ok(())));
    if pieces.len() > 0 {
        lemma_whole_grows(pieces);
        lemma_pieces_are_sent(started, pieces);
        assert(started.content + whole(pieces) =~= whole(pieces));
    } else {
        assert(started.content =~= whole(pieces));
    }
}

/// All bytes of a text that an origin still writes, piece by piece, and where it is
/// then.
pub open spec fn text_run(m: TransferView) -> (Seq<u8>, TransferView)
    decreases
            match m.step {
                TransferStep::WriteText(from) => text_bytes(m.plan).len() - from,
                _ => 0,
            },
{
    match m.step {
        TransferStep::WriteText(from) => if m.wf() && text_bytes(m.plan).len() <= usize::MAX {
            let (later, end) = text_run(m.next(TransferEvent::Wrote(Ok(()))));
            (m.text_piece() + later, end)
        } else {
            (Seq::empty(), m)
        },
        _ => (Seq::empty(), m),
    }
}

proof fn lemma_rest_of_text(m: TransferView, from: usize)
    requires
        m.wf(),
        m.step == TransferStep::<Seq<char>>::WriteText(from),
        text_bytes(m.plan).len() <= usize::MAX,
    ensures
        text_run(m).0 == text_bytes(m.plan).subrange(
            from as int,
            text_bytes(m.plan).len() as int,
        ),
        text_run(m).1 == m.at(TransferStep::WriteTextEnd),
    decreases text_bytes(m.plan).len() - from,
{
    let bytes = text_bytes(m.plan);
    let n = least(m.buffer_bytes as int, bytes.len() - from);
    let next = m.next(TransferEvent::Wrote(Ok(())));
    if from + n < bytes.len() {
        lemma_rest_of_text(next, (from + n) as usize);
    } else {
        assert(next == m.at(TransferStep::WriteTextEnd));
        assert(text_run(next) == (Seq::<u8>::empty(), next));
        assert(bytes.subrange(from + n, bytes.len() as int) =~= Seq::<u8>::empty());
    }
    assert(bytes.subrange(from as int, from + n) + bytes.subrange(from + n, bytes.len() as int)
        =~= bytes.subrange(from as int, bytes.len() as int));
}

/// An admitted text is written whole and once, however large the pieces are, and only
/// then its end.
pub proof fn lemma_a_text_is_sent_whole(m: TransferView, admission: AdmissionFrame)
    requires
        m.wf(),
        m.step is ReadAdmission,
        m.plan.text is Some,
        text_bytes(m.plan).len() <= usize::MAX,
        admission == (AdmissionFrame::Admission {
            request_id: m.request.request_id,
            code: FetchAdmissionCode::Accepted,
        }),
    ensures
        ({
            let run = text_run(m.next(TransferEvent::AdmissionRead(Ok(admission))));
            &&& run.0 == text_bytes(m.plan)
            &&& run.1 == m.at(TransferStep::WriteTextEnd)
        }),
{
    let bytes = text_bytes(m.plan);
    let begun = m.next(TransferEvent::AdmissionRead(Ok(admission)));
    if bytes.len() > 0 {
        lemma_rest_of_text(begun, 0);
        assert(bytes.subrange(0, bytes.len() as int) =~= bytes);
    } else {
        assert(bytes =~= Seq::<u8>::empty());
    }
}

} // verus!
