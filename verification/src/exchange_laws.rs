//! What one device sends, the other accepts.
use vstd::prelude::*;
use vstd::utf8::encode_utf8;

use crate::activation::FetchActivationView;
use crate::digest::sha256;
use crate::manifest::{
    digest_agrees, digest_given, entries_fit, file_bytes, header_answers, kind_count, ManifestView,
};
use crate::offer::DescriptorView;
use crate::payload::{PayloadEvent, PayloadMessage, PayloadStep, PayloadView};
use crate::send::{plan_header, plan_manifest_end, FetchRequest};
use crate::source_plan::{finished_plan, folder_check, text_plan, PlanView};
use crate::text::byte_len;
use crate::transfer::{text_bytes, TransferView};
use crate::walk::WalkView;
use crate::wire::{FetchComplete, FileEntryKind, TextEnd, V2Limits};

verus! {

/// The header of a plan answers the activation of a card that describes the plan.
pub proof fn lemma_header_answers_its_card(
    request: FetchRequest,
    plan: PlanView,
    activation: FetchActivationView,
)
    requires
        request.request_id == activation.request_id,
        request.offer_id == activation.offer_id,
        if plan.descriptor is Text {
            &&& plan.text is Some
            &&& plan == text_plan(plan.descriptor, plan.text->0)
            &&& sha256(encode_utf8(plan.text->0)).len() == 32
        } else {
            &&& plan.text is None
            &&& digest_given(plan.manifest_sha256)
        },
    ensures
        header_answers(plan_header(request, plan), plan.descriptor, activation),
{
}

/// The manifest of an unchanged folder is what its descriptor describes, and its
/// digest and its end agree with it, for a receiver that encodes the entries as
/// the origin did.
pub proof fn lemma_folder_manifest_agrees(
    request: FetchRequest,
    walk: WalkView,
    descriptor: DescriptorView,
    commitment: Seq<u8>,
    chunk_bytes: usize,
    encoded: Seq<u8>,
    limits: V2Limits,
)
    requires
        walk.wf(),
        folder_check(walk, descriptor, commitment) is Ok,
        finished_plan(
            descriptor,
            folder_check(walk, descriptor, commitment)->Ok_0,
            Some(chunk_bytes),
            Some(encoded),
            limits,
        ) is Ok,
    ensures
        ({
            let plan = finished_plan(
                descriptor,
                folder_check(walk, descriptor, commitment)->Ok_0,
                Some(chunk_bytes),
                Some(encoded),
                limits,
            )->Ok_0;
            &&& entries_fit(plan.manifest, descriptor)
            &&& digest_agrees(
                plan.manifest_sha256,
                (ManifestView {
                    entries: plan.manifest,
                    end: Some(plan_manifest_end(request, plan)),
                    encoded: Some(encoded),
                }),
            )
        }),
{
}

/// The same holds of an unchanged file.
pub proof fn lemma_file_manifest_agrees(
    request: FetchRequest,
    root_name: Seq<char>,
    total_bytes: u64,
    metadata: crate::source::MetadataView,
    chunk_bytes: usize,
    encoded: Seq<u8>,
    limits: V2Limits,
)
    ensures
        ({
            let descriptor = DescriptorView::File { root_name, total_bytes };
            let plan = finished_plan(
                descriptor,
                crate::source_plan::file_draft(root_name, total_bytes, metadata),
                Some(chunk_bytes),
                Some(encoded),
                limits,
            )->Ok_0;
            &&& entries_fit(plan.manifest, descriptor)
            &&& digest_agrees(
                plan.manifest_sha256,
                (ManifestView {
                    entries: plan.manifest,
                    end: Some(plan_manifest_end(request, plan)),
                    encoded: Some(encoded),
                }),
            )
        }),
{
    let entries = crate::source_plan::file_draft(root_name, total_bytes, metadata).manifest;
    assert(entries.drop_last() =~= Seq::<crate::wire::EntryView>::empty());
    assert(file_bytes(entries.drop_last()) == 0);
    assert(kind_count(entries.drop_last(), FileEntryKind::File) == 0);
}

/// A text arrives as it was sent: the receiver that gets its bytes and the two
/// closing messages of the origin ends with exactly this text.
pub proof fn lemma_text_arrives_as_sent(
    p: PayloadView,
    m: TransferView,
    text: Seq<char>,
    content: Vec<u8>,
    end: TextEnd,
    complete: FetchComplete,
)
    requires
        p.step is ReadText,
        p.request_id == m.request.request_id,
        p.counts.total_bytes == byte_len(text),
        m.plan.text == Some(text),
        content@ == text_bytes(m.plan),
        end.request_id == m.request.request_id,
        end.sha256@ == sha256(text_bytes(m.plan)),
        complete.request_id == m.request.request_id,
        complete.files_sent == 0,
        complete.bytes_sent == text_bytes(m.plan).len(),
        complete.content_set_sha256@ == sha256(text_bytes(m.plan)),
    ensures
        ({
            let received = p.next(PayloadEvent::Content(Ok(content))).next(
                PayloadEvent::Message(Ok(PayloadMessage::TextEnd(end))),
            ).next(PayloadEvent::Message(Ok(PayloadMessage::Complete(complete))));
            &&& received.step == PayloadStep::<Seq<char>, Seq<u8>>::Finished(Ok(()))
            &&& received.text == Some(text)
        }),
{
    vstd::utf8::encode_utf8_valid_utf8(text);
    vstd::utf8::encode_utf8_decode_utf8(text);
}

} // verus!
