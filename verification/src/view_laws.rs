//! What the values of the library stand for.
use vstd::prelude::*;

use crate::activation::FetchActivation;
use crate::announce::OfferAck;
use crate::cli::{AnnounceSource, SendSource};
use crate::failure::{ReadFault, ReceiveFailure};
use crate::identity::IdentityError;
use crate::manifest::Manifest;
use crate::memory_store::TransitionOutcome;
use crate::model::TextEnvelope;
use crate::net_error::NetError;
use crate::offer::{DescriptorView, OfferDescriptor};
use crate::offer_source::SourcePreparationError;
use crate::path::HostPath;
use crate::receive::SideEffectFailure;
use crate::report::{AnnouncePeerOutcome, MeshSendReport};
use crate::reservation::ReservationError;
use crate::settings::{DestinationView, SaveDestination};
use crate::source::SourceMetadata;
use crate::source_plan::{SourceDraft, SourcePlan};
use crate::staging::{CacheRemoval, Finalization, IoFault, StagingCleanup};
use crate::text::views;
use crate::trust::TrustDecision;
use crate::walk::{LiveFile, WalkFault, WalkStep};
use crate::wire::{FetchHeader, ManifestEnd, ManifestEntry};

verus! {

/// An error stands for itself, with its cause.
pub proof fn lemma_errors_stand_for_themselves(e: NetError)
    ensures
        e matches NetError::Io(s) ==> e@ == NetError::Io(s@),
        e matches NetError::Protocol(s) ==> e@ == NetError::Protocol(s@),
        e matches NetError::Timeout(s) ==> e@ == NetError::Timeout(s@),
        e matches NetError::Rejected(s) ==> e@ == NetError::Rejected(s@),
        e matches NetError::Unavailable(s) ==> e@ == NetError::Unavailable(s@),
        e matches NetError::UnexpectedMessage(s) ==> e@ == NetError::UnexpectedMessage(s@),
        e matches NetError::IdentityMismatch(s) ==> e@ == NetError::IdentityMismatch(s@),
        e matches NetError::UnsafeBind(s) ==> e@ == NetError::UnsafeBind(s@),
        e matches NetError::FileTransfer(s) ==> e@ == NetError::FileTransfer(s@),
        e matches NetError::OfferStorage(s) ==> e@ == NetError::OfferStorage(s@),
        e matches NetError::FetchService(s) ==> e@ == NetError::FetchService(s@),
        e matches NetError::FetchServiceOwned(s) ==> e@ == NetError::FetchServiceOwned(s@),
        e is HandlerLimitClosed ==> e@ is HandlerLimitClosed,
        e matches NetError::FetchRefused { code, .. } ==> (e@ matches NetError::FetchRefused {
            code: c,
            ..
        } && c == code),
        e matches NetError::FetchAdmissionRefused { code, .. } ==> (e@
            matches NetError::FetchAdmissionRefused { code: c, .. } && c == code),
        e matches NetError::FetchTerminal { code, files_processed, bytes_processed, .. } ==> (e@
            matches NetError::FetchTerminal {
            code: c,
            files_processed: f,
            bytes_processed: b,
            ..
        } && c == code && f == files_processed && b == bytes_processed),
        e matches NetError::FetchAborted { code, files_processed, bytes_processed, .. } ==> (e@
            matches NetError::FetchAborted {
            code: c,
            files_processed: f,
            bytes_processed: b,
            ..
        } && c == code && f == files_processed && b == bytes_processed),
        e matches NetError::FetchLocalIo { files_processed, bytes_processed, .. } ==> (e@
            matches NetError::FetchLocalIo { files_processed: f, bytes_processed: b, .. } && f
            == files_processed && b == bytes_processed),
        e matches NetError::ProtocolMismatch { peer, version, expected } ==> (e@
            matches NetError::ProtocolMismatch { peer: p, version: v, expected: x } && p == peer@
            && v == version && x == expected),
{
}

/// So do faults and failures while something is received.
pub proof fn lemma_failures_stand_for_themselves(f: ReadFault, r: ReceiveFailure)
    ensures
        f is Cancelled <==> f@ is Cancelled,
        f is TimedOut <==> f@ is TimedOut,
        f is Io <==> f@ is Io,
        f matches ReadFault::Io { kind, text } ==> (f@ matches ReadFault::Io { kind: k, text: t }
            && k == kind && t == text@),
        f matches ReadFault::Protocol(s) ==> f@ == ReadFault::Protocol(s@),
        r is Disconnected <==> r@ is Disconnected,
        r is LocalCancelled <==> r@ is LocalCancelled,
        r is Aborted <==> r@ is Aborted,
        r is Verification <==> r@ is Verification,
        r is Protocol <==> r@ is Protocol,
        r is LocalIo <==> r@ is LocalIo,
        r matches ReceiveFailure::Io(e) ==> r@ == ReceiveFailure::Io(e@),
        r matches ReceiveFailure::Aborted { code, files, bytes } ==> (r@
            matches ReceiveFailure::Aborted { code: c, files: f, bytes: b } && c == code && f
            == files && b == bytes),
        r matches ReceiveFailure::Verification { files, bytes, detail } ==> (r@
            matches ReceiveFailure::Verification { files: f, bytes: b, detail: d } && f == files
            && b == bytes && d == detail@),
{
}

/// So do the outcomes of an announcement, of a decision, of a side effect and of a step.
pub proof fn lemma_outcomes_stand_for_themselves(
    a: AnnouncePeerOutcome,
    d: TrustDecision,
    s: SideEffectFailure,
    t: TransitionOutcome,
    report: MeshSendReport,
    ack: OfferAck,
)
    ensures
        a matches AnnouncePeerOutcome::Stored(name) ==> a@ == AnnouncePeerOutcome::Stored(name@),
        a matches AnnouncePeerOutcome::Unavailable(name) ==> a@ == AnnouncePeerOutcome::Unavailable(
            name@,
        ),
        a matches AnnouncePeerOutcome::VersionMismatch(reason) ==> a@
            == AnnouncePeerOutcome::VersionMismatch(reason@),
        d is Allow <==> d@ is Allow,
        d matches TrustDecision::Deny(reason) ==> d@ == TrustDecision::Deny(reason@),
        s matches SideEffectFailure::Terminal(e) ==> s@ == SideEffectFailure::Terminal(e@),
        s matches SideEffectFailure::Uncertain(e) ==> s@ == SideEffectFailure::Uncertain(e@),
        t is Missing <==> t@ is Missing,
        t is Changed <==> t@ is Changed,
        report@.stored_on == views(report.stored_on@),
        report@.unavailable == views(report.unavailable@),
        report@.version_mismatch == views(report.version_mismatch@),
        ack@.code == ack.code && ack@.offer_id == ack.offer_id,
        ack@.live_entries == ack.live_entries && ack@.pruned_entries == ack.pruned_entries,
{
}

/// A card, an entry, a header and a closing stand for what they hold.
pub proof fn lemma_cards_and_manifests_stand_for_what_they_hold(
    card: OfferDescriptor,
    entry: ManifestEntry,
    header: FetchHeader,
    end: ManifestEnd,
    manifest: Manifest,
    i: int,
)
    ensures
        card matches OfferDescriptor::Text { utf8_bytes, line_count, preview } ==> card@ == (
        DescriptorView::Text { utf8_bytes, line_count, preview: preview@ }),
        card matches OfferDescriptor::File { root_name, total_bytes } ==> card@ == (
        DescriptorView::File { root_name: root_name@, total_bytes }),
        card matches OfferDescriptor::Folder {
            root_name,
            total_bytes,
            entry_count,
            file_count,
            directory_count,
        } ==> card@ == (DescriptorView::Folder {
            root_name: root_name@,
            total_bytes,
            entry_count,
            file_count,
            directory_count,
        }),
        entry@.relative_path == entry.relative_path@,
        entry@.kind == entry.kind && entry@.byte_len == entry.byte_len,
        header@.request_id == header.request_id && header@.offer_id == header.offer_id,
        header@.descriptor == header.descriptor@,
        header@.manifest_entries == header.manifest_entries,
        header@.manifest_encoded_bytes == header.manifest_encoded_bytes,
        header.manifest_sha256 matches Some(digest) ==> header@.manifest_sha256 == Some(digest@),
        header.manifest_sha256 is None ==> header@.manifest_sha256 is None,
        header.text_sha256 matches Some(digest) ==> header@.text_sha256 == Some(digest@),
        header.text_sha256 is None ==> header@.text_sha256 is None,
        end@.request_id == end.request_id && end@.entry_count == end.entry_count,
        end@.file_count == end.file_count && end@.total_bytes == end.total_bytes,
        end@.manifest_sha256 == end.manifest_sha256@,
        manifest@.entries.len() == manifest.entries@.len(),
        0 <= i < manifest.entries@.len() ==> manifest@.entries[i] == manifest.entries@[i]@,
        manifest.end matches Some(e) ==> manifest@.end == Some(e@),
        manifest.encoded matches Some(bytes) ==> manifest@.encoded == Some(bytes@),
{
}

/// Metadata, plans, paths, activations and messages stand for what they hold.
pub proof fn lemma_sources_stand_for_what_they_hold(
    m: SourceMetadata,
    draft: SourceDraft,
    plan: SourcePlan,
    file: LiveFile,
    path: HostPath,
    place: SaveDestination,
    activation: FetchActivation,
    message: TextEnvelope,
)
    ensures
        m@.is_symlink == m.is_symlink && m@.is_file == m.is_file,
        m@.is_directory == m.is_directory && m@.len == m.len && m@.readonly == m.readonly,
        m@.identity == m.identity@ && m@.modified == m.modified,
        draft@.commitment == draft.commitment@,
        draft@.manifest.len() == draft.manifest@.len() && draft@.files.len() == draft.files@.len(),
        plan@.descriptor == plan.descriptor@ && plan@.total_bytes == plan.total_bytes,
        plan.text matches Some(text) ==> plan@.text == Some(text@),
        plan.text is None ==> plan@.text is None,
        plan.source_commitment matches Some(bytes) ==> plan@.source_commitment == Some(bytes@),
        plan@.manifest.len() == plan.manifest@.len() && plan@.files.len() == plan.files@.len(),
        file@.entry_index == file.entry_index && file@.is_root == file.is_root,
        file@.relative_name == file.relative_name@ && file@.byte_len == file.byte_len,
        file@.metadata_digest == file.metadata_digest@,
        path@.text == path.text@ && path@.absolute == path.absolute,
        place is Downloads <==> place@ is Downloads,
        place matches SaveDestination::Custom { path: p } ==> place@ == (DestinationView::Custom {
            path: p@,
        }),
        activation@.request_id == activation.request_id,
        activation@.offer_id == activation.offer_id,
        activation@.source_device == activation.source_device,
        activation@.mode == activation.mode,
        activation.destination is Some <==> activation@.destination is Some,
        message@.text == message.text@ && message@.message_id == message.message_id,
        message@.expires_at_unix_ms == message.expires_at_unix_ms,
        message@.protocol_version == message.protocol_version,
{
}

/// Errors of preparation, identity and reservation, and what is asked for, stand for
/// themselves.
pub proof fn lemma_choices_stand_for_themselves(
    e: SourcePreparationError,
    identity: IdentityError,
    reservation: ReservationError,
    send: SendSource,
    announce: AnnounceSource,
    fault: IoFault,
)
    ensures
        e is Symlink <==> e@ is Symlink,
        e is SpecialFile <==> e@ is SpecialFile,
        e is NonUtf8Name <==> e@ is NonUtf8Name,
        e is InvalidName <==> e@ is InvalidName,
        e is FileTooLarge <==> e@ is FileTooLarge,
        e is TreeTooLarge <==> e@ is TreeTooLarge,
        e is Commitment <==> e@ is Commitment,
        e is Inspect <==> e@ is Inspect,
        e matches SourcePreparationError::Text(error) ==> e@ == SourcePreparationError::<
            Seq<char>,
        >::Text(error),
        identity is InvalidSecretKey <==> identity@ is InvalidSecretKey,
        identity is Keyring <==> identity@ is Keyring,
        reservation is InsufficientSpace <==> reservation@ is InsufficientSpace,
        reservation is Overflow <==> reservation@ is Overflow,
        reservation is Filesystem <==> reservation@ is Filesystem,
        send is Clipboard <==> send@ is Clipboard,
        send is Stdin <==> send@ is Stdin,
        send matches SendSource::Text(text) ==> send@ == SendSource::Text(text@),
        announce matches AnnounceSource::Text(text) ==> announce@ == AnnounceSource::Text(text@),
        announce matches AnnounceSource::Path(path) ==> announce@ == AnnounceSource::Path(path@),
        fault@.kind == fault.kind && fault@.text == fault.text@,
{
}

/// The steps of a walk, of a removal and of a move stand for themselves.
pub proof fn lemma_steps_stand_for_themselves(
    step: WalkStep,
    fault: WalkFault,
    cleanup: StagingCleanup,
    cache: CacheRemoval,
    moved: Finalization,
)
    ensures
        step matches WalkStep::List(path) ==> crate::walk::walk_step_view(step) == WalkStep::List(
            path@,
        ),
        step matches WalkStep::Inspect(path) ==> crate::walk::walk_step_view(step)
            == WalkStep::Inspect(path@),
        fault is Symlink <==> crate::walk::fault_view(fault) is Symlink,
        fault is TooManyEntries <==> crate::walk::fault_view(fault) is TooManyEntries,
        fault is NoTimestamp <==> crate::walk::fault_view(fault) is NoTimestamp,
        fault is FileTooLarge <==> crate::walk::fault_view(fault) is FileTooLarge,
        fault is TreeTooLarge <==> crate::walk::fault_view(fault) is TreeTooLarge,
        fault is SpecialFile <==> crate::walk::fault_view(fault) is SpecialFile,
        fault is InvalidName <==> crate::walk::fault_view(fault) is InvalidName,
        fault is NonUtf8Name <==> crate::walk::fault_view(fault) is NonUtf8Name,
        fault is PathTooLong <==> crate::walk::fault_view(fault) is PathTooLong,
        cleanup is RemoveTree <==> cleanup@ is RemoveTree,
        cleanup is InspectParent <==> cleanup@ is InspectParent,
        cleanup is CheckParent <==> cleanup@ is CheckParent,
        cleanup is RemoveParent <==> cleanup@ is RemoveParent,
        cache is Inspect <==> cache@ is Inspect,
        cache is Check <==> cache@ is Check,
        cache is RemoveTree <==> cache@ is RemoveTree,
        cache is RemoveFile <==> cache@ is RemoveFile,
        moved is CheckPayload <==> moved@ is CheckPayload,
        moved is RequireParent <==> moved@ is RequireParent,
        moved is LinkFile <==> moved@ is LinkFile,
        moved is RemoveStaged <==> moved@ is RemoveStaged,
        moved is RenameFolder <==> moved@ is RenameFolder,
{
}

} // verus!
