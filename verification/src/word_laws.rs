//! The words of errors and codes, and the bytes that are committed to.
use vstd::prelude::*;
use vstd::utf8::encode_utf8;

use crate::activation::ActivationMode;
use crate::desktop::{
    pulling_status, shelf_rows, shown_progress, ActiveActivations, Keyboard, ShelfRow,
};
use crate::identity::{transcript, IdentityError};
use crate::model::EnvelopeValidationError;
use crate::net::IpAddress;
use crate::offer::{counted, OfferDescriptorError};
use crate::offer_source::SourcePreparationError;
use crate::outcome::ActivationOutcome;
use crate::payload::PayloadReceive;
use crate::reservation::ReservationError;
use crate::source::{le_bytes, metadata_bytes, MetadataView};
use crate::store::OfferCardRecord;
use crate::stream::FileSend;
use crate::text::decimal;
use crate::trust::refuse_excess_connection;
use crate::wire::FetchAdmissionCode;

verus! {

// Bytes.

/// The number that bytes stand for, the lowest first.
pub open spec fn little_endian(s: Seq<u8>) -> nat
    decreases s.len(),
{
    if s.len() == 0 {
        0
    } else {
        s[0] as nat + 256 * little_endian(s.drop_first())
    }
}

/// How many numbers `n` bytes can tell apart.
pub open spec fn numbers(n: nat) -> nat
    decreases n,
{
    if n == 0 {
        1
    } else {
        256 * numbers((n - 1) as nat)
    }
}

/// A number is written in as many bytes as it is given, the lowest first.
pub proof fn lemma_written_numbers(x: nat, n: nat)
    ensures
        le_bytes(x, n).len() == n,
        x < numbers(n) ==> little_endian(le_bytes(x, n)) == x,
    decreases n,
{
    if n > 0 {
        lemma_written_numbers(x / 256, (n - 1) as nat);
        assert(le_bytes(x, n).drop_first() =~= le_bytes(x / 256, (n - 1) as nat));
        assert(x == 256 * (x / 256) + x % 256);
        if x < numbers(n) {
            assert(x / 256 < numbers((n - 1) as nat));
        }
    }
}

proof fn lemma_eight_bytes()
    ensures
        numbers(8) == 0x1_0000_0000_0000_0000,
        numbers(4) == 0x1_0000_0000,
{
    reveal_with_fuel(numbers, 9);
}

/// What is committed to of an object: its kind and its name, each with a zero behind it,
/// what identifies it, its length, its three flags, and its time of change to the
/// nanosecond.
pub proof fn lemma_committed_bytes(kind: Seq<char>, name: Seq<char>, m: MetadataView)
    requires
        m.modified is Some,
    ensures
        ({
            let bytes = metadata_bytes(kind, name, m);
            let a = encode_utf8(kind).len() as int;
            let b = a + 1 + encode_utf8(name).len();
            let c = b + 1 + m.identity.len();
            &&& bytes.len() == c + 23
            &&& bytes.subrange(0, a) == encode_utf8(kind)
            &&& bytes[a] == 0
            &&& bytes.subrange(a + 1, b) == encode_utf8(name)
            &&& bytes[b] == 0
            &&& bytes.subrange(b + 1, c) == m.identity
            &&& little_endian(bytes.subrange(c, c + 8)) == m.len
            &&& bytes[c + 8] == (if m.is_file { 1u8 } else { 0u8 })
            &&& bytes[c + 9] == (if m.is_directory { 1u8 } else { 0u8 })
            &&& bytes[c + 10] == (if m.readonly { 1u8 } else { 0u8 })
            &&& little_endian(bytes.subrange(c + 11, c + 19)) == m.modified->0.seconds
            &&& little_endian(bytes.subrange(c + 19, c + 23)) == m.modified->0.nanoseconds
        }),
{
    let bytes = metadata_bytes(kind, name, m);
    let at = m.modified->0;
    let a = encode_utf8(kind).len() as int;
    let b = a + 1 + encode_utf8(name).len();
    let c = b + 1 + m.identity.len();
    lemma_eight_bytes();
    lemma_written_numbers(m.len as nat, 8);
    lemma_written_numbers(at.seconds as nat, 8);
    lemma_written_numbers(at.nanoseconds as nat, 4);
    assert(bytes.subrange(0, a) =~= encode_utf8(kind));
    assert(bytes.subrange(a + 1, b) =~= encode_utf8(name));
    assert(bytes.subrange(b + 1, c) =~= m.identity);
    assert(bytes.subrange(c, c + 8) =~= le_bytes(m.len as nat, 8));
    assert(bytes.subrange(c + 11, c + 19) =~= le_bytes(at.seconds as nat, 8));
    assert(bytes.subrange(c + 19, c + 23) =~= le_bytes(at.nanoseconds as nat, 4));
}

/// What is signed is the purpose, a zero, and the message.
pub proof fn lemma_signed_bytes(message: Seq<u8>)
    ensures
        ({
            let purpose = encode_utf8("meshelf/installation-signature/v1"@);
            let n = purpose.len() as int;
            &&& transcript(message).len() == n + 1 + message.len()
            &&& transcript(message).subrange(0, n) == purpose
            &&& transcript(message)[n] == 0
            &&& transcript(message).skip(n + 1) == message
        }),
{
    let n = encode_utf8("meshelf/installation-signature/v1"@).len() as int;
    assert(transcript(message).subrange(0, n) =~= encode_utf8(
        "meshelf/installation-signature/v1"@,
    ));
    assert(transcript(message).skip(n + 1) =~= message);
}

/// As much is read at once as is left, and not more than the buffer holds.
pub proof fn lemma_how_much_is_read(
    p: &PayloadReceive,
    m: &FileSend,
    buffer: usize,
    received: u64,
    sent: u64,
)
    requires
        call_ensures(PayloadReceive::wanted, (p, buffer), received),
        call_ensures(FileSend::wanted, (m, buffer), sent),
    ensures
        p@.step is ReadText ==> received == p@.counts.total_bytes,
        p@.step is ReadChunk ==> received <= p@.remaining && received <= buffer && (received
            == p@.remaining || received == buffer),
        sent <= m@.remaining && sent <= buffer && (sent == m@.remaining || sent == buffer),
{
}

// Words.

/// The words for limits name what was found and what is allowed.
pub proof fn lemma_words_of_limits(a: Seq<char>, x: nat, b: Seq<char>, y: nat)
    ensures
        counted(a, x, b, y) == a + decimal(x) + b + decimal(y),
{
}

/// The words of what is wrong with a card.
pub proof fn lemma_words_of_wrong_cards(error: OfferDescriptorError)
    ensures
        error is EmptyText ==> error.message() == "text is empty"@,
        error matches OfferDescriptorError::TextTooLarge { bytes, maximum } ==> error.message()
            == "text is "@ + decimal(bytes as nat) + " bytes; maximum is "@ + decimal(
            maximum as nat,
        ),
        error is EmptyLineCount ==> error.message() == "text descriptor has zero lines"@,
        error matches OfferDescriptorError::PreviewTooLarge { bytes, maximum } ==> error.message()
            == "text preview is "@ + decimal(bytes as nat) + " bytes; maximum is "@ + decimal(
            maximum as nat,
        ),
        error is PreviewContainsControl ==> error.message()
            == "text preview contains a control character"@,
        error is EmptyRootName ==> error.message() == "root name is empty"@,
        error is RootNameIsPath ==> error.message()
            == "root name is a path rather than a basename"@,
        error is RootNameContainsControl ==> error.message()
            == "root name contains a control character"@,
        error matches OfferDescriptorError::RootNameTooLarge { bytes, maximum } ==> error.message()
            == "root name is "@ + decimal(bytes as nat) + " bytes; maximum is "@ + decimal(
            maximum as nat,
        ),
        error matches OfferDescriptorError::FileTooLarge { bytes, maximum } ==> error.message()
            == "file is "@ + decimal(bytes as nat) + " bytes; maximum is "@ + decimal(
            maximum as nat,
        ),
        error matches OfferDescriptorError::TransferTooLarge { bytes, maximum } ==> error.message()
            == "transfer is "@ + decimal(bytes as nat) + " bytes; maximum is "@ + decimal(
            maximum as nat,
        ),
{
}

/// The words of what is wrong with a source, an identity, a message and a reservation.
pub proof fn lemma_words_of_other_errors(
    source: SourcePreparationError<Seq<char>>,
    identity: IdentityError<Seq<char>>,
    message: EnvelopeValidationError,
    reservation: ReservationError<Seq<char>>,
)
    ensures
        source matches SourcePreparationError::Text(error) ==> source.message()
            == "text offer is invalid: "@ + error.message(),
        source is Inspect ==> source.message() == "source path could not be inspected"@,
        source is Symlink ==> source.message() == "source path is a symbolic link"@,
        source is SpecialFile ==> source.message()
            == "source path is not a regular file or directory"@,
        source is NonUtf8Name ==> source.message() == "source name is not valid UTF-8"@,
        source is InvalidName ==> source.message() == "source name is not portable"@,
        source is FileTooLarge ==> source.message() == "source file exceeds the v2 size limit"@,
        source is TreeTooLarge ==> source.message()
            == "source tree exceeds the v2 size or entry limit"@,
        source is Commitment ==> source.message() == "source metadata commitment failed"@,
        identity matches IdentityError::Keyring(cause) ==> identity.message()
            == "credential store error: "@ + cause,
        identity is InvalidSecretKey ==> identity.message()
            == "credential store record does not contain a 32-byte signing key"@,
        message is EmptyText ==> message.message() == "text is empty"@,
        message is ExpiryBeforeCreation ==> message.message() == "expiration precedes creation"@,
        message matches EnvelopeValidationError::Expired { expires_at_unix_ms, now_unix_ms }
            ==> message.message() == "message expired at "@ + decimal(expires_at_unix_ms as nat)
            + "; now is "@ + decimal(now_unix_ms as nat),
        reservation is Overflow ==> reservation.message() == "reservation arithmetic overflow"@,
        reservation matches ReservationError::InsufficientSpace {
            available,
            active_reserved,
            required,
        } ==> reservation.message() == "insufficient space: available="@ + decimal(
            available as nat,
        ) + ", active_reserved="@ + decimal(active_reserved as nat) + ", required="@ + decimal(
            required as nat,
        ),
        reservation matches ReservationError::Filesystem(cause) ==> reservation.message()
            == "filesystem operation failed: "@ + cause,
{
}

/// The status of an activation says how it ended.
pub proof fn lemma_words_of_outcomes(outcome: ActivationOutcome, mode: ActivationMode, r: &str)
    requires
        call_ensures(pulling_status, (mode,), r),
    ensures
        outcome is Completed ==> outcome.status() == "Offer activation completed"@,
        outcome is Cancelled ==> outcome.status() == "Offer activation cancelled"@,
        outcome is UncertainNoReplay ==> outcome.status()
            == "Offer activation is uncertain and will not be replayed"@,
        outcome matches ActivationOutcome::Refused(code) ==> outcome.status()
            == "Offer activation refused ("@ + code.words() + ")"@,
        outcome matches ActivationOutcome::Failed(code) ==> outcome.status()
            == "Offer activation failed ("@ + code.words() + ")"@,
        mode is Save ==> r@ == "Pulling offer to the configured destination…"@,
        mode is Clipboard ==> r@ == "Pulling offer to the clipboard…"@,
{
}

/// Every answer to a request is named by itself.
pub proof fn lemma_names_of_answers(code: FetchAdmissionCode)
    ensures
        code is Accepted ==> code.name_text() == "Accepted"@,
        code is Cancelled ==> code.name_text() == "Cancelled"@,
        code is RefusedBusy ==> code.name_text() == "RefusedBusy"@,
        code is InvalidManifest ==> code.name_text() == "InvalidManifest"@,
        code is TooLarge ==> code.name_text() == "TooLarge"@,
        code is InsufficientSpace ==> code.name_text() == "InsufficientSpace"@,
        code is DestinationUnavailable ==> code.name_text() == "DestinationUnavailable"@,
        code is AllocationFailed ==> code.name_text() == "AllocationFailed"@,
        code is UnsupportedMode ==> code.name_text() == "UnsupportedMode"@,
{
}

/// A device that is turned away because too many are connected is told how many may be.
pub proof fn lemma_words_for_too_many(device: crate::ids::DeviceId, r: String, ip: IpAddress)
    requires
        call_ensures(refuse_excess_connection, (device,), r),
    ensures
        r@ == "inbound handler capacity exhausted: active="@ + decimal(16) + ", maximum="@
            + decimal(16) + "; update peer "@ + crate::ids::hyphenated(device.0)
            + " to meshelf protocol 2"@,
        ip.unspecified() <==> ip == IpAddress::V4(0) || ip == IpAddress::V6(0),
{
}

/// Every card on the shelf has its row, in the order of the shelf; what is under way shows
/// how far it is.
pub proof fn lemma_shelves_are_shown<H>(
    names: &std::collections::HashMap<u128, String>,
    active: &ActiveActivations<H>,
    records: Vec<OfferCardRecord>,
    keyboard: Keyboard,
    rows: Vec<ShelfRow>,
    i: int,
)
    requires
        call_ensures(shelf_rows::<H>, (names, active, records, keyboard), rows),
        0 <= i < records@.len(),
    ensures
        rows@.len() == records@.len(),
        rows@[i]@.offer_id == crate::ids::hyphenated(records@[i].offer_id.0),
        rows@[i]@.active <==> active.offers@.dom().contains(records@[i].offer_id.0),
        rows@[i]@.can_activate <==> !active.offers@.dom().contains(records@[i].offer_id.0) && !(
        records@[i].availability is SourceChanged),
{
    assert(rows@[i]@ == crate::desktop::row_of(
        names@,
        i as nat,
        records@[i],
        shown_progress(active.offers@, records@[i].offer_id),
        keyboard,
    ));
    crate::surface_laws::lemma_rows_that_can_be_activated(
        names@,
        i as nat,
        records@[i],
        shown_progress(active.offers@, records@[i].offer_id),
        keyboard,
    );
}

} // verus!
