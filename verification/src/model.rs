//! Messages of the first protocol version.
use vstd::prelude::*;

use crate::ids::{random_shape, DeviceId, MessageId};
use crate::offer::MAX_TEXT_BYTES;
use crate::text::{byte_len, byte_length, decimal, decimal_text, join2, join3, opt_view};

verus! {

pub const PROTOCOL_VERSION: u16 = 1;

#[derive(Debug, Clone, Copy, PartialEq, Eq, Structural)]
pub enum DeliveryMode {
    ClipboardPush,
    ShelfItem,
}

#[derive(Debug, Clone, Copy, PartialEq, Eq, Structural)]
pub enum ContentKind {
    Text,
    Path,
    File,
    Folder,
}

impl Default for ContentKind {
    fn default() -> (r: Self)
        ensures
            r is Text,
    {
        ContentKind::Text
    }
}

/// A text on its way to one device; `S` is the type of the text.
#[derive(Debug)]
pub struct TextEnvelope<S = String> {
    pub protocol_version: u16,
    pub message_id: MessageId,
    pub source_device: DeviceId,
    pub target_device: DeviceId,
    pub created_at_unix_ms: u64,
    pub expires_at_unix_ms: Option<u64>,
    pub delivery_mode: DeliveryMode,
    pub content_kind: ContentKind,
    pub text: S,
}

impl View for TextEnvelope<String> {
    type V = TextEnvelope<Seq<char>>;

    open spec fn view(&self) -> TextEnvelope<Seq<char>> {
        TextEnvelope {
            protocol_version: self.protocol_version,
            message_id: self.message_id,
            source_device: self.source_device,
            target_device: self.target_device,
            created_at_unix_ms: self.created_at_unix_ms,
            expires_at_unix_ms: self.expires_at_unix_ms,
            delivery_mode: self.delivery_mode,
            content_kind: self.content_kind,
            text: self.text@,
        }
    }
}

impl Clone for TextEnvelope<String> {
    fn clone(&self) -> (r: Self)
        ensures
            r@ == self@,
    {
        TextEnvelope {
            protocol_version: self.protocol_version,
            message_id: self.message_id,
            source_device: self.source_device,
            target_device: self.target_device,
            created_at_unix_ms: self.created_at_unix_ms,
            expires_at_unix_ms: self.expires_at_unix_ms,
            delivery_mode: self.delivery_mode,
            content_kind: self.content_kind,
            text: self.text.clone(),
        }
    }
}

/// Why an envelope is refused.
#[allow(inconsistent_fields)]
#[derive(Debug, Clone, Copy, PartialEq, Eq, Structural)]
pub enum EnvelopeValidationError {
    UnsupportedProtocolVersion { received: u16, supported: u16 },
    EmptyText,
    TextTooLarge { bytes: usize, maximum: usize },
    ExpiryBeforeCreation,
    Expired { expires_at_unix_ms: u64, now_unix_ms: u64 },
}

impl EnvelopeValidationError {
    /// The message shown for the error.
    pub open spec fn message(self) -> Seq<char> {
        match self {
            EnvelopeValidationError::UnsupportedProtocolVersion { received, supported } =>
                "unsupported protocol version "@ + decimal(received as nat)
                    + "; supported version is "@ + decimal(supported as nat),
            EnvelopeValidationError::EmptyText => "text is empty"@,
            EnvelopeValidationError::TextTooLarge { bytes, maximum } => "text is "@ + decimal(
                bytes as nat,
            ) + " bytes; maximum is "@ + decimal(maximum as nat),
            EnvelopeValidationError::ExpiryBeforeCreation => "expiration precedes creation"@,
            EnvelopeValidationError::Expired { expires_at_unix_ms, now_unix_ms } =>
                "message expired at "@ + decimal(expires_at_unix_ms as nat) + "; now is "@
                    + decimal(now_unix_ms as nat),
        }
    }

    /// The message shown for the error.
    #[must_use]
    pub fn describe(&self) -> (r: String)
        ensures
            r@ == self.message(),
    {
        match *self {
            EnvelopeValidationError::UnsupportedProtocolVersion { received, supported } => {
                let head = join3(
                    "unsupported protocol version ",
                    decimal_text(received as u64).as_str(),
                    "; supported version is ",
                );
                join2(head.as_str(), decimal_text(supported as u64).as_str())
            },
            EnvelopeValidationError::EmptyText => "text is empty".to_owned(),
            EnvelopeValidationError::TextTooLarge { bytes, maximum } => {
                let head = join3(
                    "text is ",
                    decimal_text(bytes as u64).as_str(),
                    " bytes; maximum is ",
                );
                join2(head.as_str(), decimal_text(maximum as u64).as_str())
            },
            EnvelopeValidationError::ExpiryBeforeCreation =>
                "expiration precedes creation".to_owned(),
            EnvelopeValidationError::Expired { expires_at_unix_ms, now_unix_ms } => {
                let head = join3(
                    "message expired at ",
                    decimal_text(expires_at_unix_ms).as_str(),
                    "; now is ",
                );
                join2(head.as_str(), decimal_text(now_unix_ms).as_str())
            },
        }
    }
}

impl TextEnvelope<Seq<char>> {
    /// What is wrong with the envelope at a time: its version, its text, or its expiry.
    pub open spec fn check(self, now_unix_ms: u64) -> Result<(), EnvelopeValidationError> {
        if self.protocol_version != PROTOCOL_VERSION {
            Err(
                EnvelopeValidationError::UnsupportedProtocolVersion {
                    received: self.protocol_version,
                    supported: PROTOCOL_VERSION,
                },
            )
        } else if self.text.len() == 0 {
            Err(EnvelopeValidationError::EmptyText)
        } else if byte_len(self.text) > MAX_TEXT_BYTES {
            Err(
                EnvelopeValidationError::TextTooLarge {
                    bytes: byte_len(self.text) as usize,
                    maximum: MAX_TEXT_BYTES,
                },
            )
        } else {
            match self.expires_at_unix_ms {
                Some(expires) if expires < self.created_at_unix_ms => Err(
                    EnvelopeValidationError::ExpiryBeforeCreation,
                ),
                Some(expires) if now_unix_ms > expires => Err(
                    EnvelopeValidationError::Expired {
                        expires_at_unix_ms: expires,
                        now_unix_ms,
                    },
                ),
                _ => Ok(()),
            }
        }
    }
}

impl TextEnvelope {
    /// A text for the clipboard of a device.
    #[must_use]
    pub fn clipboard_push(
        source_device: DeviceId,
        target_device: DeviceId,
        created_at_unix_ms: u64,
        expires_at_unix_ms: Option<u64>,
        text: &str,
    ) -> (r: Self)
        ensures
            random_shape(r.message_id.0),
            r@ == (TextEnvelope {
                protocol_version: PROTOCOL_VERSION,
                message_id: r.message_id,
                source_device,
                target_device,
                created_at_unix_ms,
                expires_at_unix_ms,
                delivery_mode: DeliveryMode::ClipboardPush,
                content_kind: ContentKind::Text,
                text: text@,
            }),
    {
        TextEnvelope {
            protocol_version: PROTOCOL_VERSION,
            message_id: MessageId::new(),
            source_device,
            target_device,
            created_at_unix_ms,
            expires_at_unix_ms,
            delivery_mode: DeliveryMode::ClipboardPush,
            content_kind: ContentKind::Text,
            text: text.to_owned(),
        }
    }

    /// A text for the shelf of a device, under a fresh identifier.
    #[must_use]
    pub fn shelf_item(
        source_device: DeviceId,
        target_device: DeviceId,
        created_at_unix_ms: u64,
        expires_at_unix_ms: Option<u64>,
        content_kind: ContentKind,
        text: &str,
    ) -> (r: Self)
        ensures
            random_shape(r.message_id.0),
            r@ == (TextEnvelope {
                protocol_version: PROTOCOL_VERSION,
                message_id: r.message_id,
                source_device,
                target_device,
                created_at_unix_ms,
                expires_at_unix_ms,
                delivery_mode: DeliveryMode::ShelfItem,
                content_kind,
                text: text@,
            }),
    {
        Self::shelf_item_with_id(
            MessageId::new(),
            source_device,
            target_device,
            created_at_unix_ms,
            expires_at_unix_ms,
            content_kind,
            text,
        )
    }

    /// A text for the shelf of a device.
    #[must_use]
    pub fn shelf_item_with_id(
        message_id: MessageId,
        source_device: DeviceId,
        target_device: DeviceId,
        created_at_unix_ms: u64,
        expires_at_unix_ms: Option<u64>,
        content_kind: ContentKind,
        text: &str,
    ) -> (r: Self)
        ensures
            r@ == (TextEnvelope {
                protocol_version: PROTOCOL_VERSION,
                message_id,
                source_device,
                target_device,
                created_at_unix_ms,
                expires_at_unix_ms,
                delivery_mode: DeliveryMode::ShelfItem,
                content_kind,
                text: text@,
            }),
    {
        TextEnvelope {
            protocol_version: PROTOCOL_VERSION,
            message_id,
            source_device,
            target_device,
            created_at_unix_ms,
            expires_at_unix_ms,
            delivery_mode: DeliveryMode::ShelfItem,
            content_kind,
            text: text.to_owned(),
        }
    }

    /// Checks the envelope at a time.
    pub fn validate(&self, now_unix_ms: u64) -> (r: Result<(), EnvelopeValidationError>)
        ensures
            r == self@.check(now_unix_ms),
    {
        if self.protocol_version != PROTOCOL_VERSION {
            return Err(
                EnvelopeValidationError::UnsupportedProtocolVersion {
                    received: self.protocol_version,
                    supported: PROTOCOL_VERSION,
                },
            );
        }
        if self.text.as_str().is_empty() {
            return Err(EnvelopeValidationError::EmptyText);
        }
        let bytes: usize = byte_length(self.text.as_str());
        if bytes > MAX_TEXT_BYTES {
            return Err(
                EnvelopeValidationError::TextTooLarge { bytes, maximum: MAX_TEXT_BYTES },
            );
        }
        if let Some(expires) = self.expires_at_unix_ms {
            if expires < self.created_at_unix_ms {
                return Err(EnvelopeValidationError::ExpiryBeforeCreation);
            }
            if now_unix_ms > expires {
                return Err(
                    EnvelopeValidationError::Expired {
                        expires_at_unix_ms: expires,
                        now_unix_ms,
                    },
                );
            }
        }
        Ok(())
    }
}

/// An envelope that is accepted at a time was accepted at any time before.
pub proof fn lemma_acceptance_only_expires(
    envelope: TextEnvelope<Seq<char>>,
    earlier: u64,
    later: u64,
)
    requires
        earlier <= later,
        envelope.check(later) is Ok,
    ensures
        envelope.check(earlier) is Ok,
{
}

/// How a message was received.
#[derive(Debug, Clone, Copy, PartialEq, Eq, Structural)]
pub enum ReceiptCode {
    Stored,
    Applied,
    DuplicateApplied,
    ClipboardFailed,
    RejectedInvalid,
    RejectedWrongTarget,
    RejectedUnsupportedMode,
    RejectedMessageIdConflict,
    RejectedUnauthorized,
    UncertainNoReplay,
    InternalError,
}

/// The answer to a message; `S` is the type of its detail.
#[derive(Debug)]
pub struct Receipt<S = String> {
    pub protocol_version: u16,
    pub message_id: MessageId,
    pub code: ReceiptCode,
    pub detail: Option<S>,
}

impl View for Receipt<String> {
    type V = Receipt<Seq<char>>;

    open spec fn view(&self) -> Receipt<Seq<char>> {
        Receipt {
            protocol_version: self.protocol_version,
            message_id: self.message_id,
            code: self.code,
            detail: opt_view(self.detail),
        }
    }
}

impl Receipt {
    #[must_use]
    pub fn new(message_id: MessageId, code: ReceiptCode, detail: Option<String>) -> (r: Self)
        ensures
            r@ == (Receipt {
                protocol_version: PROTOCOL_VERSION,
                message_id,
                code,
                detail: opt_view(detail),
            }),
    {
        Receipt { protocol_version: PROTOCOL_VERSION, message_id, code, detail }
    }

    #[must_use]
    pub fn applied(message_id: MessageId) -> (r: Self)
        ensures
            r@ == (Receipt {
                protocol_version: PROTOCOL_VERSION,
                message_id,
                code: ReceiptCode::Applied,
                detail: None::<Seq<char>>,
            }),
    {
        Self::new(message_id, ReceiptCode::Applied, None)
    }

    #[must_use]
    pub fn duplicate_applied(message_id: MessageId) -> (r: Self)
        ensures
            r@ == (Receipt {
                protocol_version: PROTOCOL_VERSION,
                message_id,
                code: ReceiptCode::DuplicateApplied,
                detail: None::<Seq<char>>,
            }),
    {
        Self::new(message_id, ReceiptCode::DuplicateApplied, None)
    }

    #[must_use]
    pub fn rejected(message_id: MessageId, code: ReceiptCode, detail: &str) -> (r: Self)
        ensures
            r@ == (Receipt {
                protocol_version: PROTOCOL_VERSION,
                message_id,
                code,
                detail: Some(detail@),
            }),
    {
        Self::new(message_id, code, Some(detail.to_owned()))
    }
}

} // verus!
