use meshelf::ids::{ActivationId, DeviceId, IdParseError, MessageId, OfferId};
use meshelf::model::{
    ContentKind, DeliveryMode, EnvelopeValidationError, Receipt, ReceiptCode, TextEnvelope,
    PROTOCOL_VERSION,
};
use meshelf::offer::{
    OfferDescriptor, OfferDescriptorError, MAX_OFFER_FILE_BYTES, MAX_OFFER_MANIFEST_ENTRIES,
    MAX_OFFER_PREVIEW_BYTES, MAX_OFFER_TRANSFER_BYTES, MAX_TEXT_BYTES,
};

#[test]
fn text_descriptor_rejects_zero_and_over_one_mib() {
    assert!(matches!(
        OfferDescriptor::text(""),
        Err(OfferDescriptorError::EmptyText)
    ));
    let oversized = "a".repeat(MAX_TEXT_BYTES + 1);
    assert!(matches!(
        OfferDescriptor::text(&oversized),
        Err(OfferDescriptorError::TextTooLarge { .. })
    ));
}

#[test]
fn text_preview_is_bounded_and_truncates_on_a_character_boundary() {
    let input = format!("{}🙂tail\n\u{0007}end", "a".repeat(254));
    let OfferDescriptor::Text { preview, .. } = OfferDescriptor::text(&input).expect("text")
    else {
        panic!("expected text descriptor");
    };
    assert!(preview.len() <= MAX_OFFER_PREVIEW_BYTES);
    assert!(preview.is_char_boundary(preview.len()));
    assert!(!preview.contains('\n'));
    assert!(!preview.contains('\u{0007}'));
    assert_eq!(preview, "a".repeat(254));
}

#[test]
fn folder_descriptor_enforces_entry_and_transfer_bounds() {
    let too_many = OfferDescriptor::Folder {
        root_name: "folder".to_owned(),
        total_bytes: 0,
        entry_count: MAX_OFFER_MANIFEST_ENTRIES + 1,
        file_count: MAX_OFFER_MANIFEST_ENTRIES + 1,
        directory_count: 0,
    };
    assert!(matches!(
        too_many.validate(),
        Err(OfferDescriptorError::TooManyEntries { .. })
    ));

    let too_large = OfferDescriptor::Folder {
        root_name: "folder".to_owned(),
        total_bytes: MAX_OFFER_TRANSFER_BYTES + 1,
        entry_count: 0,
        file_count: 0,
        directory_count: 0,
    };
    assert!(matches!(
        too_large.validate(),
        Err(OfferDescriptorError::TransferTooLarge { .. })
    ));
}

#[test]
fn zero_byte_file_is_valid_not_missing_input() {
    let descriptor = OfferDescriptor::File {
        root_name: "empty.txt".to_owned(),
        total_bytes: 0,
    };
    assert_eq!(descriptor.validate(), Ok(()));
}

#[test]
fn text_descriptor_counts_bytes_and_lines() {
    let OfferDescriptor::Text { utf8_bytes, line_count, preview } =
        OfferDescriptor::text("héllo\nworld\tend").expect("text")
    else {
        panic!("expected text descriptor");
    };
    assert_eq!(utf8_bytes, 16);
    assert_eq!(line_count, 2);
    assert_eq!(preview, OfferDescriptor::preview("héllo\nworld\tend"));
    assert!(!preview.contains('\n'));
    assert!(!preview.contains('\t'));
}

#[test]
fn one_mib_of_text_is_still_an_offer() {
    let text = "a".repeat(MAX_TEXT_BYTES);
    assert!(OfferDescriptor::text(&text).is_ok());
}

#[test]
fn a_preview_is_its_own_preview() {
    for text in ["plain", "a\u{0}b\r\nc", "  spaced  ", "🙂🙂", ""] {
        let once = OfferDescriptor::preview(text);
        assert_eq!(OfferDescriptor::preview(&once), once);
        assert!(once.len() <= MAX_OFFER_PREVIEW_BYTES);
    }
}

fn text_descriptor(utf8_bytes: u32, line_count: u32, preview: &str) -> OfferDescriptor {
    OfferDescriptor::Text { utf8_bytes, line_count, preview: preview.to_owned() }
}

fn file_descriptor(root_name: &str, total_bytes: u64) -> OfferDescriptor {
    OfferDescriptor::File { root_name: root_name.to_owned(), total_bytes }
}

#[test]
fn each_fault_of_a_text_descriptor_is_named() {
    assert_eq!(text_descriptor(0, 1, "").validate(), Err(OfferDescriptorError::EmptyText));
    assert_eq!(
        text_descriptor(1_048_577, 1, "").validate(),
        Err(OfferDescriptorError::TextTooLarge { bytes: 1_048_577, maximum: 1_048_576 })
    );
    assert_eq!(text_descriptor(4, 0, "text").validate(), Err(OfferDescriptorError::EmptyLineCount));
    assert_eq!(
        text_descriptor(400, 1, &"x".repeat(257)).validate(),
        Err(OfferDescriptorError::PreviewTooLarge { bytes: 257, maximum: 256 })
    );
    assert_eq!(
        text_descriptor(4, 1, "a\u{85}b").validate(),
        Err(OfferDescriptorError::PreviewContainsControl)
    );
    assert_eq!(text_descriptor(4, 1, "text").validate(), Ok(()));
}

#[test]
fn each_fault_of_a_name_is_named() {
    assert_eq!(file_descriptor("", 1).validate(), Err(OfferDescriptorError::EmptyRootName));
    for name in ["a/b", "a\\b"] {
        assert_eq!(file_descriptor(name, 1).validate(), Err(OfferDescriptorError::RootNameIsPath));
    }
    assert_eq!(
        file_descriptor("a\u{1}", 1).validate(),
        Err(OfferDescriptorError::RootNameContainsControl)
    );
    assert_eq!(
        file_descriptor(&"n".repeat(256), 1).validate(),
        Err(OfferDescriptorError::RootNameTooLarge { bytes: 256, maximum: 255 })
    );
    assert_eq!(
        file_descriptor("big", MAX_OFFER_FILE_BYTES + 1).validate(),
        Err(OfferDescriptorError::FileTooLarge {
            bytes: MAX_OFFER_FILE_BYTES + 1,
            maximum: MAX_OFFER_FILE_BYTES,
        })
    );
    assert_eq!(file_descriptor("big", MAX_OFFER_FILE_BYTES).validate(), Ok(()));
}

#[test]
fn folder_counts_must_agree() {
    let folder = OfferDescriptor::Folder {
        root_name: "folder".to_owned(),
        total_bytes: 7,
        entry_count: 3,
        file_count: 1,
        directory_count: 1,
    };
    assert_eq!(
        folder.validate(),
        Err(OfferDescriptorError::EntryCountMismatch { entries: 3, files: 1, directories: 1 })
    );
    assert!(!folder.is_text());
    let overflowing = OfferDescriptor::Folder {
        root_name: "folder".to_owned(),
        total_bytes: 7,
        entry_count: 1,
        file_count: u32::MAX,
        directory_count: 2,
    };
    assert!(overflowing.validate().is_err());
}

#[test]
fn descriptor_errors_are_described() {
    assert_eq!(OfferDescriptorError::EmptyText.describe(), "text is empty");
    assert_eq!(
        OfferDescriptorError::TextTooLarge { bytes: 9, maximum: 8 }.describe(),
        "text is 9 bytes; maximum is 8"
    );
}

#[test]
fn preserves_unicode_and_newlines() {
    let source = DeviceId::new();
    let target = DeviceId::new();
    let envelope =
        TextEnvelope::clipboard_push(source, target, 1_000, Some(2_000), "alpha\nβeta\n🙂");
    assert_eq!(envelope.text, "alpha\nβeta\n🙂");
    assert_eq!(envelope.validate(1_500), Ok(()));
}

#[test]
fn rejects_oversized_text_by_utf8_byte_count() {
    let source = DeviceId::new();
    let target = DeviceId::new();
    let text = "é".repeat(MAX_TEXT_BYTES / 2 + 1);
    let envelope = TextEnvelope::clipboard_push(source, target, 1, None, &text);
    assert!(matches!(
        envelope.validate(1),
        Err(EnvelopeValidationError::TextTooLarge { .. })
    ));
}

#[test]
fn rejects_expired_message() {
    let envelope =
        TextEnvelope::clipboard_push(DeviceId::new(), DeviceId::new(), 100, Some(200), "text");
    assert!(matches!(
        envelope.validate(201),
        Err(EnvelopeValidationError::Expired { .. })
    ));
}

#[test]
fn a_message_is_accepted_until_it_expires() {
    let envelope =
        TextEnvelope::clipboard_push(DeviceId::new(), DeviceId::new(), 100, Some(200), "text");
    assert_eq!(envelope.validate(0), Ok(()));
    assert_eq!(envelope.validate(200), Ok(()));
    assert_eq!(
        envelope.validate(u64::MAX),
        Err(EnvelopeValidationError::Expired { expires_at_unix_ms: 200, now_unix_ms: u64::MAX })
    );
    let forever = TextEnvelope::clipboard_push(DeviceId::new(), DeviceId::new(), 100, None, "text");
    assert_eq!(forever.validate(u64::MAX), Ok(()));
}

#[test]
fn each_fault_of_a_message_is_named() {
    let mut envelope =
        TextEnvelope::clipboard_push(DeviceId::new(), DeviceId::new(), 300, Some(200), "text");
    assert_eq!(envelope.validate(100), Err(EnvelopeValidationError::ExpiryBeforeCreation));
    envelope.text = String::new();
    assert_eq!(envelope.validate(100), Err(EnvelopeValidationError::EmptyText));
    envelope.protocol_version = 7;
    let error = envelope.validate(100).expect_err("version");
    assert_eq!(
        error,
        EnvelopeValidationError::UnsupportedProtocolVersion { received: 7, supported: 1 }
    );
    assert_eq!(error.describe(), "unsupported protocol version 7; supported version is 1");
    assert_eq!(
        EnvelopeValidationError::Expired { expires_at_unix_ms: 5, now_unix_ms: 6 }.describe(),
        "message expired at 5; now is 6"
    );
    assert_eq!(
        EnvelopeValidationError::TextTooLarge { bytes: 3, maximum: 2 }.describe(),
        "text is 3 bytes; maximum is 2"
    );
    assert_eq!(EnvelopeValidationError::EmptyText.describe(), "text is empty");
    assert_eq!(
        EnvelopeValidationError::ExpiryBeforeCreation.describe(),
        "expiration precedes creation"
    );
}

#[test]
fn a_shelf_item_keeps_what_it_was_given() {
    let id = MessageId::new();
    let source = DeviceId::new();
    let target = DeviceId::new();
    let item = TextEnvelope::shelf_item_with_id(
        id,
        source,
        target,
        10,
        Some(20),
        ContentKind::Path,
        "C:\\x",
    );
    assert_eq!(item.message_id, id);
    assert_eq!(item.source_device, source);
    assert_eq!(item.target_device, target);
    assert_eq!(item.created_at_unix_ms, 10);
    assert_eq!(item.expires_at_unix_ms, Some(20));
    assert_eq!(item.delivery_mode, DeliveryMode::ShelfItem);
    assert_eq!(item.content_kind, ContentKind::Path);
    assert_eq!(item.text, "C:\\x");
    assert_eq!(item.protocol_version, PROTOCOL_VERSION);
    let other = TextEnvelope::shelf_item(source, target, 10, None, ContentKind::File, "f");
    assert_ne!(other.message_id, id);
    assert_eq!(other.delivery_mode, DeliveryMode::ShelfItem);
}

#[test]
fn receipts_carry_their_code() {
    let id = MessageId::new();
    assert_eq!(Receipt::applied(id).code, ReceiptCode::Applied);
    assert_eq!(Receipt::duplicate_applied(id).code, ReceiptCode::DuplicateApplied);
    let rejected = Receipt::rejected(id, ReceiptCode::RejectedWrongTarget, "elsewhere");
    assert_eq!(rejected.message_id, id);
    assert_eq!(rejected.code, ReceiptCode::RejectedWrongTarget);
    assert_eq!(rejected.detail.as_deref(), Some("elsewhere"));
    assert_eq!(rejected.protocol_version, 1);
    assert!(Receipt::new(id, ReceiptCode::Stored, None).detail.is_none());
}

#[test]
fn identifiers_are_written_in_hyphenated_form() {
    let value: u128 = 0x0123_4567_89ab_cdef_0011_2233_4455_6677;
    let expected = "01234567-89ab-cdef-0011-223344556677";
    assert_eq!(DeviceId::from_uuid(value).text(), expected);
    assert_eq!(OfferId::from_uuid(value).text(), expected);
    assert_eq!(MessageId::from_uuid(value).text(), expected);
    assert_eq!(ActivationId::from_uuid(value).text(), expected);
    assert_eq!(OfferId::from_uuid(value).as_uuid(), value);
}

#[test]
fn identifiers_are_read_back_from_their_text() {
    for value in [0u128, 1, u128::MAX, 0xdead_beef_0000_4000_8000_0000_0000_0001] {
        let text = OfferId::from_uuid(value).text();
        assert_eq!(OfferId::from_str(&text), Ok(OfferId::from_uuid(value)));
        assert_eq!(DeviceId::from_str(&text), Ok(DeviceId::from_uuid(value)));
        assert_eq!(MessageId::from_str(&text), Ok(MessageId::from_uuid(value)));
        assert_eq!(ActivationId::from_str(&text), Ok(ActivationId::from_uuid(value)));
    }
    assert_eq!(OfferId::from_str("not an identifier"), Err(IdParseError));
    assert_eq!(DeviceId::from_str(""), Err(IdParseError));
}

#[test]
fn fresh_identifiers_are_random_ones() {
    let a = ActivationId::new().as_uuid();
    let b = ActivationId::default().as_uuid();
    assert_ne!(a, b);
    for v in [a, b, DeviceId::default().as_uuid(), OfferId::default().as_uuid()] {
        assert_eq!((v >> 76) & 0xf, 4);
        assert_eq!((v >> 62) & 0x3, 2);
    }
}

#[test]
fn appending_only_extends_a_preview() {
    let mut text = String::new();
    let mut preview = String::new();
    for piece in ["one", "\n", "\r\n", " two", "\u{7}", "\n", &"é".repeat(200), "tail"] {
        text.push_str(piece);
        let longer = OfferDescriptor::preview(&text);
        assert!(longer.starts_with(&preview));
        preview = longer;
    }
    assert!(preview.starts_with("one  two ") || preview.starts_with("one two "));
    assert!(preview.len() <= 256);
}
