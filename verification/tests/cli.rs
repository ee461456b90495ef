use meshelf::activation::ActivationMode;
use meshelf::cli::{
    activate_reply, announce_reply, card_line, clipboard_requests, clipboard_source,
    command_named, descriptor_kind, has_flag, headless_announce, parse_activate, parse_announce,
    parse_send_source, read_bounded_stdin, refuse_options, refuse_selector, resume_announce,
    shelf_reply, take_peer_selector, usage, AnnounceSource, AnnounceStep, Command, ReplyError,
    SendSource,
};
use meshelf::desktop::ClipboardItem;
use meshelf::ids::{ActivationId, DeviceId, OfferId};
use meshelf::local_control::{LocalRequest, LocalResponse};
use meshelf::offer::{CardAvailability, OfferDescriptor};
use meshelf::report::MeshSendReport;
use meshelf::store::OfferCardRecord;

fn args(list: &[&str]) -> Vec<String> {
    list.iter().map(|arg| (*arg).to_owned()).collect()
}

#[test]
fn commands_are_known_by_name() {
    for (name, command) in [
        ("serve", Command::Serve),
        ("announce", Command::Announce),
        ("shelf", Command::Shelf),
        ("activate", Command::Activate),
        ("status", Command::Status),
        ("refresh", Command::Status),
        ("clipboard-read", Command::ClipboardRead),
        ("paste-clipboard", Command::ClipboardRead),
        ("send", Command::Send),
        ("Send", Command::Unknown),
        ("", Command::Unknown),
    ] {
        assert_eq!(command_named(name), command, "{name}");
    }
    assert!(usage().starts_with("usage: meshelfctl [status|refresh|"));
}

#[test]
fn the_peer_is_taken_out_of_the_arguments() {
    let (peer, rest) = take_peer_selector(&args(&["a", "--peer", "x", "b", "--peer", "y"]))
        .expect("arguments");
    assert_eq!(peer.as_deref(), Some("y"));
    assert_eq!(rest, ["a", "b"]);
    let (peer, rest) = take_peer_selector(&args(&["--peer", "--peer"])).expect("arguments");
    assert_eq!(peer.as_deref(), Some("--peer"));
    assert!(rest.is_empty());
    let (peer, rest) = take_peer_selector(&args(&["--json"])).expect("arguments");
    assert!(peer.is_none());
    assert!(has_flag(&rest, "--json"));
    assert!(!has_flag(&rest, "--jso"));
    assert_eq!(
        take_peer_selector(&args(&["x", "--peer"])).expect_err("no value"),
        "--peer requires a hostname or device ID"
    );
    assert_eq!(
        refuse_selector(&Some("x".to_owned())).expect_err("selector"),
        "meshelf sends are mesh-wide; --peer is not supported for send"
    );
    assert!(refuse_selector(&None).is_ok());
    assert_eq!(
        refuse_options("shelf", &args(&["x"])).expect_err("option"),
        "shelf does not accept options"
    );
    assert!(refuse_options("serve", &Vec::new()).is_ok());
}

#[test]
fn send_takes_exactly_one_source() {
    let parse = |list: &[&str]| parse_send_source(&args(list));
    assert!(matches!(parse(&["--clipboard"]), Ok(SendSource::Clipboard)));
    assert!(matches!(parse(&["--stdin"]), Ok(SendSource::Stdin)));
    assert!(matches!(parse(&["--text", "--stdin"]), Ok(SendSource::Text(text)) if text == "--stdin"));
    for (list, error) in [
        (vec![], "send requires --clipboard, --stdin, or --text"),
        (vec!["--text"], "--text requires a value"),
        (vec!["--file"], "unknown send option: --file"),
        (
            vec!["--stdin", "--clipboard"],
            "choose exactly one of --clipboard, --stdin, or --text",
        ),
        (vec!["--stdin", "--text"], "--text requires a value"),
        (vec!["--stdin", "--other"], "unknown send option: --other"),
    ] {
        assert_eq!(parse(&list).expect_err("refused"), error);
    }
}

#[test]
fn announce_reads_its_source_when_it_meets_it() {
    let list = args(&["--clipboard", "--path", "/x"]);
    let AnnounceStep::ReadClipboard { next, chosen } = parse_announce(&list) else {
        panic!("expected the clipboard");
    };
    assert_eq!(next, 1);
    let source = clipboard_source(ClipboardItem::Text("t".to_owned())).expect("text");
    assert!(matches!(
        resume_announce(&list, next, chosen, source),
        AnnounceStep::Fail(error) if error == "choose exactly one of --text, --stdin, or --path"
    ));
    let list = args(&["--stdin"]);
    let AnnounceStep::ReadStdin { next, chosen } = parse_announce(&list) else {
        panic!("expected the standard input");
    };
    let AnnounceStep::Announce(source) =
        resume_announce(&list, next, chosen, AnnounceSource::Text("in".to_owned()))
    else {
        panic!("expected a source");
    };
    assert!(matches!(source.request(), LocalRequest::AnnounceText { text } if text == "in"));
    let AnnounceStep::Announce(source) = parse_announce(&args(&["--path", "/x"])) else {
        panic!("expected a source");
    };
    assert!(matches!(source.request(), LocalRequest::AnnouncePath { path } if path == "/x"));
}

#[test]
fn each_fault_in_the_announce_options_is_named() {
    for (list, error) in [
        (vec![], "announce requires --clipboard, --text, --stdin, or --path"),
        (vec!["--text"], "--text requires a value"),
        (vec!["--path"], "--path requires a value"),
        (vec!["--bogus"], "unknown announce option: --bogus"),
        (vec!["--text", "a", "--text", "b"], "choose exactly one of --text, --stdin, or --path"),
    ] {
        assert!(
            matches!(parse_announce(&args(&list)), AnnounceStep::Fail(text) if text == error),
            "{error}"
        );
    }
    assert_eq!(
        clipboard_source(ClipboardItem::Files(args(&["/a", "/b"]))).expect_err("two"),
        "announce --clipboard requires one file or folder; clipboard contains 2"
    );
    assert!(matches!(
        clipboard_source(ClipboardItem::Files(args(&["/a"]))),
        Ok(AnnounceSource::Path(path)) if path == "/a"
    ));
}

#[test]
fn a_clipboard_of_files_sends_each() {
    let requests = clipboard_requests(ClipboardItem::Files(args(&["/a", "/b"])));
    assert_eq!(requests.len(), 2);
    assert!(matches!(&requests[1], LocalRequest::AnnouncePath { path } if path == "/b"));
    let requests = clipboard_requests(ClipboardItem::Text("t".to_owned()));
    assert!(matches!(&requests[..], [LocalRequest::AnnounceText { text }] if text == "t"));
}

#[test]
fn standard_input_is_bounded() {
    assert_eq!(read_bounded_stdin("héllo".as_bytes().to_vec()).expect("text"), "héllo");
    assert_eq!(read_bounded_stdin(vec![b'a'; 1_048_576]).expect("text").len(), 1_048_576);
    assert_eq!(
        read_bounded_stdin(vec![b'a'; 1_048_577]).expect_err("too long"),
        "stdin text exceeds the 1 MiB meshelf limit"
    );
    assert_eq!(
        read_bounded_stdin(vec![b'a', 0xff]).expect_err("no text"),
        "stdin is not valid UTF-8"
    );
    assert_eq!(
        read_bounded_stdin(vec![0xff; 1_048_577]).expect_err("too long"),
        "stdin text exceeds the 1 MiB meshelf limit"
    );
}

#[test]
fn activate_reads_an_offer_and_a_mode() {
    let id = OfferId::from_uuid(0x4000_8000).text();
    assert_eq!(
        parse_activate(&args(&[&id])).expect("clipboard"),
        (OfferId::from_uuid(0x4000_8000), ActivationMode::Clipboard)
    );
    assert_eq!(
        parse_activate(&args(&[&id, "--save", "--save"])).expect("save").1,
        ActivationMode::Save
    );
    for (list, error) in [
        (vec![], "activate requires OFFER_ID"),
        (vec!["x"], "OFFER_ID is not a valid offer ID"),
        (vec![id.as_str(), "--save", "--now"], "unknown activate option: --now"),
    ] {
        assert_eq!(parse_activate(&args(&list)).expect_err("refused"), error);
    }
}

fn card() -> OfferCardRecord {
    OfferCardRecord {
        source_device: DeviceId::from_uuid(2),
        offer_id: OfferId::from_uuid(1),
        descriptor: OfferDescriptor::File { root_name: "f".to_owned(), total_bytes: 1 },
        received_sequence: 1,
        availability: CardAvailability::Available,
        last_attempt: None,
    }
}

#[test]
fn answers_are_printed() {
    let line = "00000000-0000-0000-0000-000000000001\t00000000-0000-0000-0000-000000000002\tfile";
    assert_eq!(card_line(&card()), line);
    assert_eq!(descriptor_kind(&OfferDescriptor::text("x").expect("text")), "text");
    assert_eq!(
        shelf_reply(LocalResponse::Shelf { offers: vec![card()] }).expect("shelf"),
        [line]
    );
    let created = LocalResponse::OfferCreated {
        offer_id: OfferId::from_uuid(1),
        descriptor: OfferDescriptor::text("x").expect("text"),
        announcements: Vec::new(),
    };
    assert_eq!(
        announce_reply(created).expect("created"),
        "Announced offer 00000000-0000-0000-0000-000000000001 to 0 paired device(s)"
    );
    assert!(matches!(
        announce_reply(LocalResponse::NoPeers),
        Err(ReplyError::Message(text)) if text == "no other meshelf device is paired"
    ));
    assert!(matches!(
        announce_reply(LocalResponse::RefusalRecorded),
        Err(ReplyError::Unexpected(LocalResponse::RefusalRecorded))
    ));
    assert!(matches!(
        shelf_reply(LocalResponse::Error { message: "m".to_owned() }),
        Err(ReplyError::Message(text)) if text == "m"
    ));
    let started = LocalResponse::ActivationStarted {
        activation_id: ActivationId::from_uuid(3),
        offer_id: OfferId::from_uuid(1),
        mode: ActivationMode::Save,
    };
    assert_eq!(
        activate_reply(started).expect("started"),
        (ActivationId::from_uuid(3), OfferId::from_uuid(1), ActivationMode::Save)
    );
    assert!(matches!(
        activate_reply(LocalResponse::ActivationRefused { message: "busy".to_owned() }),
        Err(ReplyError::Message(text)) if text == "busy"
    ));
    assert!(matches!(
        activate_reply(LocalResponse::NoPeers),
        Err(ReplyError::Unexpected(LocalResponse::NoPeers))
    ));
}

#[test]
fn an_announcement_without_a_taker_fails() {
    let report = |stored: &[&str], unavailable: &[&str]| MeshSendReport {
        stored_on: args(stored),
        unavailable: args(unavailable),
        version_mismatch: Vec::new(),
    };
    assert!(headless_announce(&report(&["A"], &["B"])).is_ok());
    assert_eq!(
        headless_announce(&report(&[], &["B", "C"])).expect_err("nobody"),
        "offer was not stored on any peer: unavailable B, C"
    );
    assert_eq!(
        headless_announce(&report(&[], &[])).expect_err("nobody"),
        "offer was not stored on any peer"
    );
}
