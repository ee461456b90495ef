//! The command line: its arguments, and what it prints of an answer.
use vstd::prelude::*;
use vstd::utf8::{encode_utf8, valid_utf8};

use crate::activation::ActivationMode;
use crate::desktop::ClipboardItem;
use crate::ids::{hyphenated, parsed_uuid, ActivationId, OfferId};
use crate::local_control::{LocalRequest, LocalResponse};
use crate::offer::{DescriptorView, OfferDescriptor, MAX_TEXT_BYTES};
use crate::order::{join_texts, joined};
use crate::payload::text_from_utf8;
use crate::report::MeshSendReport;
use crate::store::OfferCardRecord;
use crate::text::{decimal, decimal_text, join2, join3, opt_view, text_eq, views};

verus! {

/// What the program is asked to do.
#[derive(Debug, Clone, Copy, PartialEq, Eq, Structural)]
pub enum Command {
    Serve,
    Announce,
    Shelf,
    Activate,
    Status,
    ClipboardRead,
    Send,
    Unknown,
}

/// The command of a name.
pub open spec fn named_command(name: Seq<char>) -> Command {
    if name == "serve"@ {
        Command::Serve
    } else if name == "announce"@ {
        Command::Announce
    } else if name == "shelf"@ {
        Command::Shelf
    } else if name == "activate"@ {
        Command::Activate
    } else if name == "status"@ || name == "refresh"@ {
        Command::Status
    } else if name == "clipboard-read"@ || name == "paste-clipboard"@ {
        Command::ClipboardRead
    } else if name == "send"@ {
        Command::Send
    } else {
        Command::Unknown
    }
}

/// The command of a name.
pub fn command_named(name: &str) -> (r: Command)
    ensures
        r == named_command(name@),
{
    if text_eq(name, "serve") {
        Command::Serve
    } else if text_eq(name, "announce") {
        Command::Announce
    } else if text_eq(name, "shelf") {
        Command::Shelf
    } else if text_eq(name, "activate") {
        Command::Activate
    } else if text_eq(name, "status") || text_eq(name, "refresh") {
        Command::Status
    } else if text_eq(name, "clipboard-read") || text_eq(name, "paste-clipboard") {
        Command::ClipboardRead
    } else if text_eq(name, "send") {
        Command::Send
    } else {
        Command::Unknown
    }
}

/// What is printed where the arguments name no command.
#[must_use]
pub fn usage() -> (r: &'static str)
    ensures
        r@ == "usage: meshelfctl [status|refresh|clipboard-read|send|serve|announce|shelf|activate] [--peer NAME_OR_ID]\n  send requires exactly one of --clipboard, --stdin, or --text TEXT\n  announce requires exactly one of --clipboard, --text TEXT, --stdin, or --path PATH\n  activate requires OFFER_ID and optionally --save"@,
{
    "usage: meshelfctl [status|refresh|clipboard-read|send|serve|announce|shelf|activate] [--peer NAME_OR_ID]\n  send requires exactly one of --clipboard, --stdin, or --text TEXT\n  announce requires exactly one of --clipboard, --text TEXT, --stdin, or --path PATH\n  activate requires OFFER_ID and optionally --save"
}

/// Whether an option that no command of this kind takes was given.
pub fn refuse_options(command: &str, args: &Vec<String>) -> (r: Result<(), String>)
    ensures
        r is Ok <==> args@.len() == 0,
        r matches Err(error) ==> error@ == command@ + " does not accept options"@,
{
    if args.len() > 0 {
        return Err(join2(command, " does not accept options"));
    }
    Ok(())
}

/// Refuses to choose a peer for what goes to all of them.
pub fn refuse_selector(selector: &Option<String>) -> (r: Result<(), String>)
    ensures
        r is Err <==> selector is Some,
        r matches Err(error) ==> error@
            == "meshelf sends are mesh-wide; --peer is not supported for send"@,
{
    if selector.is_some() {
        return Err("meshelf sends are mesh-wide; --peer is not supported for send".to_owned());
    }
    Ok(())
}

/// The selected peer, of several the last, and the other arguments; nothing where a
/// selection lacks its value.
pub open spec fn peer_selection(args: Seq<Seq<char>>) -> Option<
    (Option<Seq<char>>, Seq<Seq<char>>),
>
    decreases args.len(),
{
    if args.len() == 0 {
        Some((None, Seq::empty()))
    } else if args[0] == "--peer"@ {
        if args.len() == 1 {
            None
        } else {
            match peer_selection(args.skip(2)) {
                None => None,
                Some((later, rest)) => Some((if later is Some { later } else { Some(args[1]) }, rest)),
            }
        }
    } else {
        match peer_selection(args.skip(1)) {
            None => None,
            Some((later, rest)) => Some((later, seq![args[0]] + rest)),
        }
    }
}

/// What the rest of the arguments adds to what was read of them.
pub open spec fn selection_from(
    args: Seq<Seq<char>>,
    selector: Option<Seq<char>>,
    read: Seq<Seq<char>>,
) -> Option<(Option<Seq<char>>, Seq<Seq<char>>)> {
    match peer_selection(args) {
        None => None,
        Some((later, rest)) => Some((if later is Some { later } else { selector }, read + rest)),
    }
}

/// Takes `--peer` and its value out of the arguments.
pub fn take_peer_selector(args: &Vec<String>) -> (r: Result<(Option<String>, Vec<String>), String>)
    ensures
        match peer_selection(views(args@)) {
            Some((selector, rest)) => r matches Ok((found, remaining)) && opt_view(found)
                == selector && views(remaining@) == rest,
            None => r matches Err(error) && error@ == "--peer requires a hostname or device ID"@,
        },
{
    let ghost all = views(args@);
    let mut selector: Option<String> = None;
    let mut remaining: Vec<String> = Vec::new();
    let mut i: usize = 0;
    proof {
        assert(all.skip(0) =~= all);
        assert(views(remaining@) =~= Seq::<Seq<char>>::empty());
        match peer_selection(all) {
            None => {},
            Some((_, rest)) => {
                assert(Seq::<Seq<char>>::empty() + rest =~= rest);
            },
        }
    }
    while i < args.len()
        invariant
            all == views(args@),
            i <= args@.len(),
            peer_selection(all) == selection_from(
                all.skip(i as int),
                opt_view(selector),
                views(remaining@),
            ),
        decreases args@.len() - i,
    {
        let arg = &args[i];
        let ghost here = all.skip(i as int);
        let ghost before = views(remaining@);
        assert(here[0] == arg@);
        if text_eq(arg.as_str(), "--peer") {
            if i + 1 >= args.len() {
                return Err("--peer requires a hostname or device ID".to_owned());
            }
            assert(here[1] == args@[i + 1]@);
            assert(here.skip(2) =~= all.skip(i + 2));
            selector = Some(args[i + 1].clone());
            i = i + 2;
        } else {
            assert(here.skip(1) =~= all.skip(i + 1));
            remaining.push(arg.clone());
            proof {
                assert(views(remaining@) =~= before.push(arg@));
                match peer_selection(here.skip(1)) {
                    None => {},
                    Some((_, rest)) => {
                        assert(before + (seq![here[0]] + rest) =~= before.push(arg@) + rest);
                    },
                }
            }
            i = i + 1;
        }
    }
    proof {
        assert(all.skip(i as int) =~= Seq::<Seq<char>>::empty());
        assert(views(remaining@) + Seq::<Seq<char>>::empty() =~= views(remaining@));
    }
    Ok((selector, remaining))
}

/// Whether a flag is among the arguments.
pub fn has_flag(args: &Vec<String>, flag: &str) -> (r: bool)
    ensures
        r == views(args@).contains(flag@),
{
    let mut i: usize = 0;
    while i < args.len()
        invariant
            i <= args@.len(),
            forall|k: int| 0 <= k < i ==> (#[trigger] views(args@)[k]) != flag@,
        decreases args@.len() - i,
    {
        assert(views(args@)[i as int] == args@[i as int]@);
        if text_eq(args[i].as_str(), flag) {
            return true;
        }
        i = i + 1;
    }
    false
}

/// Where what is sent comes from; `S` is the type of the texts.
#[derive(Debug)]
pub enum SendSource<S = String> {
    Text(S),
    Stdin,
    Clipboard,
}

impl View for SendSource<String> {
    type V = SendSource<Seq<char>>;

    open spec fn view(&self) -> SendSource<Seq<char>> {
        match *self {
            SendSource::Text(text) => SendSource::Text(text@),
            SendSource::Stdin => SendSource::Stdin,
            SendSource::Clipboard => SendSource::Clipboard,
        }
    }
}

/// The source that the arguments name, or what is wrong with them.
pub open spec fn send_source(
    args: Seq<Seq<char>>,
    chosen: Option<SendSource<Seq<char>>>,
) -> Result<SendSource<Seq<char>>, Seq<char>>
    decreases args.len(),
{
    if args.len() == 0 {
        match chosen {
            Some(source) => Ok(source),
            None => Err("send requires --clipboard, --stdin, or --text"@),
        }
    } else {
        let candidate: Result<(SendSource<Seq<char>>, int), Seq<char>> = if args[0]
            == "--clipboard"@ {
            Ok((SendSource::Clipboard, 1))
        } else if args[0] == "--stdin"@ {
            Ok((SendSource::Stdin, 1))
        } else if args[0] == "--text"@ {
            if args.len() == 1 {
                Err("--text requires a value"@)
            } else {
                Ok((SendSource::Text(args[1]), 2))
            }
        } else {
            Err("unknown send option: "@ + args[0])
        };
        match candidate {
            Err(error) => Err(error),
            Ok((source, used)) => if chosen is Some {
                Err("choose exactly one of --clipboard, --stdin, or --text"@)
            } else if used == 2 {
                send_source(args.skip(2), Some(source))
            } else {
                send_source(args.skip(1), Some(source))
            },
        }
    }
}

pub open spec fn source_result(r: Result<SendSource, String>) -> Result<
    SendSource<Seq<char>>,
    Seq<char>,
> {
    match r {
        Ok(source) => Ok(source@),
        Err(error) => Err(error@),
    }
}

pub open spec fn source_option(o: Option<SendSource>) -> Option<SendSource<Seq<char>>> {
    match o {
        Some(source) => Some(source@),
        None => None,
    }
}

/// Reads the options of `send`: exactly one source.
pub fn parse_send_source(args: &Vec<String>) -> (r: Result<SendSource, String>)
    ensures
        source_result(r) == send_source(views(args@), None),
{
    let ghost all = views(args@);
    let mut source: Option<SendSource> = None;
    let mut i: usize = 0;
    assert(all.skip(0) =~= all);
    while i < args.len()
        invariant
            all == views(args@),
            i <= args@.len(),
            send_source(all, None) == send_source(all.skip(i as int), source_option(source)),
        decreases args@.len() - i,
    {
        let arg = &args[i];
        let ghost here = all.skip(i as int);
        proof {
            reveal_strlit("--clipboard");
            reveal_strlit("--stdin");
            reveal_strlit("--text");
            assert(here[0] == arg@);
            assert(here.skip(1) =~= all.skip(i + 1));
        }
        let candidate: SendSource;
        if text_eq(arg.as_str(), "--clipboard") {
            candidate = SendSource::Clipboard;
            i = i + 1;
        } else if text_eq(arg.as_str(), "--stdin") {
            candidate = SendSource::Stdin;
            i = i + 1;
        } else if text_eq(arg.as_str(), "--text") {
            if i + 1 >= args.len() {
                return Err("--text requires a value".to_owned());
            }
            assert(here[1] == args@[i + 1]@);
            assert(here.skip(2) =~= all.skip(i + 2));
            candidate = SendSource::Text(args[i + 1].clone());
            i = i + 2;
        } else {
            return Err(join2("unknown send option: ", arg.as_str()));
        }
        if source.is_some() {
            return Err("choose exactly one of --clipboard, --stdin, or --text".to_owned());
        }
        source = Some(candidate);
    }
    assert(all.skip(i as int).len() == 0);
    match source {
        Some(source) => Ok(source),
        None => Err("send requires --clipboard, --stdin, or --text".to_owned()),
    }
}

/// Whether `request` announces the path.
pub open spec fn announces_path(request: LocalRequest, path: Seq<char>) -> bool {
    request matches LocalRequest::AnnouncePath { path: p } && p@ == path
}

/// The requests that send what is on the clipboard: one for a text, one for each file.
pub fn clipboard_requests(item: ClipboardItem) -> (r: Vec<LocalRequest>)
    ensures
        match item {
            ClipboardItem::Text(text) => r@ == seq![(LocalRequest::AnnounceText { text })],
            ClipboardItem::Files(paths) => {
                &&& r@.len() == paths@.len()
                &&& forall|i: int|
                    0 <= i < paths@.len() ==> announces_path(#[trigger] r@[i], paths@[i]@)
            },
        },
{
    match item {
        ClipboardItem::Text(text) => {
            let mut requests: Vec<LocalRequest> = Vec::new();
            requests.push(LocalRequest::AnnounceText { text });
            assert(requests@ =~= seq![(LocalRequest::AnnounceText { text })]);
            requests
        },
        ClipboardItem::Files(paths) => {
            let mut requests: Vec<LocalRequest> = Vec::new();
            let mut i: usize = 0;
            while i < paths.len()
                invariant
                    i <= paths@.len(),
                    requests@.len() == i,
                    forall|k: int|
                        0 <= k < i ==> announces_path(#[trigger] requests@[k], paths@[k]@),
                decreases paths@.len() - i,
            {
                requests.push(LocalRequest::AnnouncePath { path: paths[i].clone() });
                i = i + 1;
            }
            requests
        },
    }
}

/// The text that was read from the standard input, unless it is too long or no text.
pub fn read_bounded_stdin(bytes: Vec<u8>) -> (r: Result<String, String>)
    ensures
        if bytes@.len() > MAX_TEXT_BYTES {
            r matches Err(error) && error@ == "stdin text exceeds the 1 MiB meshelf limit"@
        } else if !valid_utf8(bytes@) {
            r matches Err(error) && error@ == "stdin is not valid UTF-8"@
        } else {
            r matches Ok(text) && encode_utf8(text@) == bytes@
        },
{
    if bytes.len() > MAX_TEXT_BYTES {
        return Err("stdin text exceeds the 1 MiB meshelf limit".to_owned());
    }
    match text_from_utf8(bytes) {
        Some(text) => Ok(text),
        None => Err("stdin is not valid UTF-8".to_owned()),
    }
}

/// What is announced; `S` is the type of the texts.
#[derive(Debug)]
pub enum AnnounceSource<S = String> {
    Text(S),
    Path(S),
}

impl View for AnnounceSource<String> {
    type V = AnnounceSource<Seq<char>>;

    open spec fn view(&self) -> AnnounceSource<Seq<char>> {
        match *self {
            AnnounceSource::Text(text) => AnnounceSource::Text(text@),
            AnnounceSource::Path(path) => AnnounceSource::Path(path@),
        }
    }
}

impl AnnounceSource<String> {
    /// The request that announces it.
    pub fn request(self) -> (r: LocalRequest)
        ensures
            r == match self {
                AnnounceSource::Text(text) => (LocalRequest::AnnounceText { text }),
                AnnounceSource::Path(path) => (LocalRequest::AnnouncePath { path }),
            },
    {
        match self {
            AnnounceSource::Text(text) => LocalRequest::AnnounceText { text },
            AnnounceSource::Path(path) => LocalRequest::AnnouncePath { path },
        }
    }
}

/// Where the reading of the options of `announce` stands: something is to be read
/// first, the options are read, or something is wrong with them.
#[derive(Debug)]
pub enum AnnounceStep<S = String> {
    /// The options from `next` on are still to be read.
    ReadClipboard { next: usize, chosen: Option<AnnounceSource<S>> },
    ReadStdin { next: usize, chosen: Option<AnnounceSource<S>> },
    Announce(AnnounceSource<S>),
    Fail(S),
}

pub open spec fn announce_option(o: Option<AnnounceSource>) -> Option<AnnounceSource<Seq<char>>> {
    match o {
        Some(source) => Some(source@),
        None => None,
    }
}

impl View for AnnounceStep<String> {
    type V = AnnounceStep<Seq<char>>;

    open spec fn view(&self) -> AnnounceStep<Seq<char>> {
        match *self {
            AnnounceStep::ReadClipboard { next, chosen } => AnnounceStep::ReadClipboard {
                next,
                chosen: announce_option(chosen),
            },
            AnnounceStep::ReadStdin { next, chosen } => AnnounceStep::ReadStdin {
                next,
                chosen: announce_option(chosen),
            },
            AnnounceStep::Announce(source) => AnnounceStep::Announce(source@),
            AnnounceStep::Fail(error) => AnnounceStep::Fail(error@),
        }
    }
}

/// The step after the options before `next` were read.
pub open spec fn announce_from(
    args: Seq<Seq<char>>,
    next: int,
    chosen: Option<AnnounceSource<Seq<char>>>,
) -> AnnounceStep<Seq<char>>
    decreases args.len() - next,
{
    if next >= args.len() || next < 0 {
        match chosen {
            Some(source) => AnnounceStep::Announce(source),
            None => AnnounceStep::Fail(
                "announce requires --clipboard, --text, --stdin, or --path"@,
            ),
        }
    } else if args[next] == "--clipboard"@ {
        AnnounceStep::ReadClipboard { next: (next + 1) as usize, chosen }
    } else if args[next] == "--stdin"@ {
        AnnounceStep::ReadStdin { next: (next + 1) as usize, chosen }
    } else if args[next] == "--text"@ {
        if next + 1 >= args.len() {
            AnnounceStep::Fail("--text requires a value"@)
        } else if chosen is Some {
            AnnounceStep::Fail("choose exactly one of --text, --stdin, or --path"@)
        } else {
            announce_from(args, next + 2, Some(AnnounceSource::Text(args[next + 1])))
        }
    } else if args[next] == "--path"@ {
        if next + 1 >= args.len() {
            AnnounceStep::Fail("--path requires a value"@)
        } else if chosen is Some {
            AnnounceStep::Fail("choose exactly one of --text, --stdin, or --path"@)
        } else {
            announce_from(args, next + 2, Some(AnnounceSource::Path(args[next + 1])))
        }
    } else {
        AnnounceStep::Fail("unknown announce option: "@ + args[next])
    }
}

/// The step after what the option before `next` names was read.
pub open spec fn announce_after(
    args: Seq<Seq<char>>,
    next: int,
    chosen: Option<AnnounceSource<Seq<char>>>,
    candidate: AnnounceSource<Seq<char>>,
) -> AnnounceStep<Seq<char>> {
    if chosen is Some {
        AnnounceStep::Fail("choose exactly one of --text, --stdin, or --path"@)
    } else {
        announce_from(args, next, Some(candidate))
    }
}

/// Reads the options of `announce`: exactly one source.
pub fn parse_announce(args: &Vec<String>) -> (r: AnnounceStep)
    ensures
        r@ == announce_from(views(args@), 0, None),
{
    read_announce(args, 0, None)
}

fn read_announce(args: &Vec<String>, next: usize, chosen: Option<AnnounceSource>) -> (r:
    AnnounceStep)
    requires
        next <= args@.len(),
    ensures
        r@ == announce_from(views(args@), next as int, announce_option(chosen)),
    decreases args@.len() - next,
{
    proof {
        reveal_strlit("--clipboard");
        reveal_strlit("--stdin");
        reveal_strlit("--text");
        reveal_strlit("--path");
    }
    let n: usize = args.len();
    if next >= n {
        return match chosen {
            Some(source) => AnnounceStep::Announce(source),
            None => AnnounceStep::Fail(
                "announce requires --clipboard, --text, --stdin, or --path".to_owned(),
            ),
        };
    }
    let arg = &args[next];
    assert(views(args@)[next as int] == arg@);
    if text_eq(arg.as_str(), "--clipboard") {
        return AnnounceStep::ReadClipboard { next: next + 1, chosen };
    }
    if text_eq(arg.as_str(), "--stdin") {
        return AnnounceStep::ReadStdin { next: next + 1, chosen };
    }
    let is_text = text_eq(arg.as_str(), "--text");
    if !is_text && !text_eq(arg.as_str(), "--path") {
        return AnnounceStep::Fail(join2("unknown announce option: ", arg.as_str()));
    }
    if n - next <= 1 {
        return AnnounceStep::Fail(
            if is_text {
                "--text requires a value".to_owned()
            } else {
                "--path requires a value".to_owned()
            },
        );
    }
    if chosen.is_some() {
        return AnnounceStep::Fail(
            "choose exactly one of --text, --stdin, or --path".to_owned(),
        );
    }
    let value = args[next + 1].clone();
    assert(views(args@)[next + 1] == value@);
    let source = if is_text {
        AnnounceSource::Text(value)
    } else {
        AnnounceSource::Path(value)
    };
    read_announce(args, next + 2, Some(source))
}

/// Takes up the options again once what one of them names was read.
pub fn resume_announce(
    args: &Vec<String>,
    next: usize,
    chosen: Option<AnnounceSource>,
    candidate: AnnounceSource,
) -> (r: AnnounceStep)
    requires
        next <= args@.len(),
    ensures
        r@ == announce_after(views(args@), next as int, announce_option(chosen), candidate@),
{
    if chosen.is_some() {
        return AnnounceStep::Fail(
            "choose exactly one of --text, --stdin, or --path".to_owned(),
        );
    }
    read_announce(args, next, Some(candidate))
}

/// What is announced from the clipboard: its text, or its one file or folder.
pub fn clipboard_source(item: ClipboardItem) -> (r: Result<AnnounceSource, String>)
    ensures
        match item {
            ClipboardItem::Text(text) => r == Ok::<AnnounceSource, String>(
                AnnounceSource::Text(text),
            ),
            ClipboardItem::Files(paths) => if paths@.len() == 1 {
                r matches Ok(AnnounceSource::Path(path)) && path@ == paths@[0]@
            } else {
                r matches Err(error) && error@
                    == "announce --clipboard requires one file or folder; clipboard contains "@
                    + decimal(paths@.len())
            },
        },
{
    match item {
        ClipboardItem::Text(text) => Ok(AnnounceSource::Text(text)),
        ClipboardItem::Files(paths) => {
            let n: usize = paths.len();
            if n == 1 {
                Ok(AnnounceSource::Path(paths[0].clone()))
            } else {
                Err(
                    join2(
                        "announce --clipboard requires one file or folder; clipboard contains ",
                        decimal_text(n as u64).as_str(),
                    ),
                )
            }
        },
    }
}

/// The name of the first argument of `activate`, and the mode that the others choose.
pub open spec fn activate_error(args: Seq<Seq<char>>) -> Option<Seq<char>> {
    if args.len() == 0 {
        Some("activate requires OFFER_ID"@)
    } else if parsed_uuid(args[0]) is None {
        Some("OFFER_ID is not a valid offer ID"@)
    } else {
        unknown_option(args, 1)
    }
}

/// The complaint about the first option from `i` on that `activate` does not know.
pub open spec fn unknown_option(args: Seq<Seq<char>>, i: int) -> Option<Seq<char>>
    decreases args.len() - i,
{
    if i < 0 || i >= args.len() {
        None
    } else if args[i] == "--save"@ {
        unknown_option(args, i + 1)
    } else {
        Some("unknown activate option: "@ + args[i])
    }
}

/// Reads the arguments of `activate`.
pub fn parse_activate(args: &Vec<String>) -> (r: Result<(OfferId, ActivationMode), String>)
    ensures
        match activate_error(views(args@)) {
            Some(text) => r matches Err(error) && error@ == text,
            None => r matches Ok((offer_id, mode)) && {
                &&& parsed_uuid(args@[0]@) == Some(offer_id.0)
                &&& mode == if args@.len() > 1 {
                    ActivationMode::Save
                } else {
                    ActivationMode::Clipboard
                }
            },
        },
{
    let n: usize = args.len();
    if n == 0 {
        return Err("activate requires OFFER_ID".to_owned());
    }
    assert(views(args@)[0] == args@[0]@);
    let offer_id = match OfferId::from_str(args[0].as_str()) {
        Ok(offer_id) => offer_id,
        Err(_) => {
            return Err("OFFER_ID is not a valid offer ID".to_owned());
        },
    };
    let mut mode = ActivationMode::Clipboard;
    let mut i: usize = 1;
    while i < n
        invariant
            n == args@.len(),
            1 <= i <= n,
            parsed_uuid(views(args@)[0]) == Some(offer_id.0),
            unknown_option(views(args@), 1) == unknown_option(views(args@), i as int),
            mode == if i > 1 {
                ActivationMode::Save
            } else {
                ActivationMode::Clipboard
            },
        decreases n - i,
    {
        assert(views(args@)[i as int] == args@[i as int]@);
        if !text_eq(args[i].as_str(), "--save") {
            return Err(join2("unknown activate option: ", args[i].as_str()));
        }
        mode = ActivationMode::Save;
        i = i + 1;
    }
    Ok((offer_id, mode))
}

/// The word for the kind of an offer.
#[must_use]
pub fn descriptor_kind(descriptor: &OfferDescriptor) -> (r: &'static str)
    ensures
        r@ == kind_word(descriptor@),
{
    match descriptor {
        OfferDescriptor::Text { .. } => "text",
        OfferDescriptor::File { .. } => "file",
        OfferDescriptor::Folder { .. } => "folder",
    }
}

pub open spec fn kind_word(descriptor: DescriptorView) -> Seq<char> {
    match descriptor {
        DescriptorView::Text { .. } => "text"@,
        DescriptorView::File { .. } => "file"@,
        DescriptorView::Folder { .. } => "folder"@,
    }
}

/// The line that is printed for a card.
pub open spec fn card_text(card: OfferCardRecord) -> Seq<char> {
    hyphenated(card.offer_id.0) + "\t"@ + hyphenated(card.source_device.0) + "\t"@ + kind_word(
        card.descriptor@,
    )
}

/// The line that is printed for a card.
#[must_use]
pub fn card_line(card: &OfferCardRecord) -> (r: String)
    ensures
        r@ == card_text(*card),
{
    let ids = join3(card.offer_id.text().as_str(), "\t", card.source_device.text().as_str());
    join3(ids.as_str(), "\t", descriptor_kind(&card.descriptor))
}

/// Why there is nothing to print of an answer.
#[derive(Debug)]
pub enum ReplyError {
    Message(String),
    /// An answer to something else.
    Unexpected(LocalResponse),
}

/// What is printed of the answer to an announcement.
pub fn announce_reply(response: LocalResponse) -> (r: Result<String, ReplyError>)
    ensures
        match response {
            LocalResponse::OfferCreated { offer_id, announcements, .. } => r matches Ok(text)
                && text@ == "Announced offer "@ + hyphenated(offer_id.0) + " to "@ + decimal(
                announcements@.len(),
            ) + " paired device(s)"@,
            LocalResponse::NoPeers => r matches Err(ReplyError::Message(text)) && text@
                == "no other meshelf device is paired"@,
            LocalResponse::Error { message } => r == Err::<String, ReplyError>(
                ReplyError::Message(message),
            ),
            _ => r == Err::<String, ReplyError>(ReplyError::Unexpected(response)),
        },
{
    match response {
        LocalResponse::OfferCreated { offer_id, announcements, .. } => {
            let n: usize = announcements.len();
            let head = join3("Announced offer ", offer_id.text().as_str(), " to ");
            Ok(join3(head.as_str(), decimal_text(n as u64).as_str(), " paired device(s)"))
        },
        LocalResponse::NoPeers => Err(
            ReplyError::Message("no other meshelf device is paired".to_owned()),
        ),
        LocalResponse::Error { message } => Err(ReplyError::Message(message)),
        other => Err(ReplyError::Unexpected(other)),
    }
}

/// What is printed of the answer to a request for the shelf: a line for each card.
pub fn shelf_reply(response: LocalResponse) -> (r: Result<Vec<String>, ReplyError>)
    ensures
        match response {
            LocalResponse::Shelf { offers } => r matches Ok(lines) && lines@.len() == offers@.len()
                && forall|i: int|
                0 <= i < offers@.len() ==> (#[trigger] lines@[i])@ == card_text(offers@[i]),
            LocalResponse::Error { message } => r == Err::<Vec<String>, ReplyError>(
                ReplyError::Message(message),
            ),
            _ => r == Err::<Vec<String>, ReplyError>(ReplyError::Unexpected(response)),
        },
{
    match response {
        LocalResponse::Shelf { offers } => {
            let mut lines: Vec<String> = Vec::new();
            let mut i: usize = 0;
            while i < offers.len()
                invariant
                    i <= offers@.len(),
                    lines@.len() == i,
                    forall|k: int|
                        0 <= k < i ==> (#[trigger] lines@[k])@ == card_text(offers@[k]),
                decreases offers@.len() - i,
            {
                lines.push(card_line(&offers[i]));
                i = i + 1;
            }
            Ok(lines)
        },
        LocalResponse::Error { message } => Err(ReplyError::Message(message)),
        other => Err(ReplyError::Unexpected(other)),
    }
}

/// The activation that the resident process took on, or why it did not.
pub fn activate_reply(response: LocalResponse) -> (r: Result<
    (ActivationId, OfferId, ActivationMode),
    ReplyError,
>)
    ensures
        match response {
            LocalResponse::ActivationStarted { activation_id, offer_id, mode } => r == Ok::<
                (ActivationId, OfferId, ActivationMode),
                ReplyError,
            >((activation_id, offer_id, mode)),
            LocalResponse::ActivationRefused { message } => r == Err::<
                (ActivationId, OfferId, ActivationMode),
                ReplyError,
            >(ReplyError::Message(message)),
            LocalResponse::Error { message } => r == Err::<
                (ActivationId, OfferId, ActivationMode),
                ReplyError,
            >(ReplyError::Message(message)),
            _ => r == Err::<(ActivationId, OfferId, ActivationMode), ReplyError>(
                ReplyError::Unexpected(response),
            ),
        },
{
    match response {
        LocalResponse::ActivationStarted { activation_id, offer_id, mode } => Ok(
            (activation_id, offer_id, mode),
        ),
        LocalResponse::ActivationRefused { message } => Err(ReplyError::Message(message)),
        LocalResponse::Error { message } => Err(ReplyError::Message(message)),
        other => Err(ReplyError::Unexpected(other)),
    }
}

/// What a resident process without a window says of an announcement.
pub fn headless_announce(report: &MeshSendReport) -> (r: Result<(), String>)
    ensures
        r is Ok <==> report.stored_on@.len() > 0,
        r matches Err(error) ==> error@ == "offer was not stored on any peer"@ + if
            report.unavailable@.len() == 0 {
            Seq::empty()
        } else {
            ": unavailable "@ + joined(views(report.unavailable@), ", "@)
        },
{
    if report.stored_on.len() > 0 {
        return Ok(());
    }
    if report.unavailable.len() == 0 {
        let text = "offer was not stored on any peer".to_owned();
        assert(text@ + Seq::<char>::empty() =~= text@);
        return Err(text);
    }
    let tail = join2(": unavailable ", join_texts(&report.unavailable, ", ").as_str());
    Err(join2("offer was not stored on any peer", tail.as_str()))
}

} // verus!
