//! Failures while a receiver reads what an origin sends.
use vstd::prelude::*;

use crate::net_error::NetError;
use crate::text::{longest_prefix, truncate_utf8};
use crate::wire::{FetchAbort, FetchAbortCode};

verus! {

/// The kinds of input and output errors that decisions rest on.
#[derive(Debug, Clone, Copy, PartialEq, Eq, Structural)]
pub enum IoKind {
    UnexpectedEof,
    ConnectionReset,
    BrokenPipe,
    ConnectionAborted,
    NotConnected,
    NotFound,
    AlreadyExists,
    DirectoryNotEmpty,
    Other,
}

/// Whether an error of this kind means that the peer is gone.
pub open spec fn disconnects(kind: IoKind) -> bool {
    ||| kind is UnexpectedEof
    ||| kind is ConnectionReset
    ||| kind is BrokenPipe
    ||| kind is ConnectionAborted
    ||| kind is NotConnected
}

/// Whether an error of this kind means that the peer is gone.
#[must_use]
pub fn is_disconnect_io(kind: IoKind) -> (r: bool)
    ensures
        r == disconnects(kind),
{
    matches!(
        kind,
        IoKind::UnexpectedEof | IoKind::ConnectionReset | IoKind::BrokenPipe
            | IoKind::ConnectionAborted | IoKind::NotConnected
    )
}

/// Why nothing was read; `S` is the type of its texts.
#[derive(Debug)]
pub enum ReadFault<S = String> {
    /// The activation was cancelled here.
    Cancelled,
    TimedOut,
    Io { kind: IoKind, text: S },
    /// What came is not a message of the protocol.
    Protocol(S),
}

impl View for ReadFault<String> {
    type V = ReadFault<Seq<char>>;

    open spec fn view(&self) -> ReadFault<Seq<char>> {
        match *self {
            ReadFault::Cancelled => ReadFault::Cancelled,
            ReadFault::TimedOut => ReadFault::TimedOut,
            ReadFault::Io { kind, text } => ReadFault::Io { kind, text: text@ },
            ReadFault::Protocol(s) => ReadFault::Protocol(s@),
        }
    }
}

/// How receiving failed, with what had arrived by then; `S` is the type of its texts.
#[allow(inconsistent_fields)]
#[derive(Debug)]
pub enum ReceiveFailure<S = String> {
    Disconnected { files: u32, bytes: u64 },
    LocalCancelled { files: u32, bytes: u64 },
    Aborted { code: FetchAbortCode, files: u32, bytes: u64 },
    Verification { files: u32, bytes: u64, detail: S },
    Protocol { files: u32, bytes: u64, detail: S },
    LocalIo { files: u32, bytes: u64, detail: S },
    Io(NetError<S>),
}

impl View for ReceiveFailure<String> {
    type V = ReceiveFailure<Seq<char>>;

    open spec fn view(&self) -> ReceiveFailure<Seq<char>> {
        match *self {
            ReceiveFailure::Disconnected { files, bytes } => ReceiveFailure::Disconnected {
                files,
                bytes,
            },
            ReceiveFailure::LocalCancelled { files, bytes } => ReceiveFailure::LocalCancelled {
                files,
                bytes,
            },
            ReceiveFailure::Aborted { code, files, bytes } => ReceiveFailure::Aborted {
                code,
                files,
                bytes,
            },
            ReceiveFailure::Verification { files, bytes, detail } =>
                ReceiveFailure::Verification { files, bytes, detail: detail@ },
            ReceiveFailure::Protocol { files, bytes, detail } => ReceiveFailure::Protocol {
                files,
                bytes,
                detail: detail@,
            },
            ReceiveFailure::LocalIo { files, bytes, detail } => ReceiveFailure::LocalIo {
                files,
                bytes,
                detail: detail@,
            },
            ReceiveFailure::Io(error) => ReceiveFailure::Io(error@),
        }
    }
}

/// What a fault while a control message is read amounts to.
pub open spec fn control_failure(
    fault: ReadFault<Seq<char>>,
    files: u32,
    bytes: u64,
) -> ReceiveFailure<Seq<char>> {
    match fault {
        ReadFault::Cancelled => ReceiveFailure::LocalCancelled { files, bytes },
        ReadFault::TimedOut => ReceiveFailure::Io(NetError::Timeout("read fetch control"@)),
        ReadFault::Io { kind, text } => if disconnects(kind) {
            ReceiveFailure::Disconnected { files, bytes }
        } else {
            ReceiveFailure::Io(NetError::Io(text))
        },
        ReadFault::Protocol(detail) => ReceiveFailure::Protocol { files, bytes, detail },
    }
}

/// Maps a fault while a control message is read.
pub fn protocol_read_failure(fault: ReadFault, files: u32, bytes: u64) -> (r: ReceiveFailure)
    ensures
        r@ == control_failure(fault@, files, bytes),
{
    match fault {
        ReadFault::Cancelled => ReceiveFailure::LocalCancelled { files, bytes },
        ReadFault::TimedOut => ReceiveFailure::Io(
            NetError::Timeout("read fetch control".to_owned()),
        ),
        ReadFault::Io { kind, text } => if is_disconnect_io(kind) {
            ReceiveFailure::Disconnected { files, bytes }
        } else {
            ReceiveFailure::Io(NetError::Io(text))
        },
        ReadFault::Protocol(detail) => ReceiveFailure::Protocol { files, bytes, detail },
    }
}

/// What a fault while raw content is read amounts to; `during` names the reading.
pub open spec fn content_failure(
    fault: ReadFault<Seq<char>>,
    during: Seq<char>,
    files: u32,
    bytes: u64,
) -> ReceiveFailure<Seq<char>> {
    match fault {
        ReadFault::Cancelled => ReceiveFailure::LocalCancelled { files, bytes },
        ReadFault::TimedOut => ReceiveFailure::Io(NetError::Timeout(during)),
        ReadFault::Io { text, .. } => ReceiveFailure::Io(NetError::Io(text)),
        ReadFault::Protocol(detail) => ReceiveFailure::Protocol { files, bytes, detail },
    }
}

/// Maps a fault while raw content is read.
pub fn content_read_failure(fault: ReadFault, during: &str, files: u32, bytes: u64) -> (r:
    ReceiveFailure)
    ensures
        r@ == content_failure(fault@, during@, files, bytes),
{
    match fault {
        ReadFault::Cancelled => ReceiveFailure::LocalCancelled { files, bytes },
        ReadFault::TimedOut => ReceiveFailure::Io(NetError::Timeout(during.to_owned())),
        ReadFault::Io { text, .. } => ReceiveFailure::Io(NetError::Io(text)),
        ReadFault::Protocol(detail) => ReceiveFailure::Protocol { files, bytes, detail },
    }
}

/// The failure that an origin's abort stands for.
pub open spec fn aborted(abort: FetchAbort) -> ReceiveFailure<Seq<char>> {
    ReceiveFailure::Aborted {
        code: abort.code,
        files: abort.files_sent,
        bytes: abort.bytes_sent,
    }
}

/// The failure that an origin's abort stands for.
pub fn abort_failure(abort: FetchAbort) -> (r: ReceiveFailure)
    ensures
        r@ == aborted(abort),
{
    ReceiveFailure::Aborted {
        code: abort.code,
        files: abort.files_sent,
        bytes: abort.bytes_sent,
    }
}

/// A failed check, with what had arrived by then.
pub fn verification(files: u32, bytes: u64, detail: &str) -> (r: ReceiveFailure)
    ensures
        r@ == (ReceiveFailure::Verification { files, bytes, detail: detail@ }),
{
    ReceiveFailure::Verification { files, bytes, detail: detail.to_owned() }
}

/// The most bytes of a detail that is shown or recorded.
pub const SAFE_DETAIL_BYTES: usize = 256;

/// `s` with each line break turned into a space.
pub open spec fn without_breaks(s: Seq<char>) -> Seq<char> {
    Seq::new(
        s.len(),
        |i: int|
            if s[i] == '\n' || s[i] == '\r' {
                ' '
            } else {
                s[i]
            },
    )
}

/// A detail on one line, cut to what may be recorded.
pub open spec fn safe(s: Seq<char>) -> Seq<char> {
    longest_prefix(without_breaks(s), SAFE_DETAIL_BYTES as nat)
}

/// Puts a detail on one line and cuts it at the last character boundary within
/// the bytes that may be recorded.
#[must_use]
pub fn safe_detail(detail: &str) -> (r: String)
    ensures
        r@ == safe(detail@),
{
    let mut line = String::new();
    for c in it: detail.chars()
        invariant
            it.seq() == detail@,
            line@ =~= without_breaks(detail@).subrange(0, it.index() as int),
    {
        let d = if c == '\n' || c == '\r' {
            ' '
        } else {
            c
        };
        line.push(d);
    }
    assert(line@ =~= without_breaks(detail@));
    truncate_utf8(line.as_str(), SAFE_DETAIL_BYTES)
}

} // verus!
