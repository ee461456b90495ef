//! Failures of an exchange with a peer.
use vstd::prelude::*;

use crate::text::{decimal, decimal_text, join2, join3, opt_view};
use crate::wire::{FetchAbortCode, FetchAdmissionCode, FetchReceiptCode, FetchRefusalCode};

verus! {

/// A failure; `S` is the type of its texts.
#[allow(inconsistent_fields)]
#[derive(Debug)]
pub enum NetError<S = String> {
    Io(S),
    Protocol(S),
    Timeout(S),
    Rejected(S),
    Unavailable(S),
    UnexpectedMessage(S),
    IdentityMismatch(S),
    UnsafeBind(S),
    FileTransfer(S),
    OfferStorage(S),
    FetchService(S),
    FetchServiceOwned(S),
    HandlerLimitClosed,
    ProtocolMismatch { peer: S, version: u16, expected: u16 },
    FetchRefused {
        code: FetchRefusalCode,
        active_streams: u32,
        max_active_streams: u32,
        detail: Option<S>,
    },
    FetchAdmissionRefused {
        code: FetchAdmissionCode,
        entries_reserved: u32,
        bytes_reserved: u64,
        detail: Option<S>,
    },
    FetchTerminal {
        code: FetchReceiptCode,
        files_processed: u32,
        bytes_processed: u64,
        detail: Option<S>,
    },
    FetchAborted {
        code: FetchAbortCode,
        files_processed: u32,
        bytes_processed: u64,
        detail: Option<S>,
    },
    FetchLocalIo { files_processed: u32, bytes_processed: u64, detail: Option<S> },
}

impl View for NetError<String> {
    type V = NetError<Seq<char>>;

    open spec fn view(&self) -> NetError<Seq<char>> {
        match *self {
            NetError::Io(s) => NetError::Io(s@),
            NetError::Protocol(s) => NetError::Protocol(s@),
            NetError::Timeout(s) => NetError::Timeout(s@),
            NetError::Rejected(s) => NetError::Rejected(s@),
            NetError::Unavailable(s) => NetError::Unavailable(s@),
            NetError::UnexpectedMessage(s) => NetError::UnexpectedMessage(s@),
            NetError::IdentityMismatch(s) => NetError::IdentityMismatch(s@),
            NetError::UnsafeBind(s) => NetError::UnsafeBind(s@),
            NetError::FileTransfer(s) => NetError::FileTransfer(s@),
            NetError::OfferStorage(s) => NetError::OfferStorage(s@),
            NetError::FetchService(s) => NetError::FetchService(s@),
            NetError::FetchServiceOwned(s) => NetError::FetchServiceOwned(s@),
            NetError::HandlerLimitClosed => NetError::HandlerLimitClosed,
            NetError::ProtocolMismatch { peer, version, expected } => NetError::ProtocolMismatch {
                peer: peer@,
                version,
                expected,
            },
            NetError::FetchRefused { code, active_streams, max_active_streams, detail } =>
                NetError::FetchRefused {
                    code,
                    active_streams,
                    max_active_streams,
                    detail: opt_view(detail),
                },
            NetError::FetchAdmissionRefused { code, entries_reserved, bytes_reserved, detail } =>
                NetError::FetchAdmissionRefused {
                    code,
                    entries_reserved,
                    bytes_reserved,
                    detail: opt_view(detail),
                },
            NetError::FetchTerminal { code, files_processed, bytes_processed, detail } =>
                NetError::FetchTerminal {
                    code,
                    files_processed,
                    bytes_processed,
                    detail: opt_view(detail),
                },
            NetError::FetchAborted { code, files_processed, bytes_processed, detail } =>
                NetError::FetchAborted {
                    code,
                    files_processed,
                    bytes_processed,
                    detail: opt_view(detail),
                },
            NetError::FetchLocalIo { files_processed, bytes_processed, detail } =>
                NetError::FetchLocalIo { files_processed, bytes_processed, detail: opt_view(detail) },
        }
    }
}

/// `head`, then the detail behind a colon where there is one.
pub open spec fn with_detail(head: Seq<char>, detail: Option<Seq<char>>) -> Seq<char> {
    match detail {
        Some(d) => head + ": "@ + d,
        None => head,
    }
}

fn detailed(head: &str, detail: &Option<String>) -> (r: String)
    ensures
        r@ == with_detail(head@, opt_view(*detail)),
{
    match detail {
        Some(d) => join3(head, ": ", d.as_str()),
        None => head.to_owned(),
    }
}

impl NetError<Seq<char>> {
    /// The message shown for the failure.
    pub open spec fn message(self) -> Seq<char> {
        match self {
            NetError::Io(s) => "I/O error: "@ + s,
            NetError::Protocol(s) => "protocol error: "@ + s,
            NetError::Timeout(s) => "operation timed out during "@ + s,
            NetError::Rejected(s) => "peer rejected connection: "@ + s,
            NetError::Unavailable(s) => "peer unavailable: "@ + s,
            NetError::UnexpectedMessage(s) => "unexpected wire message: "@ + s,
            NetError::IdentityMismatch(s) => "identity mismatch: "@ + s,
            NetError::UnsafeBind(s) => "unsafe bind refused: "@ + s,
            NetError::FileTransfer(s) => "file transfer failed: "@ + s,
            NetError::OfferStorage(s) => "offer card storage failed: "@ + s,
            NetError::FetchService(s) => "fetch service failed: "@ + s,
            NetError::FetchServiceOwned(s) => "fetch service failed: "@ + s,
            NetError::HandlerLimitClosed => "inbound handler limit was closed"@,
            NetError::ProtocolMismatch { peer, version, expected } => peer + " uses protocol "@
                + decimal(version as nat) + "; update it to protocol "@ + decimal(expected as nat),
            NetError::FetchRefused { detail, .. } => with_detail("fetch refused"@, detail),
            NetError::FetchAdmissionRefused { detail, .. } => with_detail(
                "fetch admission refused"@,
                detail,
            ),
            NetError::FetchTerminal { detail, .. } => with_detail("fetch ended"@, detail),
            NetError::FetchAborted { detail, .. } => with_detail("fetch aborted"@, detail),
            NetError::FetchLocalIo { detail, .. } => with_detail("local storage failed"@, detail),
        }
    }
}

impl NetError {
    /// The message shown for the failure.
    #[must_use]
    pub fn describe(&self) -> (r: String)
        ensures
            r@ == self@.message(),
    {
        match self {
            NetError::Io(s) => join2("I/O error: ", s.as_str()),
            NetError::Protocol(s) => join2("protocol error: ", s.as_str()),
            NetError::Timeout(s) => join2("operation timed out during ", s.as_str()),
            NetError::Rejected(s) => join2("peer rejected connection: ", s.as_str()),
            NetError::Unavailable(s) => join2("peer unavailable: ", s.as_str()),
            NetError::UnexpectedMessage(s) => join2("unexpected wire message: ", s.as_str()),
            NetError::IdentityMismatch(s) => join2("identity mismatch: ", s.as_str()),
            NetError::UnsafeBind(s) => join2("unsafe bind refused: ", s.as_str()),
            NetError::FileTransfer(s) => join2("file transfer failed: ", s.as_str()),
            NetError::OfferStorage(s) => join2("offer card storage failed: ", s.as_str()),
            NetError::FetchService(s) => join2("fetch service failed: ", s.as_str()),
            NetError::FetchServiceOwned(s) => join2("fetch service failed: ", s.as_str()),
            NetError::HandlerLimitClosed => "inbound handler limit was closed".to_owned(),
            NetError::ProtocolMismatch { peer, version, expected } => {
                let head = join3(
                    peer.as_str(),
                    " uses protocol ",
                    decimal_text(*version as u64).as_str(),
                );
                join3(
                    head.as_str(),
                    "; update it to protocol ",
                    decimal_text(*expected as u64).as_str(),
                )
            },
            NetError::FetchRefused { detail, .. } => detailed("fetch refused", detail),
            NetError::FetchAdmissionRefused { detail, .. } => detailed(
                "fetch admission refused",
                detail,
            ),
            NetError::FetchTerminal { detail, .. } => detailed("fetch ended", detail),
            NetError::FetchAborted { detail, .. } => detailed("fetch aborted", detail),
            NetError::FetchLocalIo { detail, .. } => detailed("local storage failed", detail),
        }
    }
}

} // verus!
