//! The clipboard as the receiver sees it.
use vstd::prelude::*;

use crate::net_error::NetError;
use crate::path::HostPath;
use crate::receive::SideEffectFailure;
use crate::text::join2;

verus! {

/// The clipboard could not be set.
#[derive(Debug)]
pub struct ClipboardError {
    message: String,
    uncertain: bool,
}

impl ClipboardError {
    pub closed spec fn text(self) -> Seq<char> {
        self.message@
    }

    /// Whether the clipboard may have changed all the same.
    pub closed spec fn may_have_happened(self) -> bool {
        self.uncertain
    }

    /// The clipboard was not changed.
    #[must_use]
    pub fn new(message: &str) -> (r: Self)
        ensures
            r.text() == message@,
            !r.may_have_happened(),
    {
        ClipboardError { message: message.to_owned(), uncertain: false }
    }

    /// The clipboard may have changed.
    #[must_use]
    pub fn uncertain(message: &str) -> (r: Self)
        ensures
            r.text() == message@,
            r.may_have_happened(),
    {
        ClipboardError { message: message.to_owned(), uncertain: true }
    }

    #[must_use]
    pub fn message(&self) -> (r: &str)
        ensures
            r@ == self.text(),
    {
        self.message.as_str()
    }

    #[must_use]
    pub fn is_uncertain(&self) -> (r: bool)
        ensures
            r == self.may_have_happened(),
    {
        self.uncertain
    }

    /// The message shown for the error.
    #[must_use]
    pub fn describe(&self) -> (r: String)
        ensures
            r@ == "clipboard error: "@ + self.text(),
    {
        join2("clipboard error: ", self.message.as_str())
    }
}

/// Takes text to the clipboard.
pub trait ClipboardSink {
    fn set_text(&self, text: &str) -> Result<(), ClipboardError>;
}

/// Takes text and files to the clipboard.
pub trait FetchClipboard: ClipboardSink {
    fn set_files(&self, paths: &Vec<HostPath>) -> Result<(), ClipboardError>;
}

/// The side effect failure that a clipboard error stands for.
pub open spec fn clipboard_failure(error: ClipboardError) -> SideEffectFailure<Seq<char>> {
    if error.may_have_happened() {
        SideEffectFailure::Uncertain(NetError::FetchServiceOwned(error.text()))
    } else {
        SideEffectFailure::Terminal(NetError::FetchServiceOwned(error.text()))
    }
}

impl View for SideEffectFailure<String> {
    type V = SideEffectFailure<Seq<char>>;

    open spec fn view(&self) -> SideEffectFailure<Seq<char>> {
        match *self {
            SideEffectFailure::Terminal(error) => SideEffectFailure::Terminal(error@),
            SideEffectFailure::Uncertain(error) => SideEffectFailure::Uncertain(error@),
        }
    }
}

/// Tells a clipboard that was not changed from one that may have been.
pub fn classify_clipboard_failure(error: ClipboardError) -> (r: SideEffectFailure)
    ensures
        r@ == clipboard_failure(error),
{
    let detail = NetError::FetchServiceOwned(error.message().to_owned());
    if error.is_uncertain() {
        SideEffectFailure::Uncertain(detail)
    } else {
        SideEffectFailure::Terminal(detail)
    }
}

} // verus!
