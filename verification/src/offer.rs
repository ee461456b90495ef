//! Descriptors of what a device offers.
use vstd::prelude::*;

use crate::text::{
    byte_len, byte_length, contains_char, control, decimal, decimal_text, is_control, join2, join3,
    lemma_byte_len_bounds, lemma_longest_prefix_fits, lemma_longest_prefix_grows, longest_prefix, text_eq, truncate_utf8,
};

verus! {

pub const MAX_TEXT_BYTES: usize = 1024 * 1024;
pub const MAX_OFFER_PREVIEW_BYTES: usize = 256;
pub const MAX_OFFER_FILE_BYTES: u64 = 8 * 1024 * 1024 * 1024;
pub const MAX_OFFER_TRANSFER_BYTES: u64 = 16 * 1024 * 1024 * 1024;
pub const MAX_OFFER_MANIFEST_ENTRIES: u32 = 4096;
pub const MAX_OFFER_PORTABLE_COMPONENT_BYTES: usize = 255;

/// Whether the origin could still serve an offer when it was last asked.
#[derive(Debug, Clone, Copy, PartialEq, Eq, Structural)]
pub enum CardAvailability {
    Available,
    SourceUnavailable,
    SourceChanged,
}

/// What is offered, without its content.
#[derive(Debug)]
pub enum OfferDescriptor {
    Text { utf8_bytes: u32, line_count: u32, preview: String },
    File { root_name: String, total_bytes: u64 },
    Folder {
        root_name: String,
        total_bytes: u64,
        entry_count: u32,
        file_count: u32,
        directory_count: u32,
    },
}

/// A descriptor with its texts as sequences of characters.
pub ghost enum DescriptorView {
    Text { utf8_bytes: u32, line_count: u32, preview: Seq<char> },
    File { root_name: Seq<char>, total_bytes: u64 },
    Folder {
        root_name: Seq<char>,
        total_bytes: u64,
        entry_count: u32,
        file_count: u32,
        directory_count: u32,
    },
}

impl View for OfferDescriptor {
    type V = DescriptorView;

    open spec fn view(&self) -> DescriptorView {
        match *self {
            OfferDescriptor::Text { utf8_bytes, line_count, preview } => DescriptorView::Text {
                utf8_bytes,
                line_count,
                preview: preview@,
            },
            OfferDescriptor::File { root_name, total_bytes } => DescriptorView::File {
                root_name: root_name@,
                total_bytes,
            },
            OfferDescriptor::Folder {
                root_name,
                total_bytes,
                entry_count,
                file_count,
                directory_count,
            } => DescriptorView::Folder {
                root_name: root_name@,
                total_bytes,
                entry_count,
                file_count,
                directory_count,
            },
        }
    }
}

impl Clone for OfferDescriptor {
    fn clone(&self) -> (r: Self)
        ensures
            r@ == self@,
    {
        match self {
            OfferDescriptor::Text { utf8_bytes, line_count, preview } => OfferDescriptor::Text {
                utf8_bytes: *utf8_bytes,
                line_count: *line_count,
                preview: preview.clone(),
            },
            OfferDescriptor::File { root_name, total_bytes } => OfferDescriptor::File {
                root_name: root_name.clone(),
                total_bytes: *total_bytes,
            },
            OfferDescriptor::Folder {
                root_name,
                total_bytes,
                entry_count,
                file_count,
                directory_count,
            } => OfferDescriptor::Folder {
                root_name: root_name.clone(),
                total_bytes: *total_bytes,
                entry_count: *entry_count,
                file_count: *file_count,
                directory_count: *directory_count,
            },
        }
    }
}

impl vstd::std_specs::cmp::PartialEqSpecImpl for OfferDescriptor {
    open spec fn obeys_eq_spec() -> bool {
        true
    }

    open spec fn eq_spec(&self, other: &OfferDescriptor) -> bool {
        self@ == other@
    }
}

impl PartialEq for OfferDescriptor {
    fn eq(&self, other: &OfferDescriptor) -> (r: bool) {
        match (self, other) {
            (
                OfferDescriptor::Text { utf8_bytes: a, line_count: b, preview: c },
                OfferDescriptor::Text { utf8_bytes: x, line_count: y, preview: z },
            ) => *a == *x && *b == *y && *c == *z,
            (
                OfferDescriptor::File { root_name: a, total_bytes: b },
                OfferDescriptor::File { root_name: x, total_bytes: y },
            ) => *a == *x && *b == *y,
            (
                OfferDescriptor::Folder {
                    root_name: a,
                    total_bytes: b,
                    entry_count: c,
                    file_count: d,
                    directory_count: e,
                },
                OfferDescriptor::Folder {
                    root_name: v,
                    total_bytes: w,
                    entry_count: x,
                    file_count: y,
                    directory_count: z,
                },
            ) => *a == *v && *b == *w && *c == *x && *d == *y && *e == *z,
            _ => false,
        }
    }
}

impl Eq for OfferDescriptor {

}

/// Why a descriptor is refused.
#[allow(inconsistent_fields)]
#[derive(Debug, Clone, Copy, PartialEq, Eq, Structural)]
pub enum OfferDescriptorError {
    EmptyText,
    TextTooLarge { bytes: usize, maximum: usize },
    TextByteCountOverflow,
    LineCountOverflow,
    EmptyLineCount,
    PreviewTooLarge { bytes: usize, maximum: usize },
    PreviewContainsControl,
    EmptyRootName,
    RootNameIsPath,
    RootNameContainsControl,
    RootNameTooLarge { bytes: usize, maximum: usize },
    FileTooLarge { bytes: u64, maximum: u64 },
    TransferTooLarge { bytes: u64, maximum: u64 },
    TooManyEntries { entries: u32, maximum: u32 },
    EntryCountMismatch { entries: u32, files: u32, directories: u32 },
}

/// `a`, then `x` in decimal, then `b`, then `y` in decimal.
pub open spec fn counted(a: Seq<char>, x: nat, b: Seq<char>, y: nat) -> Seq<char> {
    a + decimal(x) + b + decimal(y)
}

fn counted_text(a: &str, x: u64, b: &str, y: u64) -> (r: String)
    ensures
        r@ == counted(a@, x as nat, b@, y as nat),
{
    let head = join3(a, decimal_text(x).as_str(), b);
    join2(head.as_str(), decimal_text(y).as_str())
}

impl OfferDescriptorError {
    /// The message shown for the error.
    pub open spec fn message(self) -> Seq<char> {
        match self {
            OfferDescriptorError::EmptyText => "text is empty"@,
            OfferDescriptorError::TextTooLarge { bytes, maximum } => counted(
                "text is "@,
                bytes as nat,
                " bytes; maximum is "@,
                maximum as nat,
            ),
            OfferDescriptorError::TextByteCountOverflow =>
                "text byte count cannot be represented as u32"@,
            OfferDescriptorError::LineCountOverflow =>
                "text line count cannot be represented as u32"@,
            OfferDescriptorError::EmptyLineCount => "text descriptor has zero lines"@,
            OfferDescriptorError::PreviewTooLarge { bytes, maximum } => counted(
                "text preview is "@,
                bytes as nat,
                " bytes; maximum is "@,
                maximum as nat,
            ),
            OfferDescriptorError::PreviewContainsControl =>
                "text preview contains a control character"@,
            OfferDescriptorError::EmptyRootName => "root name is empty"@,
            OfferDescriptorError::RootNameIsPath => "root name is a path rather than a basename"@,
            OfferDescriptorError::RootNameContainsControl =>
                "root name contains a control character"@,
            OfferDescriptorError::RootNameTooLarge { bytes, maximum } => counted(
                "root name is "@,
                bytes as nat,
                " bytes; maximum is "@,
                maximum as nat,
            ),
            OfferDescriptorError::FileTooLarge { bytes, maximum } => counted(
                "file is "@,
                bytes as nat,
                " bytes; maximum is "@,
                maximum as nat,
            ),
            OfferDescriptorError::TransferTooLarge { bytes, maximum } => counted(
                "transfer is "@,
                bytes as nat,
                " bytes; maximum is "@,
                maximum as nat,
            ),
            OfferDescriptorError::TooManyEntries { entries, maximum } => counted(
                "folder has "@,
                entries as nat,
                " entries; maximum is "@,
                maximum as nat,
            ),
            OfferDescriptorError::EntryCountMismatch { entries, files, directories } => counted(
                "folder entry count "@,
                entries as nat,
                " does not equal file count "@,
                files as nat,
            ) + " plus directory count "@ + decimal(directories as nat),
        }
    }

    /// The message shown for the error.
    #[must_use]
    pub fn describe(&self) -> (r: String)
        ensures
            r@ == self.message(),
    {
        match *self {
            OfferDescriptorError::EmptyText => "text is empty".to_owned(),
            OfferDescriptorError::TextTooLarge { bytes, maximum } => counted_text(
                "text is ",
                bytes as u64,
                " bytes; maximum is ",
                maximum as u64,
            ),
            OfferDescriptorError::TextByteCountOverflow =>
                "text byte count cannot be represented as u32".to_owned(),
            OfferDescriptorError::LineCountOverflow =>
                "text line count cannot be represented as u32".to_owned(),
            OfferDescriptorError::EmptyLineCount => "text descriptor has zero lines".to_owned(),
            OfferDescriptorError::PreviewTooLarge { bytes, maximum } => counted_text(
                "text preview is ",
                bytes as u64,
                " bytes; maximum is ",
                maximum as u64,
            ),
            OfferDescriptorError::PreviewContainsControl =>
                "text preview contains a control character".to_owned(),
            OfferDescriptorError::EmptyRootName => "root name is empty".to_owned(),
            OfferDescriptorError::RootNameIsPath =>
                "root name is a path rather than a basename".to_owned(),
            OfferDescriptorError::RootNameContainsControl =>
                "root name contains a control character".to_owned(),
            OfferDescriptorError::RootNameTooLarge { bytes, maximum } => counted_text(
                "root name is ",
                bytes as u64,
                " bytes; maximum is ",
                maximum as u64,
            ),
            OfferDescriptorError::FileTooLarge { bytes, maximum } => counted_text(
                "file is ",
                bytes,
                " bytes; maximum is ",
                maximum,
            ),
            OfferDescriptorError::TransferTooLarge { bytes, maximum } => counted_text(
                "transfer is ",
                bytes,
                " bytes; maximum is ",
                maximum,
            ),
            OfferDescriptorError::TooManyEntries { entries, maximum } => counted_text(
                "folder has ",
                entries as u64,
                " entries; maximum is ",
                maximum as u64,
            ),
            OfferDescriptorError::EntryCountMismatch { entries, files, directories } => {
                let head = counted_text(
                    "folder entry count ",
                    entries as u64,
                    " does not equal file count ",
                    files as u64,
                );
                join3(
                    head.as_str(),
                    " plus directory count ",
                    decimal_text(directories as u64).as_str(),
                )
            },
        }
    }
}

/// Whether a control character stands in `s`.
pub open spec fn has_control(s: Seq<char>) -> bool {
    exists|i: int| 0 <= i < s.len() && control(#[trigger] s[i])
}

/// Whether a control character stands in `s`.
pub fn contains_control(s: &str) -> (r: bool)
    ensures
        r == has_control(s@),
{
    for c in it: s.chars()
        invariant
            it.seq() == s@,
            forall|i: int| 0 <= i < it.index() ==> !control(#[trigger] s@[i]),
    {
        if is_control(c) {
            assert(control(s@[it.index() as int]));
            return true;
        }
    }
    false
}

/// The number of newline characters in `s`.
pub open spec fn newline_count(s: Seq<char>) -> nat
    decreases s.len(),
{
    if s.len() == 0 {
        0
    } else {
        newline_count(s.drop_last()) + if s.last() == '\n' {
            1nat
        } else {
            0nat
        }
    }
}

/// The number of lines of `s`; the newline after the last line is optional.
pub open spec fn line_total(s: Seq<char>) -> nat {
    newline_count(s) + if s.len() > 0 && s.last() != '\n' {
        1nat
    } else {
        0nat
    }
}

proof fn lemma_newline_count_bound(s: Seq<char>)
    ensures
        newline_count(s) <= s.len(),
        line_total(s) <= s.len(),
        s.len() > 0 ==> line_total(s) >= 1,
    decreases s.len(),
{
    if s.len() > 0 {
        lemma_newline_count_bound(s.drop_last());
    }
}

fn count_lines(s: &str) -> (n: usize)
    ensures
        n == line_total(s@),
{
    let total: usize = byte_length(s);
    let mut n: usize = 0;
    let mut open = false;
    proof {
        lemma_byte_len_bounds(s@);
    }
    for c in it: s.chars()
        invariant
            it.seq() == s@,
            s@.len() <= total,
            n == newline_count(s@.subrange(0, it.index() as int)),
            n <= it.index(),
            open == (it.index() > 0 && s@[it.index() - 1] != '\n'),
    {
        let ghost before = s@.subrange(0, it.index() as int);
        let ghost now = s@.subrange(0, it.index() + 1);
        assert(now.drop_last() =~= before);
        if c == '\n' {
            n = n + 1;
            open = false;
        } else {
            open = true;
        }
    }
    assert(s@.subrange(0, s@.len() as int) =~= s@);
    proof {
        lemma_newline_count_bound(s@);
    }
    if open {
        n + 1
    } else {
        n
    }
}

/// `s` on one line: each run of line breaks becomes one space, also together
/// with a space before it, and the other control characters are dropped.
pub open spec fn one_line(s: Seq<char>) -> Seq<char>
    decreases s.len(),
{
    if s.len() == 0 {
        s
    } else {
        let before = one_line(s.drop_last());
        let c = s.last();
        if c == '\n' || c == '\r' {
            if before.len() > 0 && before.last() == ' ' {
                before
            } else {
                before.push(' ')
            }
        } else if control(c) {
            before
        } else {
            before.push(c)
        }
    }
}

/// The preview of a text: the longest prefix of its one-line form that fits.
pub open spec fn preview_of(s: Seq<char>) -> Seq<char> {
    longest_prefix(one_line(s), MAX_OFFER_PREVIEW_BYTES as nat)
}

/// Whether `s` can be the name of an offered file or folder, and why not.
pub open spec fn root_name_check(s: Seq<char>) -> Result<(), OfferDescriptorError> {
    if s.len() == 0 {
        Err(OfferDescriptorError::EmptyRootName)
    } else if s == "."@ || s == ".."@ || s.contains('/') || s.contains('\\') {
        Err(OfferDescriptorError::RootNameIsPath)
    } else if has_control(s) {
        Err(OfferDescriptorError::RootNameContainsControl)
    } else if byte_len(s) > MAX_OFFER_PORTABLE_COMPONENT_BYTES {
        Err(
            OfferDescriptorError::RootNameTooLarge {
                bytes: byte_len(s) as usize,
                maximum: MAX_OFFER_PORTABLE_COMPONENT_BYTES,
            },
        )
    } else {
        Ok(())
    }
}

fn validate_root_name(root_name: &str) -> (r: Result<(), OfferDescriptorError>)
    ensures
        r == root_name_check(root_name@),
{
    let bytes: usize = byte_length(root_name);
    if root_name.is_empty() {
        return Err(OfferDescriptorError::EmptyRootName);
    }
    if text_eq(root_name, ".") || text_eq(root_name, "..") || contains_char(root_name, '/')
        || contains_char(root_name, '\\') {
        return Err(OfferDescriptorError::RootNameIsPath);
    }
    if contains_control(root_name) {
        return Err(OfferDescriptorError::RootNameContainsControl);
    }
    if bytes > MAX_OFFER_PORTABLE_COMPONENT_BYTES {
        return Err(
            OfferDescriptorError::RootNameTooLarge {
                bytes,
                maximum: MAX_OFFER_PORTABLE_COMPONENT_BYTES,
            },
        );
    }
    Ok(())
}

impl DescriptorView {
    pub open spec fn is_text(self) -> bool {
        self is Text
    }

    /// The first rule that the descriptor breaks, if any.
    pub open spec fn check(self) -> Result<(), OfferDescriptorError> {
        match self {
            DescriptorView::Text { utf8_bytes, line_count, preview } => if utf8_bytes == 0 {
                Err(OfferDescriptorError::EmptyText)
            } else if utf8_bytes > MAX_TEXT_BYTES {
                Err(
                    OfferDescriptorError::TextTooLarge {
                        bytes: utf8_bytes as usize,
                        maximum: MAX_TEXT_BYTES,
                    },
                )
            } else if line_count == 0 {
                Err(OfferDescriptorError::EmptyLineCount)
            } else if byte_len(preview) > MAX_OFFER_PREVIEW_BYTES {
                Err(
                    OfferDescriptorError::PreviewTooLarge {
                        bytes: byte_len(preview) as usize,
                        maximum: MAX_OFFER_PREVIEW_BYTES,
                    },
                )
            } else if has_control(preview) {
                Err(OfferDescriptorError::PreviewContainsControl)
            } else {
                Ok(())
            },
            DescriptorView::File { root_name, total_bytes } => if root_name_check(
                root_name,
            ) is Err {
                root_name_check(root_name)
            } else if total_bytes > MAX_OFFER_FILE_BYTES {
                Err(
                    OfferDescriptorError::FileTooLarge {
                        bytes: total_bytes,
                        maximum: MAX_OFFER_FILE_BYTES,
                    },
                )
            } else {
                Ok(())
            },
            DescriptorView::Folder {
                root_name,
                total_bytes,
                entry_count,
                file_count,
                directory_count,
            } => if root_name_check(root_name) is Err {
                root_name_check(root_name)
            } else if entry_count > MAX_OFFER_MANIFEST_ENTRIES {
                Err(
                    OfferDescriptorError::TooManyEntries {
                        entries: entry_count,
                        maximum: MAX_OFFER_MANIFEST_ENTRIES,
                    },
                )
            } else if total_bytes > MAX_OFFER_TRANSFER_BYTES {
                Err(
                    OfferDescriptorError::TransferTooLarge {
                        bytes: total_bytes,
                        maximum: MAX_OFFER_TRANSFER_BYTES,
                    },
                )
            } else if file_count + directory_count != entry_count {
                Err(
                    OfferDescriptorError::EntryCountMismatch {
                        entries: entry_count,
                        files: file_count,
                        directories: directory_count,
                    },
                )
            } else {
                Ok(())
            },
        }
    }
}

impl OfferDescriptor {
    /// Describes a text captured at an explicit paste.
    pub fn text(text: &str) -> (r: Result<Self, OfferDescriptorError>)
        ensures
            byte_len(text@) == 0 <==> r == Err::<Self, _>(OfferDescriptorError::EmptyText),
            byte_len(text@) > MAX_TEXT_BYTES ==> r == Err::<Self, _>(
                OfferDescriptorError::TextTooLarge {
                    bytes: byte_len(text@) as usize,
                    maximum: MAX_TEXT_BYTES,
                },
            ),
            0 < byte_len(text@) <= MAX_TEXT_BYTES ==> r is Ok && r->Ok_0@ == (
            DescriptorView::Text {
                utf8_bytes: byte_len(text@) as u32,
                line_count: line_total(text@) as u32,
                preview: preview_of(text@),
            }) && r->Ok_0@.check() is Ok,
    {
        let bytes: usize = byte_length(text);
        if bytes == 0 {
            return Err(OfferDescriptorError::EmptyText);
        }
        if bytes > MAX_TEXT_BYTES {
            return Err(
                OfferDescriptorError::TextTooLarge { bytes, maximum: MAX_TEXT_BYTES },
            );
        }
        proof {
            lemma_byte_len_bounds(text@);
            lemma_newline_count_bound(text@);
            lemma_preview_is_displayable(text@);
        }
        let line_count: usize = count_lines(text);
        let descriptor = OfferDescriptor::Text {
            utf8_bytes: bytes as u32,
            line_count: line_count as u32,
            preview: Self::preview(text),
        };
        match descriptor.validate() {
            Ok(()) => Ok(descriptor),
            Err(error) => Err(error),
        }
    }

    /// Builds the bounded preview that is shown for a text.
    #[must_use]
    pub fn preview(text: &str) -> (r: String)
        ensures
            r@ == preview_of(text@),
            byte_len(r@) <= MAX_OFFER_PREVIEW_BYTES,
            !has_control(r@),
    {
        let mut line = String::new();
        let mut spaced = false;
        assert(text@.subrange(0, 0) =~= Seq::<char>::empty());
        for c in it: text.chars()
            invariant
                it.seq() == text@,
                line@ == one_line(text@.subrange(0, it.index() as int)),
                spaced == (line@.len() > 0 && line@.last() == ' '),
        {
            let ghost before = text@.subrange(0, it.index() as int);
            let ghost now = text@.subrange(0, it.index() + 1);
            assert(now.drop_last() =~= before);
            if c == '\n' || c == '\r' {
                if !spaced {
                    line.push(' ');
                    spaced = true;
                }
            } else if !is_control(c) {
                line.push(c);
                spaced = c == ' ';
            }
        }
        proof {
            assert(text@.subrange(0, text@.len() as int) =~= text@);
            lemma_preview_is_displayable(text@);
        }
        truncate_utf8(line.as_str(), MAX_OFFER_PREVIEW_BYTES)
    }

    /// Checks the descriptor against the bounds on offers.
    pub fn validate(&self) -> (r: Result<(), OfferDescriptorError>)
        ensures
            r == self@.check(),
    {
        match self {
            OfferDescriptor::Text { utf8_bytes, line_count, preview } => {
                let bytes: usize = *utf8_bytes as usize;
                if *utf8_bytes == 0 {
                    return Err(OfferDescriptorError::EmptyText);
                }
                if bytes > MAX_TEXT_BYTES {
                    return Err(
                        OfferDescriptorError::TextTooLarge { bytes, maximum: MAX_TEXT_BYTES },
                    );
                }
                if *line_count == 0 {
                    return Err(OfferDescriptorError::EmptyLineCount);
                }
                let preview_bytes: usize = byte_length(preview.as_str());
                if preview_bytes > MAX_OFFER_PREVIEW_BYTES {
                    return Err(
                        OfferDescriptorError::PreviewTooLarge {
                            bytes: preview_bytes,
                            maximum: MAX_OFFER_PREVIEW_BYTES,
                        },
                    );
                }
                if contains_control(preview.as_str()) {
                    return Err(OfferDescriptorError::PreviewContainsControl);
                }
            },
            OfferDescriptor::File { root_name, total_bytes } => {
                match validate_root_name(root_name.as_str()) {
                    Ok(()) => {},
                    Err(error) => {
                        return Err(error);
                    },
                }
                if *total_bytes > MAX_OFFER_FILE_BYTES {
                    return Err(
                        OfferDescriptorError::FileTooLarge {
                            bytes: *total_bytes,
                            maximum: MAX_OFFER_FILE_BYTES,
                        },
                    );
                }
            },
            OfferDescriptor::Folder {
                root_name,
                total_bytes,
                entry_count,
                file_count,
                directory_count,
            } => {
                match validate_root_name(root_name.as_str()) {
                    Ok(()) => {},
                    Err(error) => {
                        return Err(error);
                    },
                }
                if *entry_count > MAX_OFFER_MANIFEST_ENTRIES {
                    return Err(
                        OfferDescriptorError::TooManyEntries {
                            entries: *entry_count,
                            maximum: MAX_OFFER_MANIFEST_ENTRIES,
                        },
                    );
                }
                if *total_bytes > MAX_OFFER_TRANSFER_BYTES {
                    return Err(
                        OfferDescriptorError::TransferTooLarge {
                            bytes: *total_bytes,
                            maximum: MAX_OFFER_TRANSFER_BYTES,
                        },
                    );
                }
                let sum: Option<u32> = file_count.checked_add(*directory_count);
                let consistent = match sum {
                    Some(total) => total == *entry_count,
                    None => false,
                };
                if !consistent {
                    return Err(
                        OfferDescriptorError::EntryCountMismatch {
                            entries: *entry_count,
                            files: *file_count,
                            directories: *directory_count,
                        },
                    );
                }
            },
        }
        Ok(())
    }

    #[must_use]
    pub fn is_text(&self) -> (r: bool)
        ensures
            r == self@.is_text(),
    {
        matches!(self, OfferDescriptor::Text { .. })
    }
}

proof fn lemma_one_line_has_no_control(s: Seq<char>)
    ensures
        !has_control(one_line(s)),
    decreases s.len(),
{
    if s.len() > 0 {
        lemma_one_line_has_no_control(s.drop_last());
        let before = one_line(s.drop_last());
        let now = one_line(s);
        assert forall|i: int| 0 <= i < now.len() implies !control(#[trigger] now[i]) by {
            if i < before.len() {
                assert(now[i] == before[i]);
            }
        }
    }
}

proof fn lemma_one_line_keeps_plain_text(s: Seq<char>)
    requires
        !has_control(s),
    ensures
        one_line(s) == s,
    decreases s.len(),
{
    if s.len() > 0 {
        let t = s.drop_last();
        assert forall|i: int| 0 <= i < t.len() implies !control(#[trigger] t[i]) by {
            assert(s[i] == t[i]);
        }
        lemma_one_line_keeps_plain_text(t);
        assert(!control(s[s.len() - 1]));
        assert(s =~= t.push(s.last()));
    }
}

/// A preview is bounded and holds no control character, whatever the text.
pub proof fn lemma_preview_is_displayable(s: Seq<char>)
    ensures
        byte_len(preview_of(s)) <= MAX_OFFER_PREVIEW_BYTES,
        !has_control(preview_of(s)),
{
    lemma_one_line_has_no_control(s);
    lemma_longest_prefix_fits(one_line(s), MAX_OFFER_PREVIEW_BYTES as nat);
    let p = preview_of(s);
    assert forall|i: int| 0 <= i < p.len() implies !control(#[trigger] p[i]) by {
        assert(p[i] == one_line(s)[i]);
    }
}

/// The preview of a preview is that preview.
pub proof fn lemma_preview_is_stable(s: Seq<char>)
    ensures
        preview_of(preview_of(s)) == preview_of(s),
{
    lemma_preview_is_displayable(s);
    lemma_one_line_keeps_plain_text(preview_of(s));
}

proof fn lemma_one_line_grows(s: Seq<char>, more: Seq<char>)
    ensures
        one_line(s).is_prefix_of(one_line(s + more)),
    decreases more.len(),
{
    if more.len() == 0 {
        assert(s + more =~= s);
    } else {
        lemma_one_line_grows(s, more.drop_last());
        assert((s + more).drop_last() =~= s + more.drop_last());
    }
}

/// What is appended to a text only extends its preview.
pub proof fn lemma_preview_only_grows(s: Seq<char>, more: Seq<char>)
    ensures
        preview_of(s).is_prefix_of(preview_of(s + more)),
{
    lemma_one_line_grows(s, more);
    lemma_longest_prefix_grows(one_line(s), one_line(s + more), MAX_OFFER_PREVIEW_BYTES as nat);
}

} // verus!
