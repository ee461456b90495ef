//! What a descriptor says of what is offered.
use vstd::prelude::*;

use crate::offer::{
    has_control, line_total, newline_count, one_line, preview_of, root_name_check, DescriptorView,
    OfferDescriptorError, MAX_OFFER_FILE_BYTES, MAX_OFFER_MANIFEST_ENTRIES,
    MAX_OFFER_PORTABLE_COMPONENT_BYTES, MAX_OFFER_PREVIEW_BYTES, MAX_OFFER_TRANSFER_BYTES,
    MAX_TEXT_BYTES,
};
use crate::text::{byte_len, control};
use crate::text_laws::lemma_shortening_is_least;

verus! {

/// The bounds on offers: a text of 1 MiB, a preview of 256 bytes, a file of 8 GiB, a
/// transfer of 16 GiB, 4096 entries, and names of 255 bytes.
pub proof fn lemma_bounds_on_offers()
    ensures
        MAX_TEXT_BYTES == 1_048_576,
        MAX_OFFER_PREVIEW_BYTES == 256,
        MAX_OFFER_FILE_BYTES == 8_589_934_592,
        MAX_OFFER_TRANSFER_BYTES == 17_179_869_184,
        MAX_OFFER_MANIFEST_ENTRIES == 4096,
        MAX_OFFER_PORTABLE_COMPONENT_BYTES == 255,
{
}

/// The one-line form takes every character that is no control character as it is.  A line
/// break leaves one space at its end, and no other control character leaves anything.
pub proof fn lemma_one_line_takes_each_character(s: Seq<char>, c: char)
    ensures
        one_line(Seq::empty()) == Seq::<char>::empty(),
        !control(c) ==> one_line(s.push(c)) == one_line(s).push(c),
        control(c) && c != '\n' && c != '\r' ==> one_line(s.push(c)) == one_line(s),
        c == '\n' || c == '\r' ==> {
            let line = one_line(s.push(c));
            &&& line.len() > 0
            &&& line.last() == ' '
            &&& line == one_line(s) || line == one_line(s).push(' ')
            &&& one_line(s).len() > 0 && one_line(s).last() == ' ' ==> line == one_line(s)
        },
{
    assert(s.push(c).drop_last() =~= s);
    assert(s.push(c).last() == c);
}

/// The characters of a text that can be seen: neither control characters nor spaces.
pub open spec fn visible(s: Seq<char>) -> Seq<char>
    decreases s.len(),
{
    if s.len() == 0 {
        Seq::empty()
    } else if control(s.last()) || s.last() == ' ' {
        visible(s.drop_last())
    } else {
        visible(s.drop_last()).push(s.last())
    }
}

proof fn lemma_visible_push(s: Seq<char>, c: char)
    ensures
        visible(s.push(c)) == if control(c) || c == ' ' {
            visible(s)
        } else {
            visible(s).push(c)
        },
{
    assert(s.push(c).drop_last() =~= s);
}

/// The one-line form loses no character that can be seen, adds none, and keeps their
/// order.
pub proof fn lemma_one_line_loses_nothing_visible(s: Seq<char>)
    ensures
        visible(one_line(s)) == visible(s),
    decreases s.len(),
{
    if s.len() > 0 {
        let t = s.drop_last();
        let c = s.last();
        lemma_one_line_loses_nothing_visible(t);
        assert(t.push(c) =~= s);
        lemma_one_line_takes_each_character(t, c);
        lemma_visible_push(t, c);
        lemma_visible_push(one_line(t), c);
        lemma_visible_push(one_line(t), ' ');
    }
}

/// The preview is the one-line form where that takes at most 256 bytes, and else as much
/// of it as fits: one character more would not.
pub proof fn lemma_preview_shows_what_fits(s: Seq<char>)
    ensures
        preview_of(s).is_prefix_of(one_line(s)),
        byte_len(preview_of(s)) <= 256,
        byte_len(one_line(s)) <= 256 ==> preview_of(s) == one_line(s),
        ({
            let n = preview_of(s).len();
            n < one_line(s).len() ==> byte_len(one_line(s).subrange(0, n + 1int)) > 256
        }),
{
    lemma_shortening_is_least(one_line(s), 256);
}

proof fn lemma_newlines_add(a: Seq<char>, b: Seq<char>)
    ensures
        newline_count(a + b) == newline_count(a) + newline_count(b),
    decreases b.len(),
{
    if b.len() == 0 {
        assert(a + b =~= a);
    } else {
        lemma_newlines_add(a, b.drop_last());
        assert((a + b).drop_last() =~= a + b.drop_last());
    }
}

/// A text without a line break is one line, or none where it is empty; a line break ends
/// a line, and what follows it is counted by itself.
pub proof fn lemma_lines_are_counted(first: Seq<char>, rest: Seq<char>)
    ensures
        line_total(Seq::empty()) == 0,
        !first.contains('\n') && first.len() > 0 ==> line_total(first) == 1,
        !first.contains('\n') ==> line_total(first.push('\n') + rest) == 1 + line_total(rest),
{
    let none = Seq::<char>::empty();
    let ended = first.push('\n');
    assert(ended.drop_last() =~= first);
    lemma_newlines_add(ended, rest);
    if !first.contains('\n') {
        lemma_no_newlines(first);
    }
    if rest.len() == 0 {
        assert(ended + rest =~= ended);
    } else {
        assert((ended + rest).last() == rest.last());
    }
}

proof fn lemma_no_newlines(s: Seq<char>)
    requires
        !s.contains('\n'),
    ensures
        newline_count(s) == 0,
        s.len() > 0 ==> s.last() != '\n',
    decreases s.len(),
{
    if s.len() > 0 {
        let t = s.drop_last();
        assert(s[s.len() - 1] == s.last());
        if t.contains('\n') {
            let i = choose|i: int| 0 <= i < t.len() && t[i] == '\n';
            assert(s[i] == '\n');
        }
        lemma_no_newlines(t);
    }
}

/// A text descriptor is valid exactly where it counts at least one byte and one line and
/// no more than 1 MiB, and its preview takes at most 256 bytes and has no control
/// character.
pub proof fn lemma_valid_text_descriptors(utf8_bytes: u32, line_count: u32, preview: Seq<char>)
    ensures
        (DescriptorView::Text { utf8_bytes, line_count, preview }).check() is Ok <==> {
            &&& 1 <= utf8_bytes <= 1_048_576
            &&& 1 <= line_count
            &&& byte_len(preview) <= 256
            &&& forall|i: int| 0 <= i < preview.len() ==> !control(#[trigger] preview[i])
        },
{
}

/// A root name is valid exactly where it has a character, is one component and not a dot
/// or two, has no control character, and takes at most 255 bytes.
pub proof fn lemma_valid_root_names(name: Seq<char>)
    ensures
        root_name_check(name) is Ok <==> {
            &&& name.len() > 0
            &&& name != seq!['.']
            &&& name != seq!['.', '.']
            &&& byte_len(name) <= 255
            &&& forall|i: int|
                0 <= i < name.len() ==> {
                    let c = #[trigger] name[i];
                    c != '/' && c != '\\' && !control(c)
                }
        },
{
    reveal_strlit(".");
    reveal_strlit("..");
    assert(seq!['.'] =~= "."@);
    assert(seq!['.', '.'] =~= ".."@);
    if name.contains('/') {
        let i = choose|i: int| 0 <= i < name.len() && name[i] == '/';
        assert(name[i] == '/');
    }
    if name.contains('\\') {
        let i = choose|i: int| 0 <= i < name.len() && name[i] == '\\';
        assert(name[i] == '\\');
    }
}

/// A file descriptor is valid exactly where its name is and it counts at most 8 GiB; a
/// folder descriptor where its name is, it counts at most 16 GiB and 4096 entries, and
/// its entries are its files and its directories.
pub proof fn lemma_valid_file_and_folder_descriptors(
    root_name: Seq<char>,
    total_bytes: u64,
    entry_count: u32,
    file_count: u32,
    directory_count: u32,
)
    ensures
        (DescriptorView::File { root_name, total_bytes }).check() is Ok <==> {
            &&& root_name_check(root_name) is Ok
            &&& total_bytes <= 8_589_934_592
        },
        (DescriptorView::Folder {
            root_name,
            total_bytes,
            entry_count,
            file_count,
            directory_count,
        }).check() is Ok <==> {
            &&& root_name_check(root_name) is Ok
            &&& total_bytes <= 17_179_869_184
            &&& entry_count <= 4096
            &&& entry_count == file_count + directory_count
        },
{
}

/// An invalid descriptor is refused for what is wrong with it.
pub proof fn lemma_refusals_name_what_is_wrong(descriptor: DescriptorView)
    ensures
        descriptor.check() matches Err(error) ==> match (descriptor, error) {
            (DescriptorView::Text { utf8_bytes, .. }, OfferDescriptorError::EmptyText) =>
                utf8_bytes == 0,
            (
                DescriptorView::Text { utf8_bytes, .. },
                OfferDescriptorError::TextTooLarge { bytes, maximum },
            ) => bytes == utf8_bytes && maximum == 1_048_576 && bytes > maximum,
            (DescriptorView::Text { line_count, .. }, OfferDescriptorError::EmptyLineCount) =>
                line_count == 0,
            (
                DescriptorView::Text { preview, .. },
                OfferDescriptorError::PreviewTooLarge { maximum, .. },
            ) => maximum == 256 && byte_len(preview) > 256,
            (DescriptorView::Text { preview, .. }, OfferDescriptorError::PreviewContainsControl) =>
                has_control(preview),
            (
                DescriptorView::File { total_bytes, .. },
                OfferDescriptorError::FileTooLarge { bytes, maximum },
            ) => bytes == total_bytes && maximum == 8_589_934_592 && bytes > maximum,
            (
                DescriptorView::Folder { total_bytes, .. },
                OfferDescriptorError::TransferTooLarge { bytes, maximum },
            ) => bytes == total_bytes && maximum == 17_179_869_184 && bytes > maximum,
            (
                DescriptorView::Folder { entry_count, .. },
                OfferDescriptorError::TooManyEntries { entries, maximum },
            ) => entries == entry_count && maximum == 4096 && entries > maximum,
            (
                DescriptorView::Folder { entry_count, file_count, directory_count, .. },
                OfferDescriptorError::EntryCountMismatch { entries, files, directories },
            ) => entries == entry_count && files == file_count && directories == directory_count
                && entries != files + directories,
            (DescriptorView::File { root_name, .. }, _)
            | (DescriptorView::Folder { root_name, .. }, _) => match error {
                OfferDescriptorError::EmptyRootName => root_name.len() == 0,
                OfferDescriptorError::RootNameIsPath => root_name == "."@ || root_name == ".."@
                    || root_name.contains('/') || root_name.contains('\\'),
                OfferDescriptorError::RootNameContainsControl => has_control(root_name),
                OfferDescriptorError::RootNameTooLarge { maximum, .. } => maximum == 255
                    && byte_len(root_name) > 255,
                _ => false,
            },
            _ => false,
        },
{
}

} // verus!
