//! Portable names of files and folders.
//!
//! A name is refused where any supported host would find it ambiguous or unsafe:
//! path separators, Windows device names, and spellings that end in a dot or a space.
use vstd::prelude::*;

use crate::model::ContentKind;
use crate::net_error::NetError;
use crate::offer::MAX_OFFER_PORTABLE_COMPONENT_BYTES;
use crate::text::{
    ascii_upper, byte_len, byte_length, chars_of, contains_char, control, decimal, decimal_text,
    is_control, join2, join3, lemma_byte_len_ascii, longest_prefix, opt_view, split, split_on,
    string_of, text_eq, to_ascii_upper, truncate_utf8, views,
};

verus! {

/// The most bytes that a relative path takes.
pub const MAX_RELATIVE_PATH_BYTES: usize = 4096;

/// The strict policy on names, for callers that want it as a type.
#[derive(Debug, Clone, Copy, PartialEq, Eq, Structural)]
pub struct DestinationPolicy;

/// Whether no supported host takes `c` in a name.
pub open spec fn forbidden_char(c: char) -> bool {
    ||| control(c)
    ||| c == '<'
    ||| c == '>'
    ||| c == ':'
    ||| c == '"'
    ||| c == '/'
    ||| c == '\\'
    ||| c == '|'
    ||| c == '?'
    ||| c == '*'
}

fn is_forbidden_char(c: char) -> (r: bool)
    ensures
        r == forbidden_char(c),
{
    is_control(c) || c == '<' || c == '>' || c == ':' || c == '"' || c == '/' || c == '\\' || c
        == '|' || c == '?' || c == '*'
}

pub open spec fn has_forbidden_char(s: Seq<char>) -> bool {
    exists|i: int| 0 <= i < s.len() && forbidden_char(#[trigger] s[i])
}

/// Whether `s` cannot be a single component at all.
pub open spec fn unsafe_component(s: Seq<char>) -> bool {
    ||| s.len() == 0
    ||| s == "."@
    ||| s == ".."@
    ||| byte_len(s) > MAX_OFFER_PORTABLE_COMPONENT_BYTES
    ||| has_forbidden_char(s)
}

/// `s` up to its first dot.
pub open spec fn before_first_dot(s: Seq<char>) -> Seq<char>
    decreases s.len(),
{
    if s.len() == 0 || s[0] == '.' {
        Seq::empty()
    } else {
        seq![s[0]] + before_first_dot(s.drop_first())
    }
}

/// `s` without the spaces at its end.
pub open spec fn without_trailing_spaces(s: Seq<char>) -> Seq<char>
    decreases s.len(),
{
    if s.len() > 0 && s.last() == ' ' {
        without_trailing_spaces(s.drop_last())
    } else {
        s
    }
}

/// The part of a name that Windows compares with its device names.
pub open spec fn device_stem(s: Seq<char>) -> Seq<char> {
    ascii_upper(without_trailing_spaces(before_first_dot(s)))
}

/// Whether `c` numbers a serial or parallel port.
pub open spec fn port_number(c: char) -> bool {
    '1' <= c <= '9' || c == '\u{b9}' || c == '\u{b2}' || c == '\u{b3}'
}

/// Whether `stem` names a device: CON, PRN, AUX, NUL, or a numbered COM or LPT.
pub open spec fn device_name(stem: Seq<char>) -> bool {
    ||| stem == "CON"@
    ||| stem == "PRN"@
    ||| stem == "AUX"@
    ||| stem == "NUL"@
    ||| stem.len() == 4 && (stem.subrange(0, 3) == "COM"@ || stem.subrange(0, 3) == "LPT"@)
        && port_number(stem[3])
}

/// Whether a host would read `s` as something else than it spells.
pub open spec fn reserved_component(s: Seq<char>) -> bool {
    ||| device_name(device_stem(s))
    ||| s.len() > 0 && (s.last() == ' ' || s.last() == '.')
}

/// Whether `s` is a portable name.
pub open spec fn portable_component(s: Seq<char>) -> bool {
    !unsafe_component(s) && !reserved_component(s)
}

/// `s` in quotes, as `{:?}` writes a string.
pub uninterp spec fn quoted(s: Seq<char>) -> Seq<char>;

/// `format!("{:?}")` of a string: quotes around it, special characters escaped.
/// The outcome depends on the string alone.
#[verifier::external_body]
fn quote(s: &str) -> (r: String)
    ensures
        r@ == quoted(s@),
{
    format!("{:?}", s)
}

/// Why `s` is not a portable name.
pub open spec fn component_error(s: Seq<char>) -> Option<Seq<char>> {
    if unsafe_component(s) {
        Some("unsafe file name component: "@ + quoted(s))
    } else if reserved_component(s) {
        Some("platform-reserved file name: "@ + s)
    } else {
        None
    }
}

/// The text of an error, if there is one.
pub open spec fn error_text(r: Result<(), String>) -> Option<Seq<char>> {
    match r {
        Ok(()) => None,
        Err(e) => Some(e@),
    }
}

pub(crate) fn contains_forbidden_char(s: &str) -> (r: bool)
    ensures
        r == has_forbidden_char(s@),
{
    for c in it: s.chars()
        invariant
            it.seq() == s@,
            forall|i: int| 0 <= i < it.index() ==> !forbidden_char(#[trigger] s@[i]),
    {
        if is_forbidden_char(c) {
            assert(forbidden_char(s@[it.index() as int]));
            return true;
        }
    }
    false
}

proof fn lemma_before_first_dot(s: Seq<char>, n: int)
    requires
        0 <= n <= s.len(),
        forall|i: int| 0 <= i < n ==> s[i] != '.',
        n < s.len() ==> s[n] == '.',
    ensures
        before_first_dot(s) == s.subrange(0, n),
    decreases s.len(),
{
    if n == 0 {
        assert(s.subrange(0, 0) =~= Seq::<char>::empty());
    } else {
        let t = s.drop_first();
        lemma_before_first_dot(t, n - 1);
        assert(s.subrange(0, n) =~= seq![s[0]] + t.subrange(0, n - 1));
    }
}

proof fn lemma_without_trailing_spaces(s: Seq<char>, n: int)
    requires
        0 <= n <= s.len(),
        forall|i: int| n <= i < s.len() ==> s[i] == ' ',
        n > 0 ==> s[n - 1] != ' ',
    ensures
        without_trailing_spaces(s) == s.subrange(0, n),
    decreases s.len(),
{
    if n == s.len() {
        assert(s.subrange(0, n) =~= s);
    } else {
        let t = s.drop_last();
        lemma_without_trailing_spaces(t, n);
        assert(s.subrange(0, n) =~= t.subrange(0, n));
    }
}

/// The part of a name before its first dot.
pub(crate) fn name_before_dot(component: &str) -> (r: String)
    ensures
        r@ == before_first_dot(component@),
{
    let chars = chars_of(component);
    let mut dot: usize = 0;
    while dot < chars.len() && chars[dot] != '.'
        invariant
            dot <= chars@.len(),
            forall|i: int| 0 <= i < dot ==> chars@[i] != '.',
        decreases chars@.len() - dot,
    {
        dot = dot + 1;
    }
    proof {
        lemma_before_first_dot(chars@, dot as int);
    }
    string_of(&chars, 0, dot)
}

pub(crate) fn device_stem_of(component: &str) -> (r: String)
    ensures
        r@ == device_stem(component@),
{
    let head = name_before_dot(component);
    let chars = chars_of(head.as_str());
    let mut end: usize = chars.len();
    while end > 0 && chars[end - 1] == ' '
        invariant
            end <= chars@.len(),
            forall|i: int| end <= i < chars@.len() ==> chars@[i] == ' ',
        decreases end,
    {
        end = end - 1;
    }
    let stem = string_of(&chars, 0, end);
    proof {
        lemma_without_trailing_spaces(chars@, end as int);
    }
    to_ascii_upper(stem.as_str())
}

pub(crate) fn is_device_name(stem: &str) -> (r: bool)
    ensures
        r == device_name(stem@),
{
    if text_eq(stem, "CON") || text_eq(stem, "PRN") || text_eq(stem, "AUX") || text_eq(
        stem,
        "NUL",
    ) {
        return true;
    }
    let chars = chars_of(stem);
    if chars.len() != 4 {
        return false;
    }
    let port = string_of(&chars, 0, 3);
    let c = chars[3];
    (text_eq(port.as_str(), "COM") || text_eq(port.as_str(), "LPT")) && (('1' <= c && c <= '9')
        || c == '\u{b9}' || c == '\u{b2}' || c == '\u{b3}')
}

pub(crate) fn ends_with_char(s: &str, c: char) -> (r: bool)
    ensures
        r == (s@.len() > 0 && s@.last() == c),
{
    let chars = chars_of(s);
    chars.len() > 0 && chars[chars.len() - 1] == c
}

impl DestinationPolicy {
    /// Checks one portable path component.
    pub fn validate_component(component: &str) -> (r: Result<(), String>)
        ensures
            error_text(r) == component_error(component@),
    {
        validate_component(component)
    }

    /// Checks a relative path with slashes.
    pub fn validate_relative_path(path: &str) -> (r: Result<(), String>)
        ensures
            error_text(r) == path_error(path@),
    {
        validate_relative_path(path)
    }
}

/// Checks one portable path component.
pub fn validate_component(component: &str) -> (r: Result<(), String>)
    ensures
        error_text(r) == component_error(component@),
        r is Ok <==> portable_component(component@),
{
    if component.is_empty() || text_eq(component, ".") || text_eq(component, "..") || byte_length(
        component,
    ) > MAX_OFFER_PORTABLE_COMPONENT_BYTES || contains_forbidden_char(component) {
        let shown = quote(component);
        return Err(join2("unsafe file name component: ", shown.as_str()));
    }
    let stem = device_stem_of(component);
    if is_device_name(stem.as_str()) || ends_with_char(component, ' ') || ends_with_char(
        component,
        '.',
    ) {
        return Err(join2("platform-reserved file name: ", component));
    }
    Ok(())
}

/// The error of the first name in `pieces` that is not portable.
pub open spec fn first_component_error(pieces: Seq<Seq<char>>) -> Option<Seq<char>>
    decreases pieces.len(),
{
    if pieces.len() == 0 {
        None
    } else if component_error(pieces[0]) is Some {
        component_error(pieces[0])
    } else {
        first_component_error(pieces.drop_first())
    }
}

/// Why `s` is not a relative path of portable names.
pub open spec fn path_error(s: Seq<char>) -> Option<Seq<char>> {
    if s.len() == 0 || byte_len(s) > MAX_RELATIVE_PATH_BYTES {
        Some("file path is empty or too long"@)
    } else if s[0] == '/' || s.contains('\\') {
        Some("unsafe file path: "@ + s)
    } else {
        first_component_error(split_on(s, '/'))
    }
}

proof fn lemma_first_component_error(pieces: Seq<Seq<char>>, n: int)
    requires
        0 <= n <= pieces.len(),
        forall|i: int| 0 <= i < n ==> component_error(#[trigger] pieces[i]) is None,
        n < pieces.len() ==> component_error(pieces[n]) is Some,
    ensures
        first_component_error(pieces) == if n < pieces.len() {
            component_error(pieces[n])
        } else {
            None
        },
    decreases pieces.len(),
{
    if n > 0 {
        let rest = pieces.drop_first();
        assert forall|i: int| 0 <= i < n - 1 implies component_error(#[trigger] rest[i]) is None by {
            assert(rest[i] == pieces[i + 1]);
        }
        assert(component_error(pieces[0]) is None);
        lemma_first_component_error(rest, n - 1);
    }
}

/// Checks a relative path with slashes against the strict policy on names.
pub fn validate_relative_path(path: &str) -> (r: Result<(), String>)
    ensures
        error_text(r) == path_error(path@),
{
    if path.is_empty() || byte_length(path) > MAX_RELATIVE_PATH_BYTES {
        return Err("file path is empty or too long".to_owned());
    }
    let chars = chars_of(path);
    if chars[0] == '/' || contains_char(path, '\\') {
        return Err(join2("unsafe file path: ", path));
    }
    let pieces = split(path, '/');
    let mut i: usize = 0;
    while i < pieces.len()
        invariant
            i <= pieces@.len(),
            views(pieces@) == split_on(path@, '/'),
            path@.len() > 0,
            byte_len(path@) <= MAX_RELATIVE_PATH_BYTES,
            path@[0] != '/',
            !path@.contains('\\'),
            forall|k: int| 0 <= k < i ==> component_error(#[trigger] views(pieces@)[k]) is None,
        decreases pieces@.len() - i,
    {
        assert(views(pieces@)[i as int] == pieces@[i as int]@);
        let check = validate_component(pieces[i].as_str());
        if check.is_err() {
            proof {
                lemma_first_component_error(views(pieces@), i as int);
            }
            return check;
        }
        i = i + 1;
    }
    proof {
        lemma_first_component_error(views(pieces@), pieces@.len() as int);
    }
    Ok(())
}

/// The names that a relative path leads through.
#[must_use]
pub fn relative_path(value: &str) -> (r: Vec<String>)
    ensures
        views(r@) == split_on(value@, '/'),
{
    split(value, '/')
}

/// A path is accepted exactly where it fits, has no backslash, and consists of
/// portable names.
pub proof fn lemma_relative_path_is_portable_names(s: Seq<char>)
    ensures
        path_error(s) is None <==> {
            &&& s.len() > 0
            &&& byte_len(s) <= MAX_RELATIVE_PATH_BYTES
            &&& !s.contains('\\')
            &&& forall|i: int|
                0 <= i < split_on(s, '/').len() ==> portable_component(
                    #[trigger] split_on(s, '/')[i],
                )
        },
{
    let pieces = split_on(s, '/');
    lemma_first_error_is_none(pieces);
    if s.len() > 0 && s[0] == '/' {
        lemma_first_piece_after_slash(s);
        assert(!portable_component(pieces[0]));
    }
}

proof fn lemma_first_error_is_none(pieces: Seq<Seq<char>>)
    ensures
        first_component_error(pieces) is None <==> forall|i: int|
            0 <= i < pieces.len() ==> portable_component(#[trigger] pieces[i]),
    decreases pieces.len(),
{
    if pieces.len() > 0 {
        let rest = pieces.drop_first();
        lemma_first_error_is_none(rest);
        if first_component_error(pieces) is None {
            assert forall|i: int| 0 <= i < pieces.len() implies portable_component(
                #[trigger] pieces[i],
            ) by {
                if i > 0 {
                    assert(pieces[i] == rest[i - 1]);
                }
            }
        }
        if forall|i: int| 0 <= i < pieces.len() ==> portable_component(#[trigger] pieces[i]) {
            assert forall|i: int| 0 <= i < rest.len() implies portable_component(
                #[trigger] rest[i],
            ) by {
                assert(rest[i] == pieces[i + 1]);
            }
            assert(portable_component(pieces[0]));
        }
    }
}

proof fn lemma_first_piece_after_slash(s: Seq<char>)
    requires
        s.len() > 0,
        s[0] == '/',
    ensures
        split_on(s, '/').len() >= 2,
        split_on(s, '/')[0].len() == 0,
    decreases s.len(),
{
    let t = s.drop_last();
    if t.len() == 0 {
        assert(split_on(t, '/') =~= seq![Seq::<char>::empty()]);
    } else {
        assert(t[0] == '/');
        lemma_first_piece_after_slash(t);
    }
}

/// An accepted path never climbs out of the directory that it starts from.
pub proof fn lemma_relative_path_stays_inside(s: Seq<char>, i: int)
    requires
        path_error(s) is None,
        0 <= i < split_on(s, '/').len(),
    ensures
        split_on(s, '/')[i] != ".."@,
        split_on(s, '/')[i] != "."@,
        split_on(s, '/')[i].len() > 0,
        s[0] != '/',
{
    lemma_relative_path_is_portable_names(s);
}

/// Whether a host reads `s` as a single component.
pub open spec fn single_component(s: Seq<char>) -> bool {
    &&& !s.contains('/')
    &&& !s.contains('\\')
    &&& !s.contains(':')
    &&& s != "."@
    &&& s != ".."@
}

/// The position of the last dot of `s`, if it has one.
pub open spec fn last_dot(s: Seq<char>) -> int
    decreases s.len(),
{
    if s.len() == 0 {
        -1
    } else if s.last() == '.' {
        s.len() - 1
    } else {
        last_dot(s.drop_last())
    }
}

/// The stem and the extension of a name: what stands before and after its last
/// dot.  A dot at the very front starts no extension.
pub open spec fn stem_and_extension(s: Seq<char>) -> Option<(Seq<char>, Seq<char>)> {
    let dot = last_dot(s);
    if dot <= 0 {
        None
    } else {
        Some((s.subrange(0, dot), s.subrange(dot + 1, s.len() as int)))
    }
}

/// `std::path::Path::extension`: what stands behind the last dot of a name, where
/// that starts an extension.  Of a text that a host may read as more than one
/// component nothing is said, as that rests on the host's path syntax.
#[verifier::external_body]
fn path_extension(name: &str) -> (r: Option<String>)
    ensures
        single_component(name@) ==> opt_view(r) == match stem_and_extension(name@) {
            Some(parts) => Some(parts.1),
            None => None,
        },
{
    std::path::Path::new(name).extension().and_then(|part| part.to_str()).map(|s| s.to_owned())
}

/// `std::path::Path::file_stem`: what stands before the last dot of a name that has an
/// extension, and the whole of one that has none.  Of a text that a host may read as
/// more than one component nothing is said, as that rests on the host's path syntax.
#[verifier::external_body]
fn path_stem(name: &str) -> (r: Option<String>)
    ensures
        single_component(name@) && name@.len() > 0 ==> opt_view(r) == match stem_and_extension(
            name@,
        ) {
            Some(parts) => Some(parts.0),
            None => Some(name@),
        },
{
    std::path::Path::new(name).file_stem().and_then(|part| part.to_str()).map(|s| s.to_owned())
}

/// The stem and the extension of a name, as the host reads it.
fn split_extension(name: &str) -> (r: Option<(String, String)>)
    ensures
        single_component(name@) ==> split_view(r) == stem_and_extension(name@),
{
    match path_extension(name) {
        Some(extension) => match path_stem(name) {
            Some(stem) => Some((stem, extension)),
            None => Some((name.to_owned(), extension)),
        },
        None => None,
    }
}

/// The view of a stem with its extension.
pub open spec fn split_view(r: Option<(String, String)>) -> Option<(Seq<char>, Seq<char>)> {
    match r {
        Some(parts) => Some((parts.0@, parts.1@)),
        None => None,
    }
}

/// The error for a generated name that is not portable.
pub open spec fn generated_error(text: Seq<char>) -> NetError<Seq<char>> {
    NetError::FileTransfer("generated destination name is invalid: "@ + text)
}

/// `name` where it is portable, else the error for it.
pub open spec fn checked_name(name: Seq<char>) -> Result<Seq<char>, NetError<Seq<char>>> {
    match component_error(name) {
        None => Ok(name),
        Some(text) => Err(generated_error(text)),
    }
}

/// The view of a result that holds a string.
pub open spec fn text_result(
    r: Result<String, NetError>,
) -> Result<Seq<char>, NetError<Seq<char>>> {
    match r {
        Ok(s) => Ok(s@),
        Err(e) => Err(e@),
    }
}

fn check_generated(name: String) -> (r: Result<String, NetError>)
    ensures
        text_result(r) == checked_name(name@),
{
    match validate_component(name.as_str()) {
        Ok(()) => Ok(name),
        Err(error) => Err(
            NetError::FileTransfer(
                join2("generated destination name is invalid: ", error.as_str()),
            ),
        ),
    }
}

/// `component` cut so that `suffix` still fits behind it.
pub open spec fn suffixed(
    component: Seq<char>,
    suffix: Seq<char>,
) -> Result<Seq<char>, NetError<Seq<char>>> {
    let room = MAX_OFFER_PORTABLE_COMPONENT_BYTES - byte_len(suffix);
    if room <= 0 {
        Err(
            NetError::FileTransfer(
                "generated destination suffix is "@ + decimal(byte_len(suffix))
                    + " bytes; maximum component is 255"@,
            ),
        )
    } else if longest_prefix(component, room as nat).len() == 0 {
        Err(
            NetError::FileTransfer(
                "generated destination suffix leaves no complete UTF-8 character for the name"@,
            ),
        )
    } else {
        checked_name(longest_prefix(component, room as nat) + suffix)
    }
}

/// Puts `suffix` behind `component`, shortening `component` where the name would
/// grow too long.
pub fn component_with_suffix(component: &str, suffix: &str) -> (r: Result<String, NetError>)
    ensures
        text_result(r) == suffixed(component@, suffix@),
{
    let suffix_bytes: usize = byte_length(suffix);
    if suffix_bytes >= MAX_OFFER_PORTABLE_COMPONENT_BYTES {
        return Err(
            NetError::FileTransfer(
                join3(
                    "generated destination suffix is ",
                    decimal_text(suffix_bytes as u64).as_str(),
                    " bytes; maximum component is 255",
                ),
            ),
        );
    }
    let stem = truncate_utf8(component, MAX_OFFER_PORTABLE_COMPONENT_BYTES - suffix_bytes);
    if stem.as_str().is_empty() {
        return Err(
            NetError::FileTransfer(
                "generated destination suffix leaves no complete UTF-8 character for the name".to_owned(),
            ),
        );
    }
    check_generated(join2(stem.as_str(), suffix))
}

/// The number behind a name that is taken, in brackets.
pub open spec fn collision_suffix(index: nat) -> Seq<char> {
    " ("@ + decimal(index) + ")"@
}

/// The name to try as number `index`: the plain name first, then the name with a
/// number.  A file keeps its extension where the number leaves room for it.
pub open spec fn candidate_name(
    root_name: Seq<char>,
    content_kind: ContentKind,
    index: nat,
) -> Result<Seq<char>, NetError<Seq<char>>> {
    candidate_with(root_name, content_kind, index, stem_and_extension(root_name))
}

/// The same, for a name that the host splits into this stem and extension.
pub open spec fn candidate_with(
    root_name: Seq<char>,
    content_kind: ContentKind,
    index: nat,
    split: Option<(Seq<char>, Seq<char>)>,
) -> Result<Seq<char>, NetError<Seq<char>>> {
    let suffix = collision_suffix(index);
    if index == 1 {
        checked_name(root_name)
    } else {
        match split {
            Some((stem, extension)) if content_kind is File && MAX_OFFER_PORTABLE_COMPONENT_BYTES
                >= byte_len(suffix) + 1 + byte_len(extension) && longest_prefix(
                stem,
                (MAX_OFFER_PORTABLE_COMPONENT_BYTES - byte_len(suffix) - 1 - byte_len(
                    extension,
                )) as nat,
            ).len() > 0 => checked_name(
                longest_prefix(
                    stem,
                    (MAX_OFFER_PORTABLE_COMPONENT_BYTES - byte_len(suffix) - 1 - byte_len(
                        extension,
                    )) as nat,
                ) + suffix + "."@ + extension,
            ),
            _ => suffixed(root_name, suffix),
        }
    }
}

/// The name to try as number `index`, given the stem and the extension of the plain one.
pub fn split_candidate(
    root_name: &str,
    content_kind: ContentKind,
    index: usize,
    split: Option<(String, String)>,
) -> (r: Result<String, NetError>)
    ensures
        text_result(r) == candidate_with(
            root_name@,
            content_kind,
            index as nat,
            split_view(split),
        ),
{
    if index == 1 {
        return check_generated(root_name.to_owned());
    }
    let suffix = join3(" (", decimal_text(index as u64).as_str(), ")");
    if let ContentKind::File = content_kind {
        if let Some((stem, extension)) = split {
            let suffix_bytes: usize = byte_length(suffix.as_str());
            let extension_bytes: usize = byte_length(extension.as_str());
            proof {
                lemma_collision_suffix(index as nat);
            }
            if extension_bytes <= MAX_OFFER_PORTABLE_COMPONENT_BYTES && suffix_bytes + 1
                + extension_bytes <= MAX_OFFER_PORTABLE_COMPONENT_BYTES {
                let room: usize = MAX_OFFER_PORTABLE_COMPONENT_BYTES - suffix_bytes - 1
                    - extension_bytes;
                let cut = truncate_utf8(stem.as_str(), room);
                if !cut.as_str().is_empty() {
                    let head = join2(cut.as_str(), suffix.as_str());
                    return check_generated(join3(head.as_str(), ".", extension.as_str()));
                }
            }
        }
    }
    component_with_suffix(root_name, suffix.as_str())
}

/// The name to try as number `index` for content that is saved as `root_name`.
///
/// The host decides what the extension of a text is that it reads as more than one
/// component.
pub fn collision_candidate(root_name: &str, content_kind: ContentKind, index: usize) -> (r: Result<
    String,
    NetError,
>)
    ensures
        exists|split: Option<(Seq<char>, Seq<char>)>|
            text_result(r) == #[trigger] candidate_with(
                root_name@,
                content_kind,
                index as nat,
                split,
            ),
        index == 1 || single_component(root_name@) || !(content_kind is File) ==> text_result(r)
            == candidate_name(root_name@, content_kind, index as nat),
{
    let split = split_extension(root_name);
    split_candidate(root_name, content_kind, index, split)
}

/// A number in brackets is short.
proof fn lemma_collision_suffix(index: nat)
    requires
        index <= u64::MAX,
    ensures
        byte_len(collision_suffix(index)) <= 23,
{
    let suffix = collision_suffix(index);
    reveal_strlit(" (");
    reveal_strlit(")");
    assert(index < vstd::arithmetic::power::pow(10, 20)) by {
        assert(vstd::arithmetic::power::pow(10, 20) == 100_000_000_000_000_000_000) by {
            reveal_with_fuel(vstd::arithmetic::power::pow, 21);
        }
    }
    crate::text::lemma_decimal_shape(index, 20);
    let digits = decimal(index);
    assert forall|i: int| 0 <= i < suffix.len() implies suffix[i] as u32 <= 0x7f by {
        if 2 <= i < 2 + digits.len() {
            assert(suffix[i] == digits[i - 2]);
        }
    }
    lemma_byte_len_ascii(suffix);
}

/// A generated name is a portable name.
pub proof fn lemma_candidate_is_portable(
    root_name: Seq<char>,
    content_kind: ContentKind,
    index: nat,
    split: Option<(Seq<char>, Seq<char>)>,
)
    ensures
        candidate_with(root_name, content_kind, index, split) matches Ok(name)
            ==> portable_component(name) && byte_len(name) <= MAX_OFFER_PORTABLE_COMPONENT_BYTES,
{
}

} // verus!
