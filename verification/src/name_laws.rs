//! Which names are taken, and under which names content is saved.
use vstd::prelude::*;

use crate::destination::{
    before_first_dot, candidate_name, collision_suffix, component_error, device_name, device_stem,
    forbidden_char, has_forbidden_char, last_dot, path_error, port_number, portable_component,
    stem_and_extension, suffixed, without_trailing_spaces,
};
use crate::model::ContentKind;
use crate::net_error::NetError;
use crate::source::{offerable_component, plain_device_name, servable_component};
use crate::text::{
    ascii_upper, byte_len, control, decimal, lemma_byte_len_ascii, lemma_byte_len_concat,
    longest_prefix, split_on,
};
use crate::text_laws::{lemma_decimal_stands_for_its_number, lemma_shortening_is_least};

verus! {

/// Exactly the control characters and nine others are forbidden in names.
pub proof fn lemma_forbidden_characters(c: char)
    ensures
        forbidden_char(c) <==> control(c) || "<>:\"/\\|?*"@.contains(c),
        'a' <= c <= 'z' || 'A' <= c <= 'Z' || '0' <= c <= '9' || c >= '\u{a0}' ==> !forbidden_char(
            c,
        ),
        " !#$%&'()+,-.;=@[]^_`{}~"@.contains(c) ==> !forbidden_char(c),
{
    reveal_strlit("<>:\"/\\|?*");
    reveal_strlit(" !#$%&'()+,-.;=@[]^_`{}~");
    let nine = "<>:\"/\\|?*"@;
    assert(nine =~= seq!['<', '>', ':', '"', '/', '\\', '|', '?', '*']);
    assert(nine[0] == '<' && nine[1] == '>' && nine[2] == ':' && nine[3] == '"' && nine[4] == '/'
        && nine[5] == '\\' && nine[6] == '|' && nine[7] == '?' && nine[8] == '*');
    if nine.contains(c) {
        let i = choose|i: int| 0 <= i < nine.len() && nine[i] == c;
        assert(0 <= i < 9);
    }
    let fine = " !#$%&'()+,-.;=@[]^_`{}~"@;
    if fine.contains(c) {
        let i = choose|i: int| 0 <= i < fine.len() && fine[i] == c;
        assert(fine =~= seq![
            ' ',
            '!',
            '#',
            '$',
            '%',
            '&',
            '\'',
            '(',
            ')',
            '+',
            ',',
            '-',
            '.',
            ';',
            '=',
            '@',
            '[',
            ']',
            '^',
            '_',
            '`',
            '{',
            '}',
            '~',
        ]);
        assert(0 <= i < 24);
    }
}

/// Whether a text begins as the name of a serial or parallel port does.
pub open spec fn starts_as_port(stem: Seq<char>) -> bool {
    &&& stem.len() >= 3
    &&& (stem[0] == 'C' && stem[1] == 'O' && stem[2] == 'M') || (stem[0] == 'L' && stem[1] == 'P'
        && stem[2] == 'T')
}

/// Exactly these texts name a device: CON, PRN, AUX, NUL, and COM or LPT with one of the
/// digits from one to nine or a superscript one, two or three.
pub proof fn lemma_device_names(stem: Seq<char>)
    ensures
        device_name(stem) <==> {
            ||| stem == seq!['C', 'O', 'N']
            ||| stem == seq!['P', 'R', 'N']
            ||| stem == seq!['A', 'U', 'X']
            ||| stem == seq!['N', 'U', 'L']
            ||| stem.len() == 4 && starts_as_port(stem) && "123456789\u{b9}\u{b2}\u{b3}"@.contains(
                stem[3],
            )
        },
        plain_device_name(stem) <==> {
            ||| stem == seq!['C', 'O', 'N']
            ||| stem == seq!['P', 'R', 'N']
            ||| stem == seq!['A', 'U', 'X']
            ||| stem == seq!['N', 'U', 'L']
            ||| stem.len() == 4 && starts_as_port(stem) && '1' <= stem[3] <= '9'
        },
{
    reveal_strlit("CON");
    reveal_strlit("PRN");
    reveal_strlit("AUX");
    reveal_strlit("NUL");
    reveal_strlit("COM");
    reveal_strlit("LPT");
    assert("CON"@ =~= seq!['C', 'O', 'N']);
    assert("PRN"@ =~= seq!['P', 'R', 'N']);
    assert("AUX"@ =~= seq!['A', 'U', 'X']);
    assert("NUL"@ =~= seq!['N', 'U', 'L']);
    assert("COM"@ =~= seq!['C', 'O', 'M']);
    assert("LPT"@ =~= seq!['L', 'P', 'T']);
    let numbers = "123456789\u{b9}\u{b2}\u{b3}"@;
    reveal_strlit("123456789\u{b9}\u{b2}\u{b3}");
    assert(numbers =~= seq![
        '1',
        '2',
        '3',
        '4',
        '5',
        '6',
        '7',
        '8',
        '9',
        '\u{b9}',
        '\u{b2}',
        '\u{b3}',
    ]);
    assert forall|n: char| numbers.contains(n) <==> #[trigger] port_number(n) by {
        if numbers.contains(n) {
            let i = choose|i: int| 0 <= i < numbers.len() && numbers[i] == n;
            assert(0 <= i < 12);
        }
        if port_number(n) {
            assert(numbers[0] == '1' && numbers[1] == '2' && numbers[2] == '3' && numbers[3] == '4'
                && numbers[4] == '5' && numbers[5] == '6' && numbers[6] == '7' && numbers[7] == '8'
                && numbers[8] == '9' && numbers[9] == '\u{b9}' && numbers[10] == '\u{b2}'
                && numbers[11] == '\u{b3}');
            assert(n == '1' || n == '2' || n == '3' || n == '4' || n == '5' || n == '6' || n == '7'
                || n == '8' || n == '9' || n == '\u{b9}' || n == '\u{b2}' || n == '\u{b3}');
        }
    }
    if stem.len() == 4 {
        let three = stem.subrange(0, 3);
        assert(stem[0] == three[0] && stem[1] == three[1] && stem[2] == three[2]);
        if starts_as_port(stem) {
            assert(three =~= "COM"@ || three =~= "LPT"@);
        }
        assert(port_number(stem[3]) <==> numbers.contains(stem[3]));
    }
}

proof fn lemma_first_dot(head: Seq<char>, tail: Seq<char>)
    requires
        !head.contains('.'),
        tail.len() == 0 || tail[0] == '.',
    ensures
        before_first_dot(head + tail) == head,
    decreases head.len(),
{
    if head.len() == 0 {
        assert(head + tail =~= tail);
        assert(head =~= Seq::<char>::empty());
    } else {
        let rest = head.drop_first();
        assert(head.contains(head[0]));
        if rest.contains('.') {
            let i = choose|i: int| 0 <= i < rest.len() && rest[i] == '.';
            assert(head[i + 1] == '.');
        }
        lemma_first_dot(rest, tail);
        assert((head + tail).drop_first() =~= rest + tail);
        assert(seq![head[0]] + rest =~= head);
    }
}

proof fn lemma_spaces_drop(stem: Seq<char>, spaces: nat)
    requires
        stem.len() > 0 ==> stem.last() != ' ',
    ensures
        without_trailing_spaces(stem + Seq::new(spaces, |i: int| ' ')) == stem,
    decreases spaces,
{
    let all = stem + Seq::new(spaces, |i: int| ' ');
    if spaces == 0 {
        assert(all =~= stem);
    } else {
        let fewer = (spaces - 1) as nat;
        assert(all.drop_last() =~= stem + Seq::new(fewer, |i: int| ' '));
        assert(all.last() == ' ');
        lemma_spaces_drop(stem, fewer);
    }
}

/// What is compared with the names of devices is the upper case of what stands before the
/// first dot of a name, without the spaces at its end.
pub proof fn lemma_device_stems(stem: Seq<char>, spaces: nat, tail: Seq<char>)
    requires
        !stem.contains('.'),
        stem.len() > 0 ==> stem.last() != ' ',
        tail.len() == 0 || tail[0] == '.',
    ensures
        device_stem(stem + Seq::new(spaces, |i: int| ' ') + tail) == ascii_upper(stem),
{
    let head = stem + Seq::new(spaces, |i: int| ' ');
    if head.contains('.') {
        let i = choose|i: int| 0 <= i < head.len() && head[i] == '.';
        if i < stem.len() {
            assert(stem[i] == '.');
        }
    }
    lemma_first_dot(head, tail);
    lemma_spaces_drop(stem, spaces);
}

/// Whether `s` is neither empty nor a dot or two, ends in neither a space nor a dot, and
/// has no forbidden character.
pub open spec fn well_spelled(s: Seq<char>) -> bool {
    &&& s.len() > 0
    &&& s.last() != ' '
    &&& s.last() != '.'
    &&& forall|i: int| 0 <= i < s.len() ==> !forbidden_char(#[trigger] s[i])
}

/// A name is portable exactly where it is well spelled, takes at most 255 bytes, and does
/// not stand for a device.  An origin serves exactly such names within its bound.  It is
/// offered where it is well spelled and what stands before its first dot names no device.
pub proof fn lemma_names_that_are_taken(s: Seq<char>, max_bytes: nat)
    ensures
        portable_component(s) <==> well_spelled(s) && byte_len(s) <= 255 && !device_name(
            device_stem(s),
        ),
        servable_component(s, max_bytes) <==> well_spelled(s) && byte_len(s) <= max_bytes
            && !device_name(device_stem(s)),
        offerable_component(s) <==> well_spelled(s) && !plain_device_name(
            ascii_upper(before_first_dot(s)),
        ),
        portable_component(s) <==> component_error(s) is None,
{
    reveal_strlit(".");
    reveal_strlit("..");
}

/// A name longer than any name of a device before its first dot is taken, where it is
/// well spelled and short enough.
pub proof fn lemma_ordinary_names_are_taken(stem: Seq<char>, tail: Seq<char>)
    requires
        well_spelled(stem + tail),
        byte_len(stem + tail) <= 255,
        !stem.contains('.'),
        stem.len() > 4,
        stem.last() != ' ',
        tail.len() == 0 || tail[0] == '.',
    ensures
        portable_component(stem + tail),
        offerable_component(stem + tail),
        servable_component(stem + tail, 255),
{
    lemma_first_dot(stem, tail);
    lemma_device_stems(stem, 0, tail);
    assert(stem + Seq::new(0, |i: int| ' ') + tail =~= stem + tail);
    lemma_names_that_are_taken(stem + tail, 255);
    reveal_strlit("CON");
    reveal_strlit("PRN");
    reveal_strlit("AUX");
    reveal_strlit("NUL");
    assert(ascii_upper(stem).len() > 4);
}

proof fn lemma_pieces_without_error(pieces: Seq<Seq<char>>)
    ensures
        crate::destination::first_component_error(pieces) is None <==> forall|i: int|
            0 <= i < pieces.len() ==> portable_component(#[trigger] pieces[i]),
    decreases pieces.len(),
{
    if pieces.len() > 0 {
        let rest = pieces.drop_first();
        lemma_pieces_without_error(rest);
        if component_error(pieces[0]) is None {
            if forall|i: int| 0 <= i < rest.len() ==> portable_component(#[trigger] rest[i]) {
                assert forall|i: int| 0 <= i < pieces.len() implies portable_component(
                    #[trigger] pieces[i],
                ) by {
                    if i > 0 {
                        assert(pieces[i] == rest[i - 1]);
                    }
                }
            }
            if forall|i: int| 0 <= i < pieces.len() ==> portable_component(#[trigger] pieces[i]) {
                assert forall|i: int| 0 <= i < rest.len() implies portable_component(
                    #[trigger] rest[i],
                ) by {
                    assert(rest[i] == pieces[i + 1]);
                }
            }
        } else {
            assert(!portable_component(pieces[0]));
        }
    }
}

/// A relative path is taken exactly where it takes between one and 4096 bytes, has no
/// backslash, and each part between its slashes is a portable name.
pub proof fn lemma_relative_paths_that_are_taken(s: Seq<char>)
    ensures
        path_error(s) is None <==> {
            &&& s.len() > 0
            &&& byte_len(s) <= 4096
            &&& forall|i: int|
                0 <= i < split_on(s, '/').len() ==> portable_component(
                    #[trigger] split_on(s, '/')[i],
                )
        },
{
    lemma_pieces_without_error(split_on(s, '/'));
    if s.len() > 0 && forall|i: int|
        0 <= i < split_on(s, '/').len() ==> portable_component(#[trigger] split_on(s, '/')[i]) {
        crate::text_laws::lemma_parts_make_the_text(s, '/');
        lemma_no_backslash(s);
        if s[0] == '/' {
            lemma_slash_in_front(s);
            assert(portable_component(split_on(s, '/')[0]));
        }
    }
}

proof fn lemma_no_backslash(s: Seq<char>)
    requires
        forall|i: int|
            0 <= i < split_on(s, '/').len() ==> portable_component(#[trigger] split_on(s, '/')[i]),
    ensures
        !s.contains('\\'),
    decreases s.len(),
{
    lemma_no_such_char(s, '\\');
}

/// A character of a text is the separator, or stands in one of its parts.
proof fn lemma_no_such_char(s: Seq<char>, c: char)
    requires
        c != '/',
        forall|i: int|
            0 <= i < split_on(s, '/').len() ==> !(#[trigger] split_on(s, '/')[i]).contains(c)
                || portable_component(split_on(s, '/')[i]),
        forbidden_char(c),
    ensures
        !s.contains(c),
    decreases s.len(),
{
    let parts = split_on(s, '/');
    assert forall|i: int| 0 <= i < parts.len() implies !(#[trigger] parts[i]).contains(c) by {
        if parts[i].contains(c) && portable_component(parts[i]) {
            let j = choose|j: int| 0 <= j < parts[i].len() && parts[i][j] == c;
            assert(forbidden_char(parts[i][j]));
            assert(has_forbidden_char(parts[i]));
        }
    }
    if s.contains(c) {
        lemma_char_in_part(s, c);
    }
}

proof fn lemma_char_in_part(s: Seq<char>, c: char)
    requires
        c != '/',
        s.contains(c),
    ensures
        exists|i: int|
            0 <= i < split_on(s, '/').len() && (#[trigger] split_on(s, '/')[i]).contains(c),
    decreases s.len(),
{
    let t = s.drop_last();
    let parts = split_on(s, '/');
    let before = split_on(t, '/');
    crate::text::lemma_split_nonempty(t, '/');
    let k = choose|k: int| 0 <= k < s.len() && s[k] == c;
    if k == s.len() - 1 {
        let n = parts.len() - 1;
        assert(parts[n] == before.last().push(c));
        assert(parts[n][before.last().len() as int] == c);
        assert(parts[n].contains(c));
    } else {
        assert(t[k] == c);
        lemma_char_in_part(t, c);
        let i = choose|i: int| 0 <= i < before.len() && (#[trigger] before[i]).contains(c);
        if s.last() == '/' || i < before.len() - 1 {
            assert(parts[i] == before[i]);
        } else {
            let j = choose|j: int| 0 <= j < before[i].len() && before[i][j] == c;
            assert(parts[i] == before[i].push(s.last()));
            assert(parts[i][j] == c);
            assert(parts[i].contains(c));
        }
    }
}

proof fn lemma_slash_in_front(s: Seq<char>)
    requires
        s.len() > 0,
        s[0] == '/',
    ensures
        split_on(s, '/').len() >= 2,
        split_on(s, '/')[0] == Seq::<char>::empty(),
    decreases s.len(),
{
    let t = s.drop_last();
    if t.len() == 0 {
        assert(split_on(t, '/') =~= seq![Seq::<char>::empty()]);
        assert(s.last() == '/');
    } else {
        assert(t[0] == '/');
        lemma_slash_in_front(t);
    }
}

// Names for what is saved.

/// The number behind a name, as it is written.
pub open spec fn bracketed(n: nat) -> Seq<char> {
    seq![' ', '('] + decimal(n) + seq![')']
}

proof fn lemma_bracketed(n: nat)
    requires
        n <= 9999,
    ensures
        collision_suffix(n) == bracketed(n),
        4 <= bracketed(n).len() <= 7,
        byte_len(bracketed(n)) == bracketed(n).len(),
        bracketed(n).last() == ')',
        bracketed(n)[0] == ' ',
        forall|i: int|
            0 <= i < bracketed(n).len() ==> {
                let c = #[trigger] bracketed(n)[i];
                !forbidden_char(c) && c != '.'
            },
{
    reveal_strlit(" (");
    reveal_strlit(")");
    let suffix = bracketed(n);
    assert(collision_suffix(n) =~= suffix);
    lemma_decimal_stands_for_its_number(n);
    assert(vstd::arithmetic::power::pow(10, 4) == 10000) by {
        reveal_with_fuel(vstd::arithmetic::power::pow, 5);
    }
    crate::text::lemma_decimal_shape(n, 4);
    assert forall|i: int| 0 <= i < suffix.len() implies {
        let c = #[trigger] suffix[i];
        &&& !forbidden_char(c)
        &&& c != '.'
        &&& c as u32 <= 0x7f
    } by {
        if 2 <= i < 2 + decimal(n).len() {
            assert(suffix[i] == decimal(n)[i - 2]);
        }
    }
    assert forall|i: int| 0 <= i < suffix.len() implies suffix[i] as u32 <= 0x7f by {
        let c = suffix[i];
    }
    lemma_byte_len_ascii(suffix);
}

proof fn lemma_dot_kept(a: Seq<char>, b: Seq<char>)
    requires
        a.contains('.'),
    ensures
        before_first_dot(a + b) == before_first_dot(a),
    decreases a.len(),
{
    if a[0] != '.' {
        let rest = a.drop_first();
        let i = choose|i: int| 0 <= i < a.len() && a[i] == '.';
        assert(rest[i - 1] == '.');
        lemma_dot_kept(rest, b);
        assert((a + b).drop_first() =~= rest + b);
    }
}

/// A beginning of a portable name, a number in brackets, and perhaps a dot and more of
/// the name, is a portable name again.
proof fn lemma_numbered_name_is_portable(
    root: Seq<char>,
    head: Seq<char>,
    n: nat,
    tail: Seq<char>,
)
    requires
        portable_component(root),
        n <= 9999,
        head.len() > 0,
        head.is_prefix_of(root),
        tail.len() == 0 || (tail.len() > 1 && tail[0] == '.' && tail.last() == root.last()),
        forall|i: int| 0 < i < tail.len() ==> root.contains(#[trigger] tail[i]),
        byte_len(head + bracketed(n) + tail) <= 255,
    ensures
        portable_component(head + bracketed(n) + tail),
{
    let suffix = bracketed(n);
    let name = head + suffix + tail;
    lemma_bracketed(n);
    lemma_names_that_are_taken(root, 255);
    lemma_names_that_are_taken(name, 255);
    assert forall|i: int| 0 <= i < name.len() implies !forbidden_char(#[trigger] name[i]) by {
        if i < head.len() {
            assert(name[i] == root[i]);
        } else if i < head.len() + suffix.len() {
            assert(name[i] == suffix[i - head.len()]);
        } else {
            let k = i - head.len() - suffix.len();
            assert(name[i] == tail[k]);
            if k > 0 {
                assert(root.contains(tail[k]));
                let j = choose|j: int| 0 <= j < root.len() && root[j] == tail[k];
                assert(!forbidden_char(root[j]));
            }
        }
    }
    if tail.len() == 0 {
        assert(name.last() == suffix.last());
    } else {
        assert(name.last() == tail.last());
    }
    if head.contains('.') {
        lemma_dot_kept(head, suffix + tail);
        assert(name =~= head + (suffix + tail));
        let later = root.subrange(head.len() as int, root.len() as int);
        assert(root =~= head + later);
        lemma_dot_kept(head, later);
        assert(device_stem(name) == device_stem(root));
    } else {
        let stem = head + suffix;
        if stem.contains('.') {
            let i = choose|i: int| 0 <= i < stem.len() && stem[i] == '.';
            if i < head.len() {
                assert(head[i] == '.');
            } else {
                assert(stem[i] == suffix[i - head.len()]);
            }
        }
        assert(stem.last() == suffix.last());
        lemma_device_stems(stem, 0, tail);
        assert(stem + Seq::new(0, |i: int| ' ') + tail =~= name);
        reveal_strlit("CON");
        reveal_strlit("PRN");
        reveal_strlit("AUX");
        reveal_strlit("NUL");
        assert(ascii_upper(stem).len() > 4);
    }
}

proof fn lemma_some_prefix_fits(s: Seq<char>, max: nat)
    requires
        s.len() > 0,
        max >= 4,
    ensures
        longest_prefix(s, max).len() > 0,
{
    lemma_shortening_is_least(s, max);
    let first = s.subrange(0, 1);
    crate::text::lemma_byte_len_bounds(first);
}

/// Content that is saved under a portable name gets a portable name under every number.
/// The first is the plain one.  Every other is the plain one, shortened only where it
/// must be, with the number in brackets behind it.
pub proof fn lemma_numbered_names(root: Seq<char>, content_kind: ContentKind, n: nat)
    requires
        portable_component(root),
        1 <= n <= 9999,
        !(content_kind is File) || stem_and_extension(root) is None,
    ensures
        n == 1 ==> candidate_name(root, content_kind, n) == Ok::<_, NetError<Seq<char>>>(root),
        n > 1 ==> {
            let room = (255 - bracketed(n).len()) as nat;
            candidate_name(root, content_kind, n) == Ok::<_, NetError<Seq<char>>>(
                longest_prefix(root, room) + bracketed(n),
            )
        },
        n > 1 && byte_len(root) + bracketed(n).len() <= 255 ==> candidate_name(
            root,
            content_kind,
            n,
        ) == Ok::<_, NetError<Seq<char>>>(root + bracketed(n)),
{
    lemma_names_that_are_taken(root, 255);
    lemma_bracketed(n);
    if n > 1 {
        let room = (255 - bracketed(n).len()) as nat;
        let head = longest_prefix(root, room);
        lemma_some_prefix_fits(root, room);
        lemma_shortening_is_least(root, room);
        lemma_byte_len_concat(head, bracketed(n));
        let none = Seq::<char>::empty();
        assert(head + bracketed(n) + none =~= head + bracketed(n));
        lemma_numbered_name_is_portable(root, head, n, none);
        lemma_names_that_are_taken(head + bracketed(n), 255);
    }
}

proof fn lemma_last_dot(stem: Seq<char>, extension: Seq<char>)
    requires
        !extension.contains('.'),
    ensures
        last_dot(stem.push('.') + extension) == stem.len(),
    decreases extension.len(),
{
    let all = stem.push('.') + extension;
    if extension.len() == 0 {
        assert(all =~= stem.push('.'));
    } else {
        let shorter = extension.drop_last();
        assert(extension[extension.len() - 1] == extension.last());
        if shorter.contains('.') {
            let i = choose|i: int| 0 <= i < shorter.len() && shorter[i] == '.';
            assert(extension[i] == '.');
        }
        lemma_last_dot(stem, shorter);
        assert(all.drop_last() =~= stem.push('.') + shorter);
        assert(all.last() == extension.last());
    }
}

/// A name splits at its last dot, which must not stand at its front, into what stands
/// before it and what stands behind it.
pub proof fn lemma_names_split_at_their_last_dot(stem: Seq<char>, extension: Seq<char>)
    requires
        !extension.contains('.'),
    ensures
        stem_and_extension(stem.push('.') + extension) == if stem.len() > 0 {
            Some((stem, extension))
        } else {
            None
        },
        stem_and_extension(extension) is None,
{
    let all = stem.push('.') + extension;
    lemma_last_dot(stem, extension);
    assert(all.subrange(0, stem.len() as int) =~= stem);
    assert(all.subrange(stem.len() + 1int, all.len() as int) =~= extension);
    lemma_no_dot(extension);
}

proof fn lemma_no_dot(s: Seq<char>)
    requires
        !s.contains('.'),
    ensures
        last_dot(s) == -1,
    decreases s.len(),
{
    if s.len() > 0 {
        let t = s.drop_last();
        assert(s[s.len() - 1] == s.last());
        if t.contains('.') {
            let i = choose|i: int| 0 <= i < t.len() && t[i] == '.';
            assert(s[i] == '.');
        }
        lemma_no_dot(t);
    }
}

/// A file that is saved keeps its extension: the number in brackets stands before it, and
/// what stands before the number is shortened only where it must be.
pub proof fn lemma_numbered_files_keep_their_extension(
    stem: Seq<char>,
    extension: Seq<char>,
    n: nat,
)
    requires
        portable_component(stem.push('.') + extension),
        stem.len() > 0,
        !extension.contains('.'),
        1 < n <= 9999,
        bracketed(n).len() + 1 + byte_len(extension) + 4 <= 255,
    ensures
        ({
            let room = (255 - bracketed(n).len() - 1 - byte_len(extension)) as nat;
            candidate_name(stem.push('.') + extension, ContentKind::File, n) == Ok::<
                _,
                NetError<Seq<char>>,
            >(longest_prefix(stem, room) + bracketed(n) + seq!['.'] + extension)
        }),
        byte_len(stem) + bracketed(n).len() + 1 + byte_len(extension) <= 255 ==> candidate_name(
            stem.push('.') + extension,
            ContentKind::File,
            n,
        ) == Ok::<_, NetError<Seq<char>>>(stem + bracketed(n) + seq!['.'] + extension),
{
    reveal_strlit(".");
    let root = stem.push('.') + extension;
    let room = (255 - bracketed(n).len() - 1 - byte_len(extension)) as nat;
    let head = longest_prefix(stem, room);
    let tail = seq!['.'] + extension;
    let name = head + bracketed(n) + tail;
    lemma_names_split_at_their_last_dot(stem, extension);
    lemma_bracketed(n);
    lemma_some_prefix_fits(stem, room);
    lemma_shortening_is_least(stem, room);
    lemma_names_that_are_taken(root, 255);
    if extension.len() == 0 {
        assert(root.last() == '.');
    }
    assert(tail.last() == extension.last());
    assert(root.last() == extension.last());
    assert forall|i: int| 0 < i < tail.len() implies root.contains(#[trigger] tail[i]) by {
        assert(root[stem.len() + i] == tail[i]);
    }
    lemma_byte_len_concat(head, bracketed(n));
    lemma_byte_len_concat(head + bracketed(n), tail);
    lemma_byte_len_concat(seq!['.'], extension);
    lemma_byte_len_ascii(seq!['.']);
    lemma_numbered_name_is_portable(root, head, n, tail);
    lemma_names_that_are_taken(name, 255);
    assert("."@ =~= seq!['.']);
    assert(name =~= head + bracketed(n) + seq!['.'] + extension);
    assert(head + collision_suffix(n) + "."@ + extension =~= name);
}

/// A suffix is put behind a name that is cut only where the whole would take more than
/// 255 bytes, and by no more than it must be; the outcome is a portable name.
pub proof fn lemma_suffixed_names(component: Seq<char>, suffix: Seq<char>)
    ensures
        suffixed(component, suffix) matches Ok(name) ==> {
            &&& portable_component(name)
            &&& byte_len(suffix) < 255
            &&& name == longest_prefix(component, (255 - byte_len(suffix)) as nat) + suffix
            &&& byte_len(component) + byte_len(suffix) <= 255 ==> name == component + suffix
        },
        byte_len(suffix) < 255 && component.len() > 0 && byte_len(component) + byte_len(suffix)
            <= 255 && portable_component(component + suffix) ==> suffixed(component, suffix) is Ok,
{
    if byte_len(suffix) < 255 {
        let room = (255 - byte_len(suffix)) as nat;
        lemma_shortening_is_least(component, room);
        lemma_names_that_are_taken(longest_prefix(component, room) + suffix, 255);
    }
}

} // verus!
