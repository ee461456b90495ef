//! What the text helpers mean, in terms of characters and numbers.
use vstd::prelude::*;

use crate::text::{
    ascii_lower, ascii_lower_char, ascii_upper, ascii_upper_char, blank, byte_len, control, decimal,
    digit, has_part, lemma_longest_prefix_fits, longest_prefix, part_at, split_on, whitespace,
};

verus! {

/// The control characters are those below the space, and from the delete character to
/// the end of the second control block.
pub proof fn lemma_control_characters(c: char)
    ensures
        control(c) <==> (c < ' ' || '\u{7f}' <= c < '\u{a0}'),
        control('\n') && control('\r') && control('\t') && control('\0'),
        ' ' <= c <= '~' ==> !control(c),
        c >= '\u{a0}' ==> !control(c),
{
}

/// A space and the breaks of lines are white space; letters, digits and the printable
/// characters of ASCII are not.
pub proof fn lemma_white_space(c: char)
    ensures
        whitespace(' ') && whitespace('\t') && whitespace('\n') && whitespace('\r'),
        '!' <= c <= '~' ==> !whitespace(c),
        whitespace(c) && c <= '~' ==> c == ' ' || '\t' <= c <= '\r',
        c > '~' ==> (whitespace(c) <==> c == '\u{85}' || c == '\u{a0}' || c == '\u{1680}'
            || '\u{2000}' <= c <= '\u{200a}' || c == '\u{2028}' || c == '\u{2029}' || c
            == '\u{202f}' || c == '\u{205f}' || c == '\u{3000}'),
{
}

/// Changing case changes the 26 letters of ASCII and nothing else, one for one.
pub proof fn lemma_ascii_case(c: char)
    ensures
        'a' <= c <= 'z' <==> ascii_upper_char(c) != c,
        'A' <= c <= 'Z' <==> ascii_lower_char(c) != c,
        'a' <= c <= 'z' ==> 'A' <= ascii_upper_char(c) <= 'Z' && ascii_lower_char(
            ascii_upper_char(c),
        ) == c,
        'A' <= c <= 'Z' ==> 'a' <= ascii_lower_char(c) <= 'z' && ascii_upper_char(
            ascii_lower_char(c),
        ) == c,
{
}

/// Case is changed character by character.
pub proof fn lemma_ascii_case_of_texts(s: Seq<char>, i: int)
    ensures
        ascii_upper(s).len() == s.len(),
        ascii_lower(s).len() == s.len(),
        0 <= i < s.len() ==> ascii_upper(s)[i] == ascii_upper_char(s[i]) && ascii_lower(s)[i]
            == ascii_lower_char(s[i]),
{
}

/// The number that some decimal digits stand for.
pub open spec fn number_of(digits: Seq<char>) -> int
    decreases digits.len(),
{
    if digits.len() == 0 {
        0
    } else {
        10 * number_of(digits.drop_last()) + (digits.last() as u32 - '0' as u32)
    }
}

/// A number in decimal is made of digits, without a zero in front, and stands for the
/// number.
pub proof fn lemma_decimal_stands_for_its_number(n: nat)
    ensures
        number_of(decimal(n)) == n,
        decimal(n).len() >= 1,
        forall|i: int| 0 <= i < decimal(n).len() ==> '0' <= #[trigger] decimal(n)[i] <= '9',
        n > 0 ==> decimal(n)[0] != '0',
        n == 0 ==> decimal(n) == seq!['0'],
    decreases n,
{
    if n < 10 {
        let s = decimal(n);
        assert(s.drop_last() =~= Seq::<char>::empty());
        assert(number_of(s.drop_last()) == 0);
        assert(s.last() == digit(n));
    } else {
        let rest = decimal(n / 10);
        lemma_decimal_stands_for_its_number(n / 10);
        assert(decimal(n).drop_last() =~= rest);
        assert(decimal(n).last() == digit(n % 10));
        assert(decimal(n)[0] == rest[0]);
        assert forall|i: int| 0 <= i < decimal(n).len() implies '0' <= #[trigger] decimal(n)[i]
            <= '9' by {
            if i < rest.len() {
                assert(decimal(n)[i] == rest[i]);
            }
        }
    }
}

/// Different numbers have different decimal forms.
pub proof fn lemma_decimals_differ(a: nat, b: nat)
    requires
        a != b,
    ensures
        decimal(a) != decimal(b),
{
    lemma_decimal_stands_for_its_number(a);
    lemma_decimal_stands_for_its_number(b);
}

/// Texts in a row, with a separator between any two.
pub open spec fn rejoined(parts: Seq<Seq<char>>, sep: char) -> Seq<char>
    decreases parts.len(),
{
    if parts.len() == 0 {
        Seq::empty()
    } else if parts.len() == 1 {
        parts[0]
    } else {
        rejoined(parts.drop_last(), sep).push(sep) + parts.last()
    }
}

/// The parts of a text hold no separator, and with separators between them they are the
/// text.
pub proof fn lemma_parts_make_the_text(s: Seq<char>, sep: char)
    ensures
        split_on(s, sep).len() >= 1,
        rejoined(split_on(s, sep), sep) == s,
        forall|i: int|
            0 <= i < split_on(s, sep).len() ==> !(#[trigger] split_on(s, sep)[i]).contains(sep),
    decreases s.len(),
{
    let parts = split_on(s, sep);
    if s.len() == 0 {
        assert(parts[0] =~= s);
    } else {
        let t = s.drop_last();
        let before = split_on(t, sep);
        lemma_parts_make_the_text(t, sep);
        assert(t.push(s.last()) =~= s);
        if s.last() == sep {
            assert(parts.drop_last() =~= before);
            assert(parts.last() == Seq::<char>::empty());
            assert(rejoined(parts, sep) =~= t.push(sep) + Seq::<char>::empty());
            assert forall|i: int| 0 <= i < parts.len() implies !(#[trigger] parts[i]).contains(
                sep,
            ) by {
                if i < before.len() {
                    assert(parts[i] == before[i]);
                }
            }
        } else {
            let last = before.last();
            let n = before.len() - 1;
            assert(before[n] == last);
            assert(parts.drop_last() =~= before.drop_last());
            assert(parts.last() == last.push(s.last()));
            if n > 0 {
                assert(rejoined(parts, sep) =~= rejoined(before, sep).push(s.last()));
            } else {
                assert(parts[0] == last.push(s.last()));
                assert(rejoined(before, sep) == before[0]);
            }
            assert forall|i: int| 0 <= i < parts.len() implies !(#[trigger] parts[i]).contains(
                sep,
            ) by {
                if i < n {
                    assert(parts[i] == before[i]);
                } else {
                    assert(!last.contains(sep));
                    if parts[i].contains(sep) {
                        let j = choose|j: int| 0 <= j < parts[i].len() && parts[i][j] == sep;
                        if j < last.len() {
                            assert(last[j] == sep);
                        }
                    }
                }
            }
        }
    }
}

/// A text is shortened only where it is too long, and then by no more than it must be:
/// what is left fits, and one character more would not.
pub proof fn lemma_shortening_is_least(s: Seq<char>, max: nat)
    ensures
        byte_len(longest_prefix(s, max)) <= max,
        longest_prefix(s, max).is_prefix_of(s),
        byte_len(s) <= max ==> longest_prefix(s, max) == s,
        ({
            let n = longest_prefix(s, max).len();
            n < s.len() ==> byte_len(s.subrange(0, n + 1int)) > max
        }),
    decreases s.len(),
{
    lemma_longest_prefix_fits(s, max);
    if !(byte_len(s) <= max || s.len() == 0) {
        let t = s.drop_last();
        lemma_shortening_is_least(t, max);
        let n = longest_prefix(t, max).len() as int;
        if n < t.len() {
            assert(t.subrange(0, n + 1) =~= s.subrange(0, n + 1));
        } else {
            assert(s.subrange(0, n + 1) =~= s);
        }
    }
}

/// A text has a part exactly where it is something, the part and something again.
pub proof fn lemma_part_means_around(s: Seq<char>, part: Seq<char>)
    ensures
        has_part(s, part) <==> exists|a: Seq<char>, b: Seq<char>| s == #[trigger] (a + part + b),
{
    if has_part(s, part) {
        let i = choose|i: int| 0 <= i <= s.len() - part.len() && #[trigger] part_at(s, part, i);
        let a = s.subrange(0, i);
        let b = s.subrange(i + part.len(), s.len() as int);
        assert(s =~= a + part + b);
    }
    if exists|a: Seq<char>, b: Seq<char>| s == #[trigger] (a + part + b) {
        let (a, b) = choose|a: Seq<char>, b: Seq<char>| s == #[trigger] (a + part + b);
        let i = a.len() as int;
        assert(s.subrange(i, i + part.len()) =~= part);
        assert(part_at(s, part, i));
    }
}

/// A text without any character, and one of spaces, is blank; one with a printable
/// character is not.
pub proof fn lemma_blank_texts(s: Seq<char>, i: int)
    ensures
        s.len() == 0 ==> blank(s),
        (forall|k: int| 0 <= k < s.len() ==> #[trigger] s[k] == ' ') ==> blank(s),
        0 <= i < s.len() && '!' <= s[i] <= '~' ==> !blank(s),
        0 <= i < s.len() && !whitespace(s[i]) ==> !blank(s),
        !blank(s) ==> exists|k: int| 0 <= k < s.len() && !whitespace(#[trigger] s[k]),
{
}

} // verus!
