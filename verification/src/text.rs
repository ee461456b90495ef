//! Text helpers over the characters of a string and over its UTF-8 bytes.
use vstd::prelude::*;
use vstd::string::StringExecFns;
use vstd::utf8::{encode_scalar, encode_utf8};

verus! {

/// The number of bytes that `s` takes in UTF-8.
pub open spec fn byte_len(s: Seq<char>) -> nat {
    encode_utf8(s).len()
}

/// The number of bytes that one character takes in UTF-8.
pub open spec fn char_byte_len(c: char) -> nat {
    if c as u32 <= 0x7f {
        1
    } else if c as u32 <= 0x7ff {
        2
    } else if c as u32 <= 0xffff {
        3
    } else {
        4
    }
}

/// The bytes of a concatenation are the concatenated bytes.
pub proof fn lemma_encode_concat(a: Seq<char>, b: Seq<char>)
    ensures
        encode_utf8(a + b) == encode_utf8(a) + encode_utf8(b),
    decreases a.len(),
{
    if a.len() == 0 {
        assert(a + b =~= b);
        assert(encode_utf8(a) + encode_utf8(b) =~= encode_utf8(b));
    } else {
        assert((a + b).drop_first() =~= a.drop_first() + b);
        lemma_encode_concat(a.drop_first(), b);
        assert(encode_utf8(a + b) =~= encode_utf8(a) + encode_utf8(b));
    }
}

pub proof fn lemma_char_byte_len(c: char)
    ensures
        byte_len(seq![c]) == char_byte_len(c),
{
    vstd::utf8::char_is_scalar(c);
    let s = seq![c];
    assert(s.drop_first() =~= Seq::<char>::empty());
    assert(encode_utf8(s.drop_first()) =~= Seq::<u8>::empty());
    assert(encode_utf8(s) =~= encode_scalar(c as u32));
}

pub proof fn lemma_byte_len_concat(a: Seq<char>, b: Seq<char>)
    ensures
        byte_len(a + b) == byte_len(a) + byte_len(b),
{
    lemma_encode_concat(a, b);
}

pub proof fn lemma_byte_len_push(s: Seq<char>, c: char)
    ensures
        byte_len(s.push(c)) == byte_len(s) + char_byte_len(c),
{
    assert(s.push(c) =~= s + seq![c]);
    lemma_byte_len_concat(s, seq![c]);
    lemma_char_byte_len(c);
}

/// A text has at least one and at most four bytes per character.
pub proof fn lemma_byte_len_bounds(s: Seq<char>)
    ensures
        s.len() <= byte_len(s) <= 4 * s.len(),
    decreases s.len(),
{
    if s.len() > 0 {
        lemma_byte_len_bounds(s.drop_last());
        lemma_byte_len_push(s.drop_last(), s.last());
        assert(s.drop_last().push(s.last()) =~= s);
    }
}

/// A prefix takes no more bytes than the whole text.
pub proof fn lemma_byte_len_prefix(s: Seq<char>, n: int)
    requires
        0 <= n <= s.len(),
    ensures
        byte_len(s.subrange(0, n)) <= byte_len(s),
{
    assert(s =~= s.subrange(0, n) + s.subrange(n, s.len() as int));
    lemma_byte_len_concat(s.subrange(0, n), s.subrange(n, s.len() as int));
}

/// Text of ASCII characters takes one byte per character.
pub proof fn lemma_byte_len_ascii(s: Seq<char>)
    requires
        forall|i: int| 0 <= i < s.len() ==> s[i] as u32 <= 0x7f,
    ensures
        byte_len(s) == s.len(),
    decreases s.len(),
{
    if s.len() > 0 {
        lemma_byte_len_ascii(s.drop_last());
        lemma_byte_len_push(s.drop_last(), s.last());
        assert(s.drop_last().push(s.last()) =~= s);
    }
}

/// `String::push` appends one character.
pub assume_specification[ String::push ](s: &mut String, c: char)
    ensures
        final(s)@ == old(s)@.push(c),
;

/// The number of bytes of `s`.
pub fn byte_length(s: &str) -> (n: usize)
    ensures
        n == byte_len(s@),
{
    s.as_bytes().len()
}

/// The number of bytes that `c` takes in UTF-8.
pub fn char_bytes(c: char) -> (n: usize)
    ensures
        n == char_byte_len(c),
        1 <= n <= 4,
{
    let v: u32 = c as u32;
    if v <= 0x7f {
        1
    } else if v <= 0x7ff {
        2
    } else if v <= 0xffff {
        3
    } else {
        4
    }
}

/// The characters of `s` as a vector.
pub fn chars_of(s: &str) -> (v: Vec<char>)
    ensures
        v@ == s@,
{
    let mut v: Vec<char> = Vec::new();
    for c in it: s.chars()
        invariant
            it.seq() == s@,
            v@ == s@.subrange(0, it.index() as int),
    {
        assert(s@.subrange(0, it.index() + 1) =~= s@.subrange(0, it.index() as int).push(c));
        v.push(c);
    }
    assert(v@ =~= s@);
    v
}

/// The string made of the characters `v[from..to]`.
pub fn string_of(v: &Vec<char>, from: usize, to: usize) -> (s: String)
    requires
        from <= to <= v@.len(),
    ensures
        s@ == v@.subrange(from as int, to as int),
{
    let mut s = String::new();
    let mut i: usize = from;
    while i < to
        invariant
            from <= i <= to <= v@.len(),
            s@ =~= v@.subrange(from as int, i as int),
        decreases to - i,
    {
        s.push(v[i]);
        i = i + 1;
    }
    s
}

/// Whether two texts hold the same characters.
pub fn text_eq(a: &str, b: &str) -> (r: bool)
    ensures
        r == (a@ == b@),
{
    let x = a.to_owned();
    let y = b.to_owned();
    x == y
}

/// `a` followed by `b`.
pub fn join2(a: &str, b: &str) -> (s: String)
    ensures
        s@ == a@ + b@,
{
    let mut s = a.to_owned();
    s.append(b);
    s
}

/// `a`, `b` and `c` in a row.
pub fn join3(a: &str, b: &str, c: &str) -> (s: String)
    ensures
        s@ == a@ + b@ + c@,
{
    let mut s = a.to_owned();
    s.append(b);
    s.append(c);
    s
}

/// Whether `c` is a control character (general category Cc).
pub open spec fn control(c: char) -> bool {
    c as u32 <= 0x1f || 0x7f <= c as u32 <= 0x9f
}

pub fn is_control(c: char) -> (r: bool)
    ensures
        r == control(c),
{
    let v: u32 = c as u32;
    v <= 0x1f || (0x7f <= v && v <= 0x9f)
}

/// Whether `c` has the Unicode property White_Space.
pub open spec fn whitespace(c: char) -> bool {
    let v = c as u32;
    ||| 0x09 <= v <= 0x0d
    ||| v == 0x20
    ||| v == 0x85
    ||| v == 0xa0
    ||| v == 0x1680
    ||| 0x2000 <= v <= 0x200a
    ||| v == 0x2028
    ||| v == 0x2029
    ||| v == 0x202f
    ||| v == 0x205f
    ||| v == 0x3000
}

pub fn is_whitespace(c: char) -> (r: bool)
    ensures
        r == whitespace(c),
{
    let v: u32 = c as u32;
    (0x09 <= v && v <= 0x0d) || v == 0x20 || v == 0x85 || v == 0xa0 || v == 0x1680 || (0x2000 <= v
        && v <= 0x200a) || v == 0x2028 || v == 0x2029 || v == 0x202f || v == 0x205f || v == 0x3000
}

/// Whether nothing but white space stands in `s`.
pub open spec fn blank(s: Seq<char>) -> bool {
    forall|i: int| 0 <= i < s.len() ==> whitespace(#[trigger] s[i])
}

pub fn is_blank(s: &str) -> (r: bool)
    ensures
        r == blank(s@),
{
    for c in it: s.chars()
        invariant
            it.seq() == s@,
            forall|i: int| 0 <= i < it.index() ==> whitespace(#[trigger] s@[i]),
    {
        if !is_whitespace(c) {
            assert(!whitespace(s@[it.index() as int]));
            return false;
        }
    }
    true
}

/// Whether `c` stands somewhere in `s`.
pub fn contains_char(s: &str, c: char) -> (r: bool)
    ensures
        r == s@.contains(c),
{
    for d in it: s.chars()
        invariant
            it.seq() == s@,
            forall|i: int| 0 <= i < it.index() ==> s@[i] != c,
    {
        if d == c {
            assert(s@[it.index() as int] == c);
            return true;
        }
    }
    false
}

pub open spec fn ascii_upper_char(c: char) -> char {
    if 'a' <= c <= 'z' {
        (c as u8 - 32) as char
    } else {
        c
    }
}

pub open spec fn ascii_lower_char(c: char) -> char {
    if 'A' <= c <= 'Z' {
        (c as u8 + 32) as char
    } else {
        c
    }
}

/// `s` with the letters a to z in upper case.
pub open spec fn ascii_upper(s: Seq<char>) -> Seq<char> {
    Seq::new(s.len(), |i: int| ascii_upper_char(s[i]))
}

/// `s` with the letters A to Z in lower case.
pub open spec fn ascii_lower(s: Seq<char>) -> Seq<char> {
    Seq::new(s.len(), |i: int| ascii_lower_char(s[i]))
}

pub fn to_ascii_upper(s: &str) -> (r: String)
    ensures
        r@ == ascii_upper(s@),
{
    let mut r = String::new();
    for c in it: s.chars()
        invariant
            it.seq() == s@,
            r@ =~= ascii_upper(s@).subrange(0, it.index() as int),
    {
        let d = if 'a' <= c && c <= 'z' {
            (c as u8 - 32) as char
        } else {
            c
        };
        r.push(d);
    }
    assert(r@ =~= ascii_upper(s@));
    r
}

pub fn to_ascii_lower(s: &str) -> (r: String)
    ensures
        r@ == ascii_lower(s@),
{
    let mut r = String::new();
    for c in it: s.chars()
        invariant
            it.seq() == s@,
            r@ =~= ascii_lower(s@).subrange(0, it.index() as int),
    {
        let d = if 'A' <= c && c <= 'Z' {
            (c as u8 + 32) as char
        } else {
            c
        };
        r.push(d);
    }
    assert(r@ =~= ascii_lower(s@));
    r
}

/// The pieces of `s` between the characters `sep`.
pub open spec fn split_on(s: Seq<char>, sep: char) -> Seq<Seq<char>>
    decreases s.len(),
{
    if s.len() == 0 {
        seq![Seq::<char>::empty()]
    } else {
        let before = split_on(s.drop_last(), sep);
        if s.last() == sep {
            before.push(Seq::empty())
        } else {
            before.drop_last().push(before.last().push(s.last()))
        }
    }
}

/// A text has at least one piece.
pub proof fn lemma_split_nonempty(s: Seq<char>, sep: char)
    ensures
        split_on(s, sep).len() >= 1,
    decreases s.len(),
{
    if s.len() > 0 {
        lemma_split_nonempty(s.drop_last(), sep);
    }
}

/// The views of a vector of strings.
pub open spec fn views(v: Seq<String>) -> Seq<Seq<char>> {
    Seq::new(v.len(), |i: int| v[i]@)
}

/// The pieces of `s` between the characters `sep`, in order.
pub fn split(s: &str, sep: char) -> (r: Vec<String>)
    ensures
        views(r@) == split_on(s@, sep),
        r@.len() >= 1,
{
    let mut done: Vec<String> = Vec::new();
    let mut current = String::new();
    assert(s@.subrange(0, 0) =~= Seq::<char>::empty());
    assert(views(done@).push(current@) =~= split_on(s@.subrange(0, 0), sep));
    for c in it: s.chars()
        invariant
            it.seq() == s@,
            views(done@).push(current@) == split_on(s@.subrange(0, it.index() as int), sep),
    {
        let ghost before = s@.subrange(0, it.index() as int);
        let ghost now = s@.subrange(0, it.index() + 1);
        assert(now.drop_last() =~= before);
        let ghost pieces = views(done@).push(current@);
        assert(pieces.drop_last() =~= views(done@));
        if c == sep {
            let ghost old_done = done@;
            done.push(current);
            current = String::new();
            assert(views(done@) =~= pieces);
        } else {
            current.push(c);
        }
        assert(views(done@).push(current@) =~= split_on(now, sep));
    }
    assert(s@.subrange(0, s@.len() as int) =~= s@);
    let ghost pieces = views(done@).push(current@);
    done.push(current);
    assert(views(done@) =~= pieces);
    done
}

/// Whether `part` stands somewhere in `s`, in a row.
pub open spec fn has_part(s: Seq<char>, part: Seq<char>) -> bool {
    exists|i: int| 0 <= i <= s.len() - part.len() && #[trigger] part_at(s, part, i)
}

/// Whether `part` stands in `s` from character `i` on.
pub open spec fn part_at(s: Seq<char>, part: Seq<char>, i: int) -> bool {
    &&& 0 <= i
    &&& i + part.len() <= s.len()
    &&& s.subrange(i, i + part.len()) == part
}

/// Whether `part` stands in `s` from character `at` on.
fn stands_at(s: &Vec<char>, part: &Vec<char>, at: usize) -> (r: bool)
    requires
        at + part@.len() <= s@.len(),
    ensures
        r == part_at(s@, part@, at as int),
{
    let total: usize = s.len();
    let mut i: usize = 0;
    while i < part.len()
        invariant
            i <= part@.len(),
            at + part@.len() <= s@.len(),
            total == s@.len(),
            forall|k: int| 0 <= k < i ==> s@[at + k] == part@[k],
        decreases part@.len() - i,
    {
        if s[at + i] != part[i] {
            assert(s@.subrange(at as int, at + part@.len())[i as int] != part@[i as int]);
            return false;
        }
        i = i + 1;
    }
    assert(s@.subrange(at as int, at + part@.len()) =~= part@);
    true
}

/// Whether `part` stands somewhere in `s`.
pub fn contains_text(s: &str, part: &str) -> (r: bool)
    ensures
        r == has_part(s@, part@),
{
    let text = chars_of(s);
    let piece = chars_of(part);
    if piece.len() > text.len() {
        return false;
    }
    let last: usize = text.len() - piece.len();
    let mut at: usize = 0;
    while at < last
        invariant
            last == text@.len() - piece@.len(),
            at <= last,
            text@ == s@,
            piece@ == part@,
            forall|i: int| 0 <= i < at ==> !part_at(s@, part@, i),
        decreases last - at,
    {
        if stands_at(&text, &piece, at) {
            return true;
        }
        at = at + 1;
    }
    stands_at(&text, &piece, last)
}

/// Whether `s` begins with `part`.
pub fn begins_with(s: &str, part: &str) -> (r: bool)
    ensures
        r == part_at(s@, part@, 0),
{
    let text = chars_of(s);
    let piece = chars_of(part);
    piece.len() <= text.len() && stands_at(&text, &piece, 0)
}

/// The text under an optional string.
pub open spec fn opt_view(o: Option<String>) -> Option<Seq<char>> {
    match o {
        Some(s) => Some(s@),
        None => None,
    }
}

/// A copy of an optional string.
pub fn clone_opt(o: &Option<String>) -> (r: Option<String>)
    ensures
        opt_view(r) == opt_view(*o),
{
    match o {
        Some(s) => Some(s.clone()),
        None => None,
    }
}

/// The decimal digits of `n`.
pub open spec fn decimal(n: nat) -> Seq<char>
    decreases n,
{
    if n < 10 {
        seq![digit(n)]
    } else {
        decimal(n / 10).push(digit(n % 10))
    }
}

pub open spec fn digit(d: nat) -> char {
    (('0' as u8) + d) as char
}

/// A decimal number is written in ASCII, and one of 64 bits in at most twenty digits.
pub proof fn lemma_decimal_shape(n: nat, digits: nat)
    requires
        digits >= 1,
        n < vstd::arithmetic::power::pow(10, digits),
    ensures
        1 <= decimal(n).len() <= digits,
        forall|i: int| 0 <= i < decimal(n).len() ==> '0' <= #[trigger] decimal(n)[i] <= '9',
    decreases n,
{
    if n >= 10 {
        assert(digits != 1) by {
            vstd::arithmetic::power::lemma_pow1(10);
        }
        let fewer = (digits - 1) as nat;
        assert(vstd::arithmetic::power::pow(10, digits) == 10 * vstd::arithmetic::power::pow(10, fewer)) by {
            reveal(vstd::arithmetic::power::pow);
        }
        assert(n / 10 < vstd::arithmetic::power::pow(10, fewer));
        lemma_decimal_shape(n / 10, fewer);
    }
}

/// `n` written in decimal.
pub fn decimal_text(n: u64) -> (r: String)
    ensures
        r@ == decimal(n as nat),
    decreases n,
{
    let last = (48u8 + (n % 10) as u8) as char;
    if n < 10 {
        let mut r = String::new();
        r.push(last);
        assert(r@ =~= decimal(n as nat));
        r
    } else {
        let mut r = decimal_text(n / 10);
        r.push(last);
        r
    }
}

/// The longest prefix of `s` that takes at most `max` bytes.
pub open spec fn longest_prefix(s: Seq<char>, max: nat) -> Seq<char>
    decreases s.len(),
{
    if byte_len(s) <= max || s.len() == 0 {
        s
    } else {
        longest_prefix(s.drop_last(), max)
    }
}

/// If `n` characters fit and one more does not, the first `n` are the longest prefix.
pub proof fn lemma_longest_prefix(s: Seq<char>, n: int, max: nat)
    requires
        0 <= n <= s.len(),
        byte_len(s.subrange(0, n)) <= max,
        n < s.len() ==> byte_len(s.subrange(0, n + 1)) > max,
    ensures
        longest_prefix(s, max) == s.subrange(0, n),
    decreases s.len(),
{
    if n == s.len() {
        assert(s.subrange(0, n) =~= s);
    } else {
        assert(byte_len(s) > max) by {
            lemma_byte_len_prefix(s, n + 1);
        }
        let t = s.drop_last();
        assert(t.subrange(0, n) =~= s.subrange(0, n));
        if n < t.len() {
            assert(t.subrange(0, n + 1) =~= s.subrange(0, n + 1));
        }
        lemma_longest_prefix(t, n, max);
    }
}

/// The longest prefix fits and is a prefix.
pub proof fn lemma_longest_prefix_fits(s: Seq<char>, max: nat)
    ensures
        byte_len(longest_prefix(s, max)) <= max,
        longest_prefix(s, max).is_prefix_of(s),
    decreases s.len(),
{
    if !(byte_len(s) <= max || s.len() == 0) {
        lemma_longest_prefix_fits(s.drop_last(), max);
        assert(longest_prefix(s, max).is_prefix_of(s));
    }
}

/// Cuts `s` at the last character boundary within its first `max` bytes.
pub fn truncate_utf8(s: &str, max: usize) -> (r: String)
    ensures
        r@ == longest_prefix(s@, max as nat),
{
    let mut r = String::new();
    let mut used: usize = 0;
    assert(s@.subrange(0, 0) =~= Seq::<char>::empty());
    for c in it: s.chars()
        invariant
            it.seq() == s@,
            r@ == s@.subrange(0, it.index() as int),
            used == byte_len(r@),
            used <= max,
    {
        let n: usize = char_bytes(c);
        let ghost now = s@.subrange(0, it.index() + 1);
        proof {
            assert(now =~= r@.push(c));
            lemma_byte_len_push(r@, c);
        }
        if n > max - used {
            proof {
                lemma_longest_prefix(s@, it.index() as int, max as nat);
            }
            return r;
        }
        r.push(c);
        used = used + n;
    }
    proof {
        assert(s@.subrange(0, s@.len() as int) =~= s@);
        lemma_longest_prefix(s@, s@.len() as int, max as nat);
    }
    r
}

/// The longest prefix of a longer text is no shorter, and begins alike.
pub proof fn lemma_longest_prefix_grows(s: Seq<char>, t: Seq<char>, max: nat)
    requires
        s.is_prefix_of(t),
    ensures
        longest_prefix(s, max).is_prefix_of(longest_prefix(t, max)),
    decreases t.len(),
{
    if s.len() == t.len() {
        assert(s =~= t);
    } else {
        let shorter = t.drop_last();
        assert(s.is_prefix_of(shorter));
        lemma_longest_prefix_grows(s, shorter, max);
        lemma_longest_prefix_fits(s, max);
    }
}

/// A text without the separator is one part.
pub proof fn lemma_split_single(name: Seq<char>)
    requires
        !name.contains('/'),
    ensures
        split_on(name, '/') == seq![name],
    decreases name.len(),
{
    if name.len() == 0 {
        assert(name =~= Seq::<char>::empty());
        assert(split_on(name, '/') =~= seq![name]);
    } else {
        let rest = name.drop_last();
        assert(name[name.len() - 1] == name.last());
        assert(!rest.contains('/')) by {
            if rest.contains('/') {
                let i = choose|i: int| 0 <= i < rest.len() && rest[i] == '/';
                assert(name[i] == '/');
            }
        }
        lemma_split_single(rest);
        assert(name.last() != '/');
        assert(rest.push(name.last()) =~= name);
        assert(split_on(name, '/') =~= seq![name]);
    }
}

/// What stands behind a further separator is one part more.
pub proof fn lemma_split_child(directory: Seq<char>, name: Seq<char>)
    requires
        !name.contains('/'),
    ensures
        split_on(directory + "/"@ + name, '/') == split_on(directory, '/').push(name),
    decreases name.len(),
{
    reveal_strlit("/");
    let path = directory + "/"@ + name;
    if name.len() == 0 {
        assert(path.drop_last() =~= directory);
        assert(path.last() == '/');
        assert(name =~= Seq::<char>::empty());
    } else {
        let rest = name.drop_last();
        assert(name[name.len() - 1] == name.last());
        assert(!rest.contains('/')) by {
            if rest.contains('/') {
                let i = choose|i: int| 0 <= i < rest.len() && rest[i] == '/';
                assert(name[i] == '/');
            }
        }
        lemma_split_child(directory, rest);
        assert(path.drop_last() =~= directory + "/"@ + rest);
        assert(path.last() == name.last());
        assert(name.last() != '/');
        let before = split_on(directory, '/').push(rest);
        assert(before.drop_last() =~= split_on(directory, '/'));
        assert(rest.push(name.last()) =~= name);
    }
}

} // verus!
