//! Characters, numbers and strings: the lexical ground floor of the crate.
//!
//! Everything here is stated over `Seq<char>`, the view of a string, so that the
//! grammars built on top never speak of byte offsets inside a string.

use vstd::prelude::*;
use vstd::slice::slice_subrange;
use vstd::utf8::{decode_utf8, pop_first_scalar, valid_utf8};

verus! {

// ---------------------------------------------------------------------------
// What the standard library does
// ---------------------------------------------------------------------------

/// `String::push` appends one character at the end of the string.
pub assume_specification[ String::push ](s: &mut String, c: char)
    ensures
        final(s)@ == old(s)@.push(c),
;

/// The text that `String::from_utf8_lossy` makes of `bytes`.
pub uninterp spec fn lossy_text(bytes: Seq<u8>) -> Seq<char>;

/// How many bytes stand before the first that is not ASCII.
pub open spec fn ascii_len(bytes: Seq<u8>) -> nat
    decreases bytes.len(),
{
    if bytes.len() > 0 && bytes[0] < 0x80 {
        1 + ascii_len(bytes.skip(1))
    } else {
        0
    }
}

/// The characters of the bytes before the first that is not ASCII.
pub open spec fn ascii_text(bytes: Seq<u8>) -> Seq<char> {
    Seq::new(ascii_len(bytes), |i: int| bytes[i] as char)
}

/// Decodes bytes as UTF-8 with `String::from_utf8_lossy`: bytes that are UTF-8 come
/// out as the characters they encode, and each maximal run that is not is replaced
/// by U+FFFD. Every character of the result stands for at least one byte, and the ASCII
/// bytes before the first other one come out as they are, since each of them is valid
/// UTF-8.
#[verifier::external_body]
pub(crate) fn decode_lossy(bytes: &[u8]) -> (text: String)
    ensures
        text@ == lossy_text(bytes@),
        valid_utf8(bytes@) ==> text@ == decode_utf8(bytes@),
        text@.len() <= bytes@.len(),
        ascii_text(bytes@).is_prefix_of(text@),
{
    String::from_utf8_lossy(bytes).into_owned()
}

/// The text that bytes are read as: the characters they encode if they are UTF-8, and what
/// [`lossy_text`] makes of them if they are not.
pub open spec fn decoded(bytes: Seq<u8>) -> Seq<char> {
    if valid_utf8(bytes) {
        decode_utf8(bytes)
    } else {
        lossy_text(bytes)
    }
}

/// The message with which `std::str::from_utf8` refuses `bytes`.
pub uninterp spec fn utf8_refusal(bytes: Seq<u8>) -> Seq<char>;

/// Decodes bytes as UTF-8 with `std::str::from_utf8`: the characters they encode
/// if they are valid UTF-8, the error's message if they are not.
#[verifier::external_body]
pub(crate) fn decode_strict(bytes: &[u8]) -> (r: Result<String, String>)
    ensures
        r is Ok <==> valid_utf8(bytes@),
        r matches Ok(text) ==> text@ == decode_utf8(bytes@),
        r matches Err(message) ==> message@ == utf8_refusal(bytes@),
{
    match std::str::from_utf8(bytes) {
        Ok(text) => Ok(text.to_owned()),
        Err(err) => Err(err.to_string()),
    }
}

// ---------------------------------------------------------------------------
// ASCII
// ---------------------------------------------------------------------------

/// The bytes of ASCII characters.
pub open spec fn ascii_bytes(s: Seq<char>) -> Seq<u8> {
    Seq::new(s.len(), |i: int| (s[i] as int) as u8)
}

/// What `ascii_len` counts.
pub proof fn lemma_ascii_len(bytes: Seq<u8>, n: int)
    requires
        0 <= n <= bytes.len(),
        forall|i: int| 0 <= i < n ==> #[trigger] bytes[i] < 0x80,
    ensures
        n <= ascii_len(bytes) <= bytes.len(),
    decreases bytes.len(),
{
    if bytes.len() > 0 && bytes[0] < 0x80 {
        let rest = bytes.skip(1);
        assert forall|i: int| 0 <= i < n - 1 implies #[trigger] rest[i] < 0x80 by {
            assert(rest[i] == bytes[i + 1]);
        }
        if n > 0 {
            lemma_ascii_len(rest, n - 1);
        } else {
            lemma_ascii_len(rest, 0);
        }
    }
}

/// An ASCII character is one byte.
proof fn lemma_ascii_char(c: char)
    requires
        (c as int) < 0x80,
    ensures
        ((c as int) as u8) < 0x80,
        ((c as int) as u8) as char == c,
{
}

/// ASCII characters, written as bytes, are read as they are, whatever follows them.
pub proof fn lemma_ascii_front_is_read(s: Seq<char>, rest: Seq<u8>)
    requires
        forall|i: int| 0 <= i < s.len() ==> (#[trigger] s[i] as int) < 0x80,
    ensures
        s.is_prefix_of(ascii_text(ascii_bytes(s) + rest)),
{
    let bytes = ascii_bytes(s) + rest;
    assert forall|i: int| 0 <= i < s.len() implies #[trigger] bytes[i] < 0x80 && bytes[i] as char
        == s[i] by {
        lemma_ascii_char(s[i]);
        assert(bytes[i] == ascii_bytes(s)[i]);
    }
    lemma_ascii_len(bytes, s.len() as int);
    assert(ascii_text(bytes).subrange(0, s.len() as int) == s);
}

/// In UTF-8, ASCII bytes stand for themselves.
pub proof fn lemma_ascii_front_of_utf8(bytes: Seq<u8>)
    requires
        valid_utf8(bytes),
    ensures
        ascii_text(bytes).is_prefix_of(decode_utf8(bytes)),
    decreases bytes.len(),
{
    let front = ascii_text(bytes);
    let text = decode_utf8(bytes);
    if bytes.len() > 0 && bytes[0] < 0x80 {
        let b = bytes[0];
        let rest = bytes.skip(1);
        assert(b & 0x7f == b) by (bit_vector)
            requires
                b < 0x80,
        ;
        assert(pop_first_scalar(bytes) == rest);
        lemma_ascii_front_of_utf8(rest);
        lemma_ascii_len(rest, 0);
        let tail = ascii_text(rest);
        assert(tail == decode_utf8(rest).subrange(0, tail.len() as int));
        assert forall|i: int| 0 <= i < front.len() implies front[i] == text[i] by {
            if i > 0 {
                assert(front[i] == tail[i - 1]);
                assert(text[i] == decode_utf8(rest)[i - 1]);
                assert(tail[i - 1] == decode_utf8(rest).subrange(0, tail.len() as int)[i - 1]);
            }
        }
        assert(front == text.subrange(0, front.len() as int));
    } else {
        assert(front == text.subrange(0, 0));
    }
}

// ---------------------------------------------------------------------------
// Strings and character sequences
// ---------------------------------------------------------------------------

/// The characters of a string.
pub fn chars_of(s: &str) -> (v: Vec<char>)
    ensures
        v@ == s@,
{
    let mut v: Vec<char> = Vec::new();
    for c in it: s.chars()
        invariant
            v@ == it.seq().take(it.index()),
            it.seq() == s@,
    {
        v.push(c);
    }
    v
}

/// Appends `chars` to `s`.
pub fn push_chars(s: &mut String, chars: &[char])
    ensures
        final(s)@ == old(s)@ + chars@,
{
    let mut i: usize = 0;
    while i < chars.len()
        invariant
            i <= chars@.len(),
            s@ == old(s)@ + chars@.take(i as int),
        decreases chars@.len() - i,
    {
        s.push(chars[i]);
        i += 1;
    }
    assert(chars@.take(chars@.len() as int) == chars@);
}

/// The string made of `chars`.
pub fn string_of(chars: &[char]) -> (s: String)
    ensures
        s@ == chars@,
{
    let mut s = String::new();
    push_chars(&mut s, chars);
    s
}

// ---------------------------------------------------------------------------
// Character classes and runs
// ---------------------------------------------------------------------------

/// The classes of ASCII characters of which the grammars' tokens are runs.
#[derive(Debug, Clone, Copy, PartialEq, Eq)]
pub enum CharClass {
    /// `0` to `9`.
    Digit,
    /// Letters, digits and `/`: a client name.
    Word,
    /// Hexadecimal digits, `x`, brackets, braces and commas: a window layout.
    Layout,
}

/// Whether `c` is an ASCII decimal digit.
pub open spec fn is_digit(c: char) -> bool {
    '0' <= c <= '9'
}

/// Whether `c` is an ASCII hexadecimal digit.
pub open spec fn is_hex_digit(c: char) -> bool {
    is_digit(c) || 'a' <= c <= 'f' || 'A' <= c <= 'F'
}

/// Whether `c` belongs to `class`.
pub open spec fn in_class(class: CharClass, c: char) -> bool {
    match class {
        CharClass::Digit => is_digit(c),
        CharClass::Word => is_digit(c) || 'a' <= c <= 'z' || 'A' <= c <= 'Z' || c == '/',
        CharClass::Layout => is_hex_digit(c) || c == 'x' || c == '[' || c == ']' || c == '{' || c
            == '}' || c == ',',
    }
}

/// The length of the longest prefix of `s` that is a run of `class`.
pub open spec fn run_len(class: CharClass, s: Seq<char>) -> nat
    decreases s.len(),
{
    if s.len() > 0 && in_class(class, s[0]) {
        1 + run_len(class, s.skip(1))
    } else {
        0
    }
}

/// Splits the longest non-empty run of `class` off the front of `s`.
pub open spec fn take_run(class: CharClass, s: Seq<char>) -> Option<(Seq<char>, Seq<char>)> {
    let n = run_len(class, s);
    if n > 0 {
        Some((s.take(n as int), s.skip(n as int)))
    } else {
        None
    }
}

/// What `run_len` measures: a prefix of `class`, ended by the end or by another character.
pub proof fn lemma_run_len(class: CharClass, s: Seq<char>)
    ensures
        run_len(class, s) <= s.len(),
        forall|i: int| 0 <= i < run_len(class, s) ==> in_class(class, #[trigger] s[i]),
        run_len(class, s) < s.len() ==> !in_class(class, s[run_len(class, s) as int]),
    decreases s.len(),
{
    if s.len() > 0 && in_class(class, s[0]) {
        let t = s.skip(1);
        lemma_run_len(class, t);
        assert forall|i: int| 0 <= i < run_len(class, s) implies in_class(
            class,
            #[trigger] s[i],
        ) by {
            if i > 0 {
                assert(s[i] == t[i - 1]);
            }
        }
    }
}

/// A prefix of `class` that stops at the end or at another character is the longest run.
pub proof fn lemma_run_len_is(class: CharClass, s: Seq<char>, n: int)
    requires
        0 <= n <= s.len(),
        forall|i: int| 0 <= i < n ==> in_class(class, #[trigger] s[i]),
        n < s.len() ==> !in_class(class, s[n]),
    ensures
        run_len(class, s) == n,
{
    lemma_run_len(class, s);
    let m = run_len(class, s);
    if m < n {
        assert(in_class(class, s[m as int]));
    } else if n < m {
        assert(in_class(class, s[n]));
    }
}

fn char_in_class(class: CharClass, c: char) -> (b: bool)
    ensures
        b == in_class(class, c),
{
    let digit = '0' <= c && c <= '9';
    match class {
        CharClass::Digit => digit,
        CharClass::Word => digit || ('a' <= c && c <= 'z') || ('A' <= c && c <= 'Z') || c == '/',
        CharClass::Layout => digit || ('a' <= c && c <= 'f') || ('A' <= c && c <= 'F') || c == 'x'
            || c == '[' || c == ']' || c == '{' || c == '}' || c == ',',
    }
}

/// Splits the longest non-empty run of `class` off the front of `s`.
pub fn split_run(class: CharClass, s: &[char]) -> (r: Option<(&[char], &[char])>)
    ensures
        match r {
            Some((run, rest)) => take_run(class, s@) == Some((run@, rest@)),
            None => take_run(class, s@) is None,
        },
{
    let mut n: usize = 0;
    while n < s.len() && char_in_class(class, s[n])
        invariant
            n <= s@.len(),
            forall|i: int| 0 <= i < n ==> in_class(class, #[trigger] s@[i]),
        decreases s@.len() - n,
    {
        n += 1;
    }
    proof {
        lemma_run_len_is(class, s@, n as int);
    }
    if n > 0 {
        Some((slice_subrange(s, 0, n), slice_subrange(s, n, s.len())))
    } else {
        None
    }
}

/// What follows `prefix` in `s`, if `s` begins with it.
pub open spec fn after_prefix(s: Seq<char>, prefix: Seq<char>) -> Option<Seq<char>> {
    if prefix.is_prefix_of(s) {
        Some(s.skip(prefix.len() as int))
    } else {
        None
    }
}

/// Strips `prefix` off the front of `s`.
pub fn strip_chars<'a>(s: &'a [char], prefix: &[char]) -> (r: Option<&'a [char]>)
    ensures
        match r {
            Some(rest) => after_prefix(s@, prefix@) == Some(rest@),
            None => after_prefix(s@, prefix@) is None,
        },
{
    if s.len() < prefix.len() {
        return None;
    }
    let mut i: usize = 0;
    while i < prefix.len()
        invariant
            i <= prefix@.len() <= s@.len(),
            prefix@.take(i as int) == s@.take(i as int),
        decreases prefix@.len() - i,
    {
        if s[i] != prefix[i] {
            assert(prefix@[i as int] != s@[i as int]);
            return None;
        }
        i += 1;
    }
    assert(prefix@.take(prefix@.len() as int) == prefix@);
    Some(slice_subrange(s, prefix.len(), s.len()))
}

/// Strips the string `prefix` off the front of `s`.
pub fn strip_str<'a>(s: &'a [char], prefix: &str) -> (r: Option<&'a [char]>)
    ensures
        match r {
            Some(rest) => after_prefix(s@, prefix@) == Some(rest@),
            None => after_prefix(s@, prefix@) is None,
        },
{
    let prefix = chars_of(prefix);
    strip_chars(s, prefix.as_slice())
}

/// What follows `c` in `s`, if `s` begins with it.
pub open spec fn after_char(s: Seq<char>, c: char) -> Option<Seq<char>> {
    if s.len() > 0 && s[0] == c {
        Some(s.skip(1))
    } else {
        None
    }
}

/// Strips the character `c` off the front of `s`.
pub fn strip_char<'a>(s: &'a [char], c: char) -> (r: Option<&'a [char]>)
    ensures
        match r {
            Some(rest) => after_char(s@, c) == Some(rest@),
            None => after_char(s@, c) is None,
        },
{
    if s.len() > 0 && s[0] == c {
        Some(slice_subrange(s, 1, s.len()))
    } else {
        None
    }
}

/// Compares two character sequences.
pub fn same_chars(a: &[char], b: &[char]) -> (r: bool)
    ensures
        r == (a@ == b@),
{
    if a.len() != b.len() {
        return false;
    }
    let mut i: usize = 0;
    while i < a.len()
        invariant
            i <= a@.len() == b@.len(),
            a@.take(i as int) == b@.take(i as int),
        decreases a@.len() - i,
    {
        if a[i] != b[i] {
            assert(a@[i as int] != b@[i as int]);
            return false;
        }
        i += 1;
    }
    assert(a@.take(a@.len() as int) == a@);
    assert(b@.take(b@.len() as int) == b@);
    true
}

// ---------------------------------------------------------------------------
// Splitting
// ---------------------------------------------------------------------------

/// How many characters of `s` stand before the first `c`; all of them if there is none.
pub open spec fn until_char(s: Seq<char>, c: char) -> nat
    decreases s.len(),
{
    if s.len() == 0 || s[0] == c {
        0
    } else {
        1 + until_char(s.skip(1), c)
    }
}

/// What `until_char` counts.
pub proof fn lemma_until_char(s: Seq<char>, c: char)
    ensures
        until_char(s, c) <= s.len(),
        forall|i: int| 0 <= i < until_char(s, c) ==> s[i] != c,
        until_char(s, c) < s.len() ==> s[until_char(s, c) as int] == c,
    decreases s.len(),
{
    if s.len() > 0 && s[0] != c {
        let t = s.skip(1);
        lemma_until_char(t, c);
        assert forall|i: int| 0 <= i < until_char(s, c) implies s[i] != c by {
            if i > 0 {
                assert(s[i] == t[i - 1]);
            }
        }
    }
}

/// A prefix without `c` that stops at the end or at `c` is what `until_char` counts.
pub proof fn lemma_until_char_is(s: Seq<char>, c: char, n: int)
    requires
        0 <= n <= s.len(),
        forall|i: int| 0 <= i < n ==> s[i] != c,
        n < s.len() ==> s[n] == c,
    ensures
        until_char(s, c) == n,
{
    lemma_until_char(s, c);
    let m = until_char(s, c);
    if m < n {
        assert(s[m as int] != c);
    } else if n < m {
        assert(s[n] != c);
    }
}

/// Counts the characters of `s` before the first `c`.
pub fn find_char(s: &[char], c: char) -> (n: usize)
    ensures
        n == until_char(s@, c),
        n <= s@.len(),
{
    let mut n: usize = 0;
    while n < s.len() && s[n] != c
        invariant
            n <= s@.len(),
            forall|i: int| 0 <= i < n ==> s@[i] != c,
        decreases s@.len() - n,
    {
        n += 1;
    }
    proof {
        lemma_until_char_is(s@, c, n as int);
    }
    n
}

/// The fields of `s` between the separators `sep`, empty ones among them. There is
/// always one.
pub open spec fn fields(s: Seq<char>, sep: char) -> Seq<Seq<char>>
    decreases s.len(),
{
    let n = until_char(s, sep);
    if n < s.len() {
        seq![s.take(n as int)] + fields(s.skip(n as int + 1), sep)
    } else {
        seq![s]
    }
}

/// The contents of a row of slices.
pub open spec fn contents(v: Seq<&[char]>) -> Seq<Seq<char>> {
    Seq::new(v.len(), |i: int| v[i]@)
}

/// Splits `s` at every `sep`.
pub fn split_fields(s: &[char], sep: char) -> (v: Vec<&[char]>)
    ensures
        contents(v@) == fields(s@, sep),
{
    let mut v: Vec<&[char]> = Vec::new();
    let mut cur: &[char] = s;
    assert(contents(v@) + fields(cur@, sep) == fields(s@, sep));
    loop
        invariant
            contents(v@) + fields(cur@, sep) == fields(s@, sep),
        decreases cur@.len(),
    {
        let n = find_char(cur, sep);
        let ghost before = v@;
        if n < cur.len() {
            let head = slice_subrange(cur, 0, n);
            let next = slice_subrange(cur, n + 1, cur.len());
            v.push(head);
            proof {
                assert(head@ == cur@.take(n as int));
                assert(next@ == cur@.skip(n as int + 1));
                assert(contents(v@) == contents(before) + seq![head@]);
                assert(contents(before) + (seq![head@] + fields(next@, sep)) == contents(v@)
                    + fields(next@, sep));
            }
            cur = next;
        } else {
            v.push(cur);
            assert(contents(v@) == contents(before) + seq![cur@]);
            return v;
        }
    }
}

/// Texts with a separator between them.
pub open spec fn joined(parts: Seq<Seq<char>>, sep: char) -> Seq<char>
    decreases parts.len(),
{
    if parts.len() == 0 {
        Seq::empty()
    } else if parts.len() == 1 {
        parts[0]
    } else {
        parts[0] + seq![sep] + joined(parts.skip(1), sep)
    }
}

/// Texts that were joined come apart again, unless the separator is in one of them.
pub proof fn law_joined_fields_come_apart(parts: Seq<Seq<char>>, sep: char)
    requires
        parts.len() > 0,
        forall|i: int| 0 <= i < parts.len() ==> !(#[trigger] parts[i]).contains(sep),
    ensures
        fields(joined(parts, sep), sep) == parts,
    decreases parts.len(),
{
    let s = joined(parts, sep);
    let head = parts[0];
    let n = head.len() as int;
    assert forall|i: int| 0 <= i < n implies s[i] != sep by {
        assert(head.contains(head[i]));
    }
    lemma_until_char_is(s, sep, n);
    if parts.len() == 1 {
        assert(seq![s] == parts);
    } else {
        let rest = parts.skip(1);
        assert forall|i: int| 0 <= i < rest.len() implies !(#[trigger] rest[i]).contains(sep) by {
            assert(rest[i] == parts[i + 1]);
        }
        law_joined_fields_come_apart(rest, sep);
        assert(s.take(n) == head);
        assert(s.skip(n + 1) == joined(rest, sep));
        assert(seq![head] + rest == parts);
    }
}

/// The text before and after the first occurrence of `pattern` in `s`.
pub open spec fn split_at_first(s: Seq<char>, pattern: Seq<char>) -> Option<(Seq<char>, Seq<char>)>
    decreases s.len(),
{
    if pattern.is_prefix_of(s) {
        Some((Seq::empty(), s.skip(pattern.len() as int)))
    } else if s.len() == 0 {
        None
    } else {
        match split_at_first(s.skip(1), pattern) {
            Some((before, after)) => Some((seq![s[0]] + before, after)),
            None => None,
        }
    }
}

/// Splits `s` around the first occurrence of `pattern`.
pub fn split_once<'a>(s: &'a [char], pattern: &[char]) -> (r: Option<(&'a [char], &'a [char])>)
    ensures
        match r {
            Some((before, after)) => split_at_first(s@, pattern@) == Some((before@, after@)),
            None => split_at_first(s@, pattern@) is None,
        },
{
    let mut i: usize = 0;
    assert(s@.skip(0) == s@);
    loop
        invariant
            i <= s@.len(),
            split_at_first(s@, pattern@) == match split_at_first(s@.skip(i as int), pattern@) {
                Some((before, after)) => Some((s@.take(i as int) + before, after)),
                None => None,
            },
        decreases s@.len() - i,
    {
        let rest = slice_subrange(s, i, s.len());
        assert(rest@ == s@.skip(i as int));
        if let Some(after) = strip_chars(rest, pattern) {
            let before = slice_subrange(s, 0, i);
            assert(before@ == s@.take(i as int) + Seq::<char>::empty());
            return Some((before, after));
        }
        if i == s.len() {
            return None;
        }
        proof {
            assert(rest@.skip(1) == s@.skip(i + 1));
            if let Some((before, after)) = split_at_first(s@.skip(i + 1), pattern@) {
                assert(s@.take(i as int) + (seq![rest@[0]] + before) == s@.take(i + 1) + before);
            }
        }
        i += 1;
    }
}

// ---------------------------------------------------------------------------
// Whitespace and case
// ---------------------------------------------------------------------------

/// Whether `c` has the Unicode property White_Space.
pub open spec fn is_space(c: char) -> bool {
    let n = c as u32;
    ||| 0x9 <= n <= 0xd
    ||| n == 0x20
    ||| n == 0x85
    ||| n == 0xa0
    ||| n == 0x1680
    ||| 0x2000 <= n <= 0x200a
    ||| n == 0x2028
    ||| n == 0x2029
    ||| n == 0x202f
    ||| n == 0x205f
    ||| n == 0x3000
}

/// Whether `c` is whitespace.
pub fn char_is_space(c: char) -> (r: bool)
    ensures
        r == is_space(c),
{
    let n = c as u32;
    (0x9 <= n && n <= 0xd) || n == 0x20 || n == 0x85 || n == 0xa0 || n == 0x1680 || (0x2000 <= n
        && n <= 0x200a) || n == 0x2028 || n == 0x2029 || n == 0x202f || n == 0x205f || n == 0x3000
}

/// `s` without the whitespace it begins with.
pub open spec fn trimmed_start(s: Seq<char>) -> Seq<char>
    decreases s.len(),
{
    if s.len() > 0 && is_space(s[0]) {
        trimmed_start(s.skip(1))
    } else {
        s
    }
}

/// `s` without the whitespace it ends with.
pub open spec fn trimmed_end(s: Seq<char>) -> Seq<char>
    decreases s.len(),
{
    if s.len() > 0 && is_space(s.last()) {
        trimmed_end(s.drop_last())
    } else {
        s
    }
}

/// `s` without the whitespace around it.
pub open spec fn trimmed(s: Seq<char>) -> Seq<char> {
    trimmed_end(trimmed_start(s))
}

/// Strips the whitespace around `s`.
pub fn trim(s: &[char]) -> (r: &[char])
    ensures
        r@ == trimmed(s@),
{
    let mut from: usize = 0;
    assert(s@.skip(0) == s@);
    while from < s.len() && char_is_space(s[from])
        invariant
            from <= s@.len(),
            trimmed_start(s@) == trimmed_start(s@.skip(from as int)),
        decreases s@.len() - from,
    {
        assert(s@.skip(from as int).skip(1) == s@.skip(from + 1));
        from += 1;
    }
    let ghost front = s@.skip(from as int);
    let mut to: usize = s.len();
    assert(s@.subrange(from as int, to as int) == front);
    while from < to && char_is_space(s[to - 1])
        invariant
            from <= to <= s@.len(),
            trimmed_end(front) == trimmed_end(s@.subrange(from as int, to as int)),
        decreases to - from,
    {
        assert(s@.subrange(from as int, to as int).drop_last() == s@.subrange(
            from as int,
            to - 1,
        ));
        assert(s@.subrange(from as int, to as int).last() == s@[to - 1]);
        to -= 1;
    }
    assert(from < to ==> s@.subrange(from as int, to as int).last() == s@[to - 1]);
    slice_subrange(s, from, to)
}

/// How many characters of `s` stand before the first whitespace.
pub open spec fn word_len(s: Seq<char>) -> nat
    decreases s.len(),
{
    if s.len() == 0 || is_space(s[0]) {
        0
    } else {
        1 + word_len(s.skip(1))
    }
}

/// A word is no longer than the text it begins.
pub proof fn lemma_word_len(s: Seq<char>)
    ensures
        word_len(s) <= s.len(),
        s.len() > 0 && !is_space(s[0]) ==> word_len(s) > 0,
    decreases s.len(),
{
    if s.len() > 0 && !is_space(s[0]) {
        lemma_word_len(s.skip(1));
    }
}

/// The words of `s`: what stands between whitespace.
pub open spec fn words(s: Seq<char>) -> Seq<Seq<char>>
    decreases s.len(),
{
    if s.len() == 0 {
        Seq::empty()
    } else if is_space(s[0]) {
        words(s.skip(1))
    } else {
        proof {
            lemma_word_len(s);
        }
        let n = word_len(s) as int;
        seq![s.take(n)] + words(s.skip(n))
    }
}

/// Splits `s` into its words.
pub fn split_words(s: &[char]) -> (v: Vec<&[char]>)
    ensures
        contents(v@) == words(s@),
{
    let mut v: Vec<&[char]> = Vec::new();
    let mut i: usize = 0;
    assert(s@.skip(0) == s@);
    assert(contents(v@) + words(s@) == words(s@));
    while i < s.len()
        invariant
            i <= s@.len(),
            contents(v@) + words(s@.skip(i as int)) == words(s@),
        decreases s@.len() - i,
    {
        let ghost rest = s@.skip(i as int);
        if char_is_space(s[i]) {
            assert(rest.skip(1) == s@.skip(i + 1));
            i += 1;
        } else {
            let start = i;
            while i < s.len() && !char_is_space(s[i])
                invariant
                    start <= i <= s@.len(),
                    rest == s@.skip(start as int),
                    word_len(rest) == (i - start) + word_len(s@.skip(i as int)),
                decreases s@.len() - i,
            {
                assert(s@.skip(i as int).skip(1) == s@.skip(i + 1));
                i += 1;
            }
            proof {
                lemma_word_len(rest);
            }
            let word = slice_subrange(s, start, i);
            let ghost before = v@;
            v.push(word);
            proof {
                assert(word@ == rest.take(i - start));
                assert(rest.skip(i - start) == s@.skip(i as int));
                assert(contents(v@) == contents(before) + seq![word@]);
                assert(contents(before) + (seq![word@] + words(s@.skip(i as int))) == contents(v@)
                    + words(s@.skip(i as int)));
            }
        }
    }
    assert(contents(v@) + words(s@.skip(s@.len() as int)) == contents(v@));
    v
}

/// The lower case of an ASCII letter; other characters stay as they are.
pub open spec fn lower(c: char) -> char {
    if 'A' <= c <= 'Z' {
        (c as u32 + 32) as char
    } else {
        c
    }
}

/// `s` with its ASCII letters in lower case.
pub open spec fn lowered(s: Seq<char>) -> Seq<char> {
    Seq::new(s.len(), |i: int| lower(s[i]))
}

/// `s` with its ASCII letters in lower case.
pub fn lower_chars(s: &[char]) -> (v: Vec<char>)
    ensures
        v@ == lowered(s@),
{
    let mut v: Vec<char> = Vec::new();
    let mut i: usize = 0;
    while i < s.len()
        invariant
            i <= s@.len(),
            v@ == lowered(s@).take(i as int),
        decreases s@.len() - i,
    {
        let c = s[i];
        if 'A' <= c && c <= 'Z' {
            v.push((c as u8 + 32) as char);
        } else {
            v.push(c);
        }
        i += 1;
    }
    assert(lowered(s@).take(s@.len() as int) == lowered(s@));
    v
}

/// Compares characters with a string.
pub fn eq_str(a: &[char], b: &str) -> (r: bool)
    ensures
        r == (a@ == b@),
{
    let b = chars_of(b);
    same_chars(a, b.as_slice())
}

// ---------------------------------------------------------------------------
// Decimal numbers
// ---------------------------------------------------------------------------

/// Whether `s` consists of decimal digits only.
pub open spec fn all_digits(s: Seq<char>) -> bool {
    forall|i: int| 0 <= i < s.len() ==> is_digit(#[trigger] s[i])
}

/// The value of the digit `c`.
pub open spec fn digit_value(c: char) -> int {
    c as int - '0' as int
}

/// The number that the digits `s` denote, most significant first.
pub open spec fn digits_value(s: Seq<char>) -> int
    decreases s.len(),
{
    if s.len() == 0 {
        0
    } else {
        digits_value(s.drop_last()) * 10 + digit_value(s.last())
    }
}

/// Digits to the right never make a number smaller.
pub proof fn lemma_digits_value_grows(s: Seq<char>, n: int)
    requires
        all_digits(s),
        0 <= n <= s.len(),
    ensures
        0 <= digits_value(s.take(n)) <= digits_value(s),
    decreases s.len(),
{
    if n == s.len() {
        assert(s.take(n) == s);
        if s.len() > 0 {
            lemma_digits_value_grows(s.drop_last(), s.len() - 1);
            assert(s.drop_last().take(s.len() - 1) == s.drop_last());
            assert(is_digit(s[s.len() - 1]));
        }
    } else {
        lemma_digits_value_grows(s.drop_last(), n);
        assert(s.drop_last().take(n) == s.take(n));
        assert(is_digit(s[s.len() - 1]));
    }
}

/// The number that `s` denotes: one or more digits and nothing else.
pub open spec fn number_of(s: Seq<char>) -> Option<int> {
    if s.len() > 0 && all_digits(s) {
        Some(digits_value(s))
    } else {
        None
    }
}

/// Splits a number that fits in 64 bits off the front of `s`.
pub open spec fn take_number(s: Seq<char>) -> Option<(u64, Seq<char>)> {
    match take_run(CharClass::Digit, s) {
        Some((digits, rest)) => if digits_value(digits) <= u64::MAX {
            Some((digits_value(digits) as u64, rest))
        } else {
            None
        },
        None => None,
    }
}

/// A number leaves less text than there was.
pub proof fn lemma_take_number_shrinks(s: Seq<char>)
    ensures
        take_number(s) matches Some((_, rest)) ==> rest.len() < s.len(),
{
    lemma_run_len(CharClass::Digit, s);
}

/// Splits a number that fits in 64 bits off the front of `s`.
pub fn split_number(s: &[char]) -> (r: Option<(u64, &[char])>)
    ensures
        match r {
            Some((n, rest)) => take_number(s@) == Some((n, rest@)) && rest@.len() < s@.len(),
            None => take_number(s@) is None,
        },
{
    let (digits, rest) = split_run(CharClass::Digit, s)?;
    proof {
        lemma_run_len(CharClass::Digit, s@);
        lemma_take_number_shrinks(s@);
        assert forall|i: int| 0 <= i < digits@.len() implies is_digit(
            #[trigger] digits@[i],
        ) by {
            assert(in_class(CharClass::Digit, s@[i]));
        }
        lemma_digits_value_grows(digits@, 0);
    }
    match parse_digits(digits) {
        Some(n) => Some((n, rest)),
        None => None,
    }
}

/// The number written at the front of a text is the number read there.
pub proof fn lemma_take_decimal(n: u64, rest: Seq<char>)
    requires
        rest.len() > 0 ==> !is_digit(rest[0]),
    ensures
        take_number(decimal(n as nat) + rest) == Some((n, rest)),
{
    let d = decimal(n as nat);
    let s = d + rest;
    law_decimal_reads_back(n as nat);
    assert forall|i: int| 0 <= i < d.len() implies in_class(
        CharClass::Digit,
        #[trigger] s[i],
    ) by {
        assert(is_digit(d[i]));
    }
    lemma_run_len_is(CharClass::Digit, s, d.len() as int);
    assert(s.take(d.len() as int) == d);
    assert(s.skip(d.len() as int) == rest);
}

/// The digits left when an optional leading `+` is dropped.
pub open spec fn drop_plus(s: Seq<char>) -> Seq<char> {
    if s.len() > 0 && s[0] == '+' {
        s.skip(1)
    } else {
        s
    }
}

/// The unsigned number up to `max` that the whole of `s` denotes: digits, with an
/// optional `+` before them.
pub open spec fn unsigned_in(s: Seq<char>, max: int) -> Option<int> {
    match number_of(drop_plus(s)) {
        Some(v) => if v <= max {
            Some(v)
        } else {
            None
        },
        None => None,
    }
}

/// The signed number from `min` to `max` that the whole of `s` denotes: digits,
/// with an optional `+` or `-` before them.
pub open spec fn signed_in(s: Seq<char>, min: int, max: int) -> Option<int> {
    if s.len() > 0 && s[0] == '-' {
        match number_of(s.skip(1)) {
            Some(v) => if min <= -v {
                Some(-v)
            } else {
                None
            },
            None => None,
        }
    } else {
        unsigned_in(s, max)
    }
}

/// The value of a non-empty run of digits, if it fits in 64 bits.
pub fn parse_digits(s: &[char]) -> (r: Option<u64>)
    ensures
        match r {
            Some(v) => number_of(s@) == Some(v as int),
            None => match number_of(s@) {
                Some(v) => v > u64::MAX,
                None => true,
            },
        },
{
    if s.len() == 0 {
        return None;
    }
    let mut value: u64 = 0;
    let mut i: usize = 0;
    while i < s.len()
        invariant
            i <= s@.len(),
            all_digits(s@.take(i as int)),
            value == digits_value(s@.take(i as int)),
        decreases s@.len() - i,
    {
        let c = s[i];
        if c < '0' || '9' < c {
            assert(!is_digit(s@[i as int]));
            return None;
        }
        let digit: u64 = (c as u32 - '0' as u32) as u64;
        assert(s@.take(i + 1).drop_last() == s@.take(i as int));
        assert(s@.take(i + 1).last() == c);
        if value > (u64::MAX - digit) / 10 {
            proof {
                if all_digits(s@) {
                    lemma_digits_value_grows(s@, i + 1);
                }
            }
            return None;
        }
        value = value * 10 + digit;
        assert(all_digits(s@.take(i + 1))) by {
            assert forall|j: int| 0 <= j < i + 1 implies is_digit(
                #[trigger] s@.take(i + 1)[j],
            ) by {
                if j < i {
                    assert(s@.take(i + 1)[j] == s@.take(i as int)[j]);
                }
            }
        }
        i += 1;
    }
    assert(s@.take(s@.len() as int) == s@);
    Some(value)
}

fn skip_plus(s: &[char]) -> (r: &[char])
    ensures
        r@ == drop_plus(s@),
{
    if s.len() > 0 && s[0] == '+' {
        slice_subrange(s, 1, s.len())
    } else {
        s
    }
}

/// Reads `s` as a `u64`.
pub fn parse_u64(s: &[char]) -> (r: Option<u64>)
    ensures
        match r {
            Some(v) => unsigned_in(s@, u64::MAX as int) == Some(v as int),
            None => unsigned_in(s@, u64::MAX as int) is None,
        },
{
    parse_digits(skip_plus(s))
}

/// Reads `s` as a `u16`.
pub fn parse_u16(s: &[char]) -> (r: Option<u16>)
    ensures
        match r {
            Some(v) => unsigned_in(s@, u16::MAX as int) == Some(v as int),
            None => unsigned_in(s@, u16::MAX as int) is None,
        },
{
    match parse_digits(skip_plus(s)) {
        Some(v) => if v <= u16::MAX as u64 {
            Some(v as u16)
        } else {
            None
        },
        None => None,
    }
}

/// Reads `s` as a `usize`.
pub fn parse_usize(s: &[char]) -> (r: Option<usize>)
    ensures
        match r {
            Some(v) => unsigned_in(s@, usize::MAX as int) == Some(v as int),
            None => unsigned_in(s@, usize::MAX as int) is None,
        },
{
    match parse_digits(skip_plus(s)) {
        Some(v) => if v <= usize::MAX as u64 {
            Some(v as usize)
        } else {
            None
        },
        None => None,
    }
}

/// Reads `s` as an `isize`.
pub fn parse_isize(s: &[char]) -> (r: Option<isize>)
    ensures
        match r {
            Some(v) => signed_in(s@, isize::MIN as int, isize::MAX as int) == Some(v as int),
            None => signed_in(s@, isize::MIN as int, isize::MAX as int) is None,
        },
{
    if s.len() > 0 && s[0] == '-' {
        match parse_digits(slice_subrange(s, 1, s.len())) {
            Some(v) => if v <= isize::MAX as u64 {
                Some(-(v as isize))
            } else if v == isize::MAX as u64 + 1 {
                Some(isize::MIN)
            } else {
                None
            },
            None => None,
        }
    } else {
        match parse_digits(skip_plus(s)) {
            Some(v) => if v <= isize::MAX as u64 {
                Some(v as isize)
            } else {
                None
            },
            None => None,
        }
    }
}

/// The digit with value `n`.
pub open spec fn digit_char(n: int) -> char {
    ('0' as int + n) as char
}

/// The decimal digits of `n`, without leading zeros.
pub open spec fn decimal(n: nat) -> Seq<char>
    decreases n,
{
    if n < 10 {
        seq![digit_char(n as int)]
    } else {
        decimal(n / 10).push(digit_char((n % 10) as int))
    }
}

/// The decimal text of a signed number.
pub open spec fn signed_decimal(n: int) -> Seq<char> {
    if n < 0 {
        seq!['-'] + decimal((-n) as nat)
    } else {
        decimal(n as nat)
    }
}

/// Reading a number back gives the number that was written.
pub proof fn law_decimal_reads_back(n: nat)
    ensures
        number_of(decimal(n)) == Some(n as int),
        decimal(n).len() > 0,
        drop_plus(decimal(n)) == decimal(n),
    decreases n,
{
    let d = decimal(n);
    if n < 10 {
        assert(d.drop_last() == Seq::<char>::empty());
        assert(digits_value(d.drop_last()) == 0);
        assert(digits_value(d) == n);
    } else {
        law_decimal_reads_back(n / 10);
        assert(d.drop_last() == decimal(n / 10));
        assert forall|i: int| 0 <= i < d.len() implies is_digit(#[trigger] d[i]) by {
            if i < d.len() - 1 {
                assert(d[i] == decimal(n / 10)[i]);
            }
        }
    }
    assert(is_digit(d[0]));
}

fn digit_of(n: u64) -> (c: char)
    requires
        n < 10,
    ensures
        c == digit_char(n as int),
{
    ('0' as u8 + n as u8) as char
}

/// Appends the decimal digits of `n` to `s`.
pub fn push_decimal(s: &mut String, n: u64)
    ensures
        final(s)@ == old(s)@ + decimal(n as nat),
    decreases n,
{
    if n < 10 {
        s.push(digit_of(n));
    } else {
        push_decimal(s, n / 10);
        s.push(digit_of(n % 10));
    }
}

} // verus!
