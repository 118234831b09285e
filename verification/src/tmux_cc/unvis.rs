//! Decoding of text that tmux has escaped in the manner of OpenBSD `vis`.

use vstd::prelude::*;
use vstd::slice::slice_subrange;
use vstd::utf8::{decode_utf8, encode_utf8, valid_utf8};

use crate::text::decode_strict;

verus! {

/// Why a line, a layout or an escaped string was refused.
#[derive(Debug, Clone, Copy, PartialEq, Eq)]
pub enum Error {
    /// The line is none of the notifications of control mode.
    UnrecognizedLine,
    /// A backslash is followed by this byte, which begins no escape.
    InvalidEscape(u8),
    /// `\M` is followed by this byte, which is neither `-` nor `^`.
    InvalidMetaEscape(u8),
    /// The unescaped bytes are not UTF-8.
    NotUtf8,
    /// The text is no window layout.
    InvalidLayout,
}

/// What the bytes after a backslash amount to.
#[derive(Debug, Clone, Copy, PartialEq, Eq)]
pub enum Escape {
    /// The input ends before the escape is complete.
    Incomplete,
    /// The bytes are no escape.
    Invalid(Error),
    /// This many bytes stand for nothing at all.
    Nothing(usize),
    /// This many bytes stand for one byte.
    Byte(u8, usize),
}

/// Whether `b` is an octal digit.
pub open spec fn is_octal(b: u8) -> bool {
    0x30 <= b <= 0x37
}

/// The escapes of one letter: the byte that `\` followed by `b` stands for.
pub open spec fn letter_escape(b: u8) -> Option<u8> {
    if b == 0x5c {
        Some(0x5c)  // \\
    } else if b == 0x6e {
        Some(0x0a)  // \n
    } else if b == 0x72 {
        Some(0x0d)  // \r
    } else if b == 0x62 {
        Some(0x08)  // \b
    } else if b == 0x61 {
        Some(0x07)  // \a
    } else if b == 0x76 {
        Some(0x0b)  // \v
    } else if b == 0x74 {
        Some(0x09)  // \t
    } else if b == 0x66 {
        Some(0x0c)  // \f
    } else if b == 0x73 {
        Some(0x20)  // \s
    } else if b == 0x45 {
        Some(0x1b)  // \E
    } else {
        None
    }
}

/// One to three octal digits, the longest run there is; the value is taken modulo 256.
pub open spec fn octal_escape(s: Seq<u8>) -> Escape {
    let d0 = s[0] - 0x30;
    if s.len() == 1 {
        Escape::Incomplete
    } else if !is_octal(s[1]) {
        Escape::Byte(d0 as u8, 1)
    } else if s.len() == 2 {
        Escape::Incomplete
    } else if !is_octal(s[2]) {
        Escape::Byte((d0 * 8 + (s[1] - 0x30)) as u8, 2)
    } else {
        Escape::Byte(((d0 * 64 + (s[1] - 0x30) * 8 + (s[2] - 0x30)) % 256) as u8, 3)
    }
}

/// The control character named by the byte at `at`, with the bits of `meta` set.
pub open spec fn control_escape(s: Seq<u8>, at: usize, meta: u8) -> Escape {
    if s.len() <= at {
        Escape::Incomplete
    } else if s[at as int] == 0x3f {
        Escape::Byte(meta | 0x7f, (at + 1) as usize)
    } else {
        Escape::Byte((s[at as int] & 0x1f) | meta, (at + 1) as usize)
    }
}

/// What follows `\M`: `-` and a byte, or `^` and a control character.
pub open spec fn meta_escape(s: Seq<u8>) -> Escape {
    if s.len() == 1 {
        Escape::Incomplete
    } else if s[1] == 0x2d {
        if s.len() == 2 {
            Escape::Incomplete
        } else {
            Escape::Byte(s[2] | 0x80, 3)
        }
    } else if s[1] == 0x5e {
        control_escape(s, 2, 0x80)
    } else {
        Escape::Invalid(Error::InvalidMetaEscape(s[1]))
    }
}

/// The escape that the bytes `s` after a backslash begin with.
pub open spec fn escape(s: Seq<u8>) -> Escape {
    if s.len() == 0 {
        Escape::Incomplete
    } else if is_octal(s[0]) {
        octal_escape(s)
    } else if s[0] == 0x4d {
        meta_escape(s)
    } else if s[0] == 0x5e {
        control_escape(s, 1, 0)
    } else if s[0] == 0x0a || s[0] == 0x24 {
        Escape::Nothing(1)
    } else {
        match letter_escape(s[0]) {
            Some(b) => Escape::Byte(b, 1),
            None => Escape::Invalid(Error::InvalidEscape(s[0])),
        }
    }
}

/// `front` before the bytes of a successful decoding.
pub open spec fn prepend(front: Seq<u8>, r: Result<Seq<u8>, Error>) -> Result<Seq<u8>, Error> {
    match r {
        Ok(rest) => Ok(front + rest),
        Err(e) => Err(e),
    }
}

/// The bytes that the escaped bytes `s` stand for. An escape that the end of the
/// input cuts short stands for nothing.
pub open spec fn unescaped(s: Seq<u8>) -> Result<Seq<u8>, Error>
    decreases s.len(),
{
    if s.len() == 0 {
        Ok(Seq::empty())
    } else if s[0] != 0x5c {
        prepend(seq![s[0]], unescaped(s.skip(1)))
    } else {
        match escape(s.skip(1)) {
            Escape::Incomplete => Ok(Seq::empty()),
            Escape::Invalid(e) => Err(e),
            Escape::Nothing(n) => if 0 < n < s.len() {
                unescaped(s.skip(1 + n))
            } else {
                Ok(Seq::empty())
            },
            Escape::Byte(b, n) => if 0 < n < s.len() {
                prepend(seq![b], unescaped(s.skip(1 + n)))
            } else {
                Ok(Seq::empty())
            },
        }
    }
}

/// The text that the escaped text `s` stands for.
pub open spec fn unescaped_text(s: Seq<char>) -> Result<Seq<char>, Error> {
    match unescaped(encode_utf8(s)) {
        Ok(bytes) => if valid_utf8(bytes) {
            Ok(decode_utf8(bytes))
        } else {
            Err(Error::NotUtf8)
        },
        Err(e) => Err(e),
    }
}

fn octal(b: u8) -> (r: bool)
    ensures
        r == is_octal(b),
{
    0x30 <= b && b <= 0x37
}

fn letter(b: u8) -> (r: Option<u8>)
    ensures
        r == letter_escape(b),
{
    match b {
        0x5c => Some(0x5c),
        0x6e => Some(0x0a),
        0x72 => Some(0x0d),
        0x62 => Some(0x08),
        0x61 => Some(0x07),
        0x76 => Some(0x0b),
        0x74 => Some(0x09),
        0x66 => Some(0x0c),
        0x73 => Some(0x20),
        0x45 => Some(0x1b),
        _ => None,
    }
}

fn control(s: &[u8], at: usize, meta: u8) -> (r: Escape)
    requires
        at < usize::MAX,
    ensures
        r == control_escape(s@, at, meta),
{
    if s.len() <= at {
        Escape::Incomplete
    } else if s[at] == 0x3f {
        Escape::Byte(meta | 0x7f, at + 1)
    } else {
        Escape::Byte((s[at] & 0x1f) | meta, at + 1)
    }
}

/// Reads the escape at the front of `s`, the bytes after a backslash.
fn read_escape(s: &[u8]) -> (r: Escape)
    ensures
        r == escape(s@),
        r matches Escape::Nothing(n) ==> 0 < n <= s@.len(),
        r matches Escape::Byte(_, n) ==> 0 < n <= s@.len(),
{
    if s.len() == 0 {
        return Escape::Incomplete;
    }
    let b = s[0];
    if octal(b) {
        let d0: u16 = (b - 0x30) as u16;
        if s.len() == 1 {
            Escape::Incomplete
        } else if !octal(s[1]) {
            Escape::Byte(d0 as u8, 1)
        } else if s.len() == 2 {
            Escape::Incomplete
        } else {
            let d1: u16 = (s[1] - 0x30) as u16;
            if !octal(s[2]) {
                Escape::Byte((d0 * 8 + d1) as u8, 2)
            } else {
                let d2: u16 = (s[2] - 0x30) as u16;
                Escape::Byte(((d0 * 64 + d1 * 8 + d2) % 256) as u8, 3)
            }
        }
    } else if b == 0x4d {
        if s.len() == 1 {
            Escape::Incomplete
        } else if s[1] == 0x2d {
            if s.len() == 2 {
                Escape::Incomplete
            } else {
                Escape::Byte(s[2] | 0x80, 3)
            }
        } else if s[1] == 0x5e {
            control(s, 2, 0x80)
        } else {
            Escape::Invalid(Error::InvalidMetaEscape(s[1]))
        }
    } else if b == 0x5e {
        control(s, 1, 0)
    } else if b == 0x0a || b == 0x24 {
        Escape::Nothing(1)
    } else {
        match letter(b) {
            Some(c) => Escape::Byte(c, 1),
            None => Escape::Invalid(Error::InvalidEscape(b)),
        }
    }
}

/// Decodes escaped bytes.
pub fn unvis_bytes(s: &[u8]) -> (r: Result<Vec<u8>, Error>)
    ensures
        match r {
            Ok(bytes) => unescaped(s@) == Ok::<Seq<u8>, Error>(bytes@),
            Err(e) => unescaped(s@) == Err::<Seq<u8>, Error>(e),
        },
{
    let mut result: Vec<u8> = Vec::new();
    let mut i: usize = 0;
    assert(s@.skip(0) == s@);
    while i < s.len()
        invariant
            i <= s@.len(),
            unescaped(s@) == prepend(result@, unescaped(s@.skip(i as int))),
        decreases s@.len() - i,
    {
        let ghost rest = s@.skip(i as int);
        if s[i] != 0x5c {
            assert(rest.skip(1) == s@.skip(i + 1));
            let ghost before = result@;
            result.push(s[i]);
            assert(result@ == before + seq![rest[0]]);
            proof {
                if let Ok(tail) = unescaped(s@.skip(i + 1)) {
                    assert(before + (seq![rest[0]] + tail) == result@ + tail);
                }
            }
            i += 1;
        } else {
            let after = slice_subrange(s, i + 1, s.len());
            assert(rest.skip(1) == after@);
            match read_escape(after) {
                Escape::Incomplete => {
                    assert(result@ + Seq::<u8>::empty() == result@);
                    return Ok(result);
                },
                Escape::Invalid(e) => {
                    return Err(e);
                },
                Escape::Nothing(n) => {
                    assert(rest.skip(1 + n) == s@.skip(i + 1 + n));
                    i = i + 1 + n;
                },
                Escape::Byte(b, n) => {
                    assert(rest.skip(1 + n) == s@.skip(i + 1 + n));
                    let ghost before = result@;
                    result.push(b);
                    assert(result@ == before + seq![b]);
                    proof {
                        if let Ok(tail) = unescaped(s@.skip(i + 1 + n)) {
                            assert(before + (seq![b] + tail) == result@ + tail);
                        }
                    }
                    i = i + 1 + n;
                },
            }
        }
    }
    assert(s@.skip(s@.len() as int) == Seq::<u8>::empty());
    assert(result@ + Seq::<u8>::empty() == result@);
    Ok(result)
}

/// Decodes an escaped string.
pub fn unvis(s: &str) -> (r: Result<String, Error>)
    ensures
        match r {
            Ok(text) => unescaped_text(s@) == Ok::<Seq<char>, Error>(text@),
            Err(e) => unescaped_text(s@) == Err::<Seq<char>, Error>(e),
        },
{
    let bytes = unvis_bytes(s.as_bytes())?;
    match decode_strict(bytes.as_slice()) {
        Ok(text) => Ok(text),
        Err(_) => Err(Error::NotUtf8),
    }
}

/// How tmux escapes one byte of pane output: control characters and the backslash
/// become a backslash and three octal digits.
pub open spec fn escaped_byte(b: u8) -> Seq<u8> {
    if b < 0x20 || b == 0x5c {
        seq![0x5c, (0x30 + b / 64) as u8, (0x30 + (b / 8) % 8) as u8, (0x30 + b % 8) as u8]
    } else {
        seq![b]
    }
}

/// How tmux escapes pane output.
pub open spec fn escaped(s: Seq<u8>) -> Seq<u8>
    decreases s.len(),
{
    if s.len() == 0 {
        Seq::empty()
    } else {
        escaped_byte(s[0]) + escaped(s.skip(1))
    }
}

/// Decoding gives back every byte sequence that tmux has escaped.
pub proof fn law_unvis_inverts_escaping(s: Seq<u8>)
    ensures
        unescaped(escaped(s)) == Ok::<Seq<u8>, Error>(s),
    decreases s.len(),
{
    if s.len() > 0 {
        let tail = s.skip(1);
        law_unvis_inverts_escaping(tail);
        let b = s[0];
        let e = escaped(s);
        if b < 0x20 || b == 0x5c {
            let body = e.skip(1);
            assert(body.len() >= 3);
            assert(escape(body) == Escape::Byte(b, 3));
            assert(e.skip(4) == escaped(tail));
        } else {
            assert(e.skip(1) == escaped(tail));
        }
        assert(seq![b] + tail == s);
    } else {
        assert(s == Seq::<u8>::empty());
    }
}

/// Bytes without a backslash stand for themselves.
pub proof fn law_unvis_keeps_plain_bytes(s: Seq<u8>)
    requires
        forall|i: int| 0 <= i < s.len() ==> s[i] != 0x5c,
    ensures
        unescaped(s) == Ok::<Seq<u8>, Error>(s),
    decreases s.len(),
{
    if s.len() > 0 {
        let tail = s.skip(1);
        assert forall|i: int| 0 <= i < tail.len() implies tail[i] != 0x5c by {
            assert(tail[i] == s[i + 1]);
        }
        law_unvis_keeps_plain_bytes(tail);
        assert(seq![s[0]] + tail == s);
    } else {
        assert(s == Seq::<u8>::empty());
    }
}

} // verus!
