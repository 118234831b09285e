//! What each line of control mode announces, and what each escape stands for.

use vstd::prelude::*;
use vstd::utf8::{encode_scalar, encode_utf8, encode_utf8_decode_utf8, encode_utf8_valid_utf8};

use crate::text::{
    decimal, in_class, is_digit, is_space, joined, law_decimal_reads_back, lemma_run_len_is,
    lemma_take_decimal, split_at_first, take_run, words, CharClass,
};
use crate::text_laws::{is_word, law_words_come_apart};
use crate::tmux_cc::event::EventView;
use crate::tmux_cc::line::{
    announced, event_of, guard_fields, id_and_text, id_field, keyword_event, keyword_text,
    law_keyword_reads_back, law_subscription_is_never_refused, law_text_is_read_by_its_characters,
    layout_fields, lemma_only_id, nth, number_field, only_id, subscription_parts, take_keyword,
    Keyword,
};
use crate::tmux_cc::unvis::{
    escape, escaped, law_unvis_inverts_escaping, prepend, unescaped, unescaped_text, Error, Escape,
};

verus! {

// ---------------------------------------------------------------------------
// Text and its escapes
// ---------------------------------------------------------------------------

proof fn lemma_scalar_bytes(c: u32)
    by (bit_vector)
    ensures
        c <= 0x7f ==> ((c & 0x7F) as u8) == c,
        (0xC0 | ((c >> 6) & 0x1F) as u8) >= 0x80u8,
        (0xE0 | ((c >> 12) & 0x0F) as u8) >= 0x80u8,
        (0xF0 | ((c >> 18) & 0x7) as u8) >= 0x80u8,
        (0x80 | (c & 0x3F) as u8) >= 0x80u8,
        (0x80 | ((c >> 6) & 0x3F) as u8) >= 0x80u8,
        (0x80 | ((c >> 12) & 0x3F) as u8) >= 0x80u8,
{
}

proof fn lemma_char_bytes(c: char)
    ensures
        c != '\\' ==> forall|i: int|
            0 <= i < encode_scalar(c as u32).len() ==> #[trigger] encode_scalar(c as u32)[i]
                != 0x5c,
        c == '\\' ==> encode_scalar(c as u32) == seq![0x5cu8],
{
    lemma_scalar_bytes(c as u32);
}

proof fn lemma_encoded_text_is_joined(a: Seq<char>, b: Seq<char>)
    ensures
        encode_utf8(a + b) == encode_utf8(a) + encode_utf8(b),
    decreases a.len(),
{
    if a.len() == 0 {
        assert(a + b == b);
    } else {
        lemma_encoded_text_is_joined(a.drop_first(), b);
        assert((a + b).drop_first() == a.drop_first() + b);
        assert((a + b)[0] == a[0]);
    }
}

proof fn lemma_plain_front(front: Seq<u8>, rest: Seq<u8>)
    requires
        forall|i: int| 0 <= i < front.len() ==> #[trigger] front[i] != 0x5c,
    ensures
        unescaped(front + rest) == prepend(front, unescaped(rest)),
    decreases front.len(),
{
    let s = front + rest;
    if front.len() == 0 {
        assert(s == rest);
        match unescaped(rest) {
            Ok(t) => {
                assert(front + t == t);
            },
            Err(_) => {},
        }
    } else {
        let tail = front.skip(1);
        assert forall|i: int| 0 <= i < tail.len() implies #[trigger] tail[i] != 0x5c by {
            assert(tail[i] == front[i + 1]);
        }
        lemma_plain_front(tail, rest);
        assert(s.skip(1) == tail + rest);
        assert(s[0] == front[0]);
        match unescaped(rest) {
            Ok(t) => {
                assert(seq![s[0]] + (tail + t) == front + t);
            },
            Err(_) => {},
        }
    }
}

/// The text with each backslash written twice.
pub open spec fn backslashes_doubled(s: Seq<char>) -> Seq<char>
    decreases s.len(),
{
    if s.len() == 0 {
        Seq::empty()
    } else if s[0] == '\\' {
        seq!['\\', '\\'] + backslashes_doubled(s.skip(1))
    } else {
        seq![s[0]] + backslashes_doubled(s.skip(1))
    }
}

proof fn lemma_doubled_backslashes(s: Seq<char>)
    ensures
        unescaped(encode_utf8(backslashes_doubled(s))) == Ok::<Seq<u8>, Error>(encode_utf8(s)),
    decreases s.len(),
{
    if s.len() == 0 {
        assert(unescaped(encode_utf8(s)) == Ok::<Seq<u8>, Error>(encode_utf8(s)));
    } else {
        let rest = s.skip(1);
        let tail = encode_utf8(backslashes_doubled(rest));
        lemma_doubled_backslashes(rest);
        lemma_char_bytes(s[0]);
        let head = encode_scalar(s[0] as u32);
        assert(s.drop_first() == rest);
        assert(encode_utf8(s) == head + encode_utf8(rest));
        let one = seq![s[0]];
        assert(one.drop_first() == Seq::<char>::empty());
        assert(encode_utf8(Seq::<char>::empty()) == Seq::<u8>::empty());
        assert(encode_utf8(one) == head);
        if s[0] == '\\' {
            let two = seq!['\\', '\\'];
            assert(two == one + one);
            lemma_encoded_text_is_joined(one, one);
            lemma_encoded_text_is_joined(two, backslashes_doubled(rest));
            let all = seq![0x5cu8, 0x5cu8] + tail;
            assert(encode_utf8(backslashes_doubled(s)) == all);
            assert(all.skip(1) == seq![0x5cu8] + tail);
            assert(all.skip(2) == tail);
            assert(unescaped(all) == prepend(seq![0x5cu8], unescaped(tail)));
        } else {
            lemma_encoded_text_is_joined(one, backslashes_doubled(rest));
            assert(encode_utf8(backslashes_doubled(s)) == head + tail);
            lemma_plain_front(head, tail);
        }
    }
}

/// Text comes out of its escapes as it was, if each backslash was written twice.
pub proof fn law_doubled_backslashes_are_read_once(s: Seq<char>)
    ensures
        unescaped_text(backslashes_doubled(s)) == Ok::<Seq<char>, Error>(s),
{
    lemma_doubled_backslashes(s);
    encode_utf8_valid_utf8(s);
    encode_utf8_decode_utf8(s);
}

/// Text without backslashes stands for itself.
pub proof fn law_plain_text_stands_for_itself(s: Seq<char>)
    requires
        !s.contains('\\'),
    ensures
        backslashes_doubled(s) == s,
        unescaped_text(s) == Ok::<Seq<char>, Error>(s),
    decreases s.len(),
{
    law_doubled_backslashes_are_read_once(s);
    if s.len() > 0 {
        let rest = s.skip(1);
        assert(s.contains(s[0]));
        assert(!rest.contains('\\')) by {
            if rest.contains('\\') {
                let i = choose|i: int| 0 <= i < rest.len() && rest[i] == '\\';
                assert(s[i + 1] == '\\');
            }
        }
        law_plain_text_stands_for_itself(rest);
        assert(seq![s[0]] + rest == s);
    } else {
        assert(backslashes_doubled(s) == s);
    }
}

proof fn lemma_one_byte_escape(s: Seq<u8>, b: u8, n: int, rest: Seq<u8>)
    requires
        s.len() == n + 1,
        0 < n < 4,
        s[0] == 0x5c,
        escape((s + rest).skip(1)) == Escape::Byte(b, n as usize),
    ensures
        unescaped(s + rest) == prepend(seq![b], unescaped(rest)),
{
    let all = s + rest;
    assert(all.skip(1 + n) == rest);
    assert(all[0] == 0x5c);
}

/// The byte that an escape of a backslash and one more byte stands for: the backslash itself,
/// newline, carriage return, backspace, bell, vertical tab, tab, form feed, space and escape.
pub open spec fn letter_meaning(letter: char) -> Option<u8> {
    match letter {
        '\\' => Some(92),
        'n' => Some(10),
        'r' => Some(13),
        'b' => Some(8),
        'a' => Some(7),
        'v' => Some(11),
        't' => Some(9),
        'f' => Some(12),
        's' => Some(32),
        'E' => Some(27),
        _ => None,
    }
}

/// A backslash and a letter stand for the one byte that the letter means, whatever follows.
pub proof fn law_letter_escapes(letter: char, rest: Seq<u8>)
    ensures
        letter_meaning(letter) matches Some(b) ==> unescaped(
            seq![0x5cu8, (letter as int) as u8] + rest,
        ) == prepend(seq![b], unescaped(rest)),
{
    if let Some(b) = letter_meaning(letter) {
        let s = seq![0x5cu8, (letter as int) as u8];
        assert((s + rest).skip(1)[0] == (letter as int) as u8);
        lemma_one_byte_escape(s, b, 1, rest);
    }
}

/// A backslash and up to three octal digits stand for the byte that the digits write, modulo a
/// byte; fewer digits than three end at the first byte that is no octal digit.
pub proof fn law_octal_escapes(a: u8, b: u8, c: u8, rest: Seq<u8>)
    requires
        a < 8 && b < 8 && c < 8,
    ensures
        unescaped(seq![0x5cu8, (48 + a) as u8, (48 + b) as u8, (48 + c) as u8] + rest) == prepend(
            seq![((64 * a + 8 * b + c) % 256) as u8],
            unescaped(rest),
        ),
        rest.len() > 0 && !(48 <= rest[0] <= 55) ==> unescaped(
            seq![0x5cu8, (48 + a) as u8, (48 + b) as u8] + rest,
        ) == prepend(seq![(8 * a + b) as u8], unescaped(rest)),
        rest.len() > 0 && !(48 <= rest[0] <= 55) ==> unescaped(
            seq![0x5cu8, (48 + a) as u8] + rest,
        ) == prepend(seq![a], unescaped(rest)),
{
    let three = seq![0x5cu8, (48 + a) as u8, (48 + b) as u8, (48 + c) as u8];
    let two = seq![0x5cu8, (48 + a) as u8, (48 + b) as u8];
    let one = seq![0x5cu8, (48 + a) as u8];
    assert((three + rest).skip(1).take(3) == three.skip(1));
    assert((three + rest).skip(1)[0] == 48 + a);
    assert((three + rest).skip(1)[1] == 48 + b);
    assert((three + rest).skip(1)[2] == 48 + c);
    lemma_one_byte_escape(three, ((64 * a + 8 * b + c) % 256) as u8, 3, rest);
    if rest.len() > 0 && !(48 <= rest[0] <= 55) {
        assert((two + rest).skip(1)[0] == 48 + a);
        assert((two + rest).skip(1)[1] == 48 + b);
        assert((two + rest).skip(1)[2] == rest[0]);
        lemma_one_byte_escape(two, (8 * a + b) as u8, 2, rest);
        assert((one + rest).skip(1)[0] == 48 + a);
        assert((one + rest).skip(1)[1] == rest[0]);
        lemma_one_byte_escape(one, a, 1, rest);
    }
}

proof fn lemma_control_bits(c: u8)
    by (bit_vector)
    ensures
        (c & 0x1f) | 0 == c % 32,
        (c & 0x1f) | 0x80 == c % 32 + 128,
        c | 0x80 == c % 128 + 128,
        0x80u8 | 0x7f == 255,
        0u8 | 0x7f == 127,
{
}

/// `^` and a byte behind a backslash stand for the control character, `M-` for the byte with
/// its high bit set, and `M^` for both; `?` is the control character of delete.
pub proof fn law_control_and_meta_escapes(c: u8, rest: Seq<u8>)
    ensures
        unescaped(seq![0x5cu8, 0x5e, c] + rest) == prepend(
            seq![
                if c == 0x3f {
                    127u8
                } else {
                    (c % 32) as u8
                },
            ],
            unescaped(rest),
        ),
        unescaped(seq![0x5cu8, 0x4d, 0x2d, c] + rest) == prepend(
            seq![(c % 128 + 128) as u8],
            unescaped(rest),
        ),
        unescaped(seq![0x5cu8, 0x4d, 0x5e, c] + rest) == prepend(
            seq![
                if c == 0x3f {
                    255u8
                } else {
                    (c % 32 + 128) as u8
                },
            ],
            unescaped(rest),
        ),
{
    lemma_control_bits(c);
    let control = seq![0x5cu8, 0x5e, c];
    let meta = seq![0x5cu8, 0x4d, 0x2d, c];
    let both = seq![0x5cu8, 0x4d, 0x5e, c];
    assert((control + rest).skip(1)[0] == 0x5e);
    assert((control + rest).skip(1)[1] == c);
    lemma_one_byte_escape(
        control,
        if c == 0x3f {
            127u8
        } else {
            (c % 32) as u8
        },
        2,
        rest,
    );
    assert((meta + rest).skip(1)[0] == 0x4d);
    assert((meta + rest).skip(1)[1] == 0x2d);
    assert((meta + rest).skip(1)[2] == c);
    lemma_one_byte_escape(meta, (c % 128 + 128) as u8, 3, rest);
    assert((both + rest).skip(1)[0] == 0x4d);
    assert((both + rest).skip(1)[1] == 0x5e);
    assert((both + rest).skip(1)[2] == c);
    lemma_one_byte_escape(
        both,
        if c == 0x3f {
            255u8
        } else {
            (c % 32 + 128) as u8
        },
        3,
        rest,
    );
}

/// A newline or a dollar sign behind a backslash stands for nothing.
pub proof fn law_hidden_escapes(rest: Seq<u8>)
    ensures
        unescaped(seq![0x5cu8, 0x0a] + rest) == unescaped(rest),
        unescaped(seq![0x5cu8, 0x24] + rest) == unescaped(rest),
{
    let newline = seq![0x5cu8, 0x0a] + rest;
    let dollar = seq![0x5cu8, 0x24] + rest;
    assert(newline.skip(1)[0] == 0x0a);
    assert(newline.skip(2) == rest);
    assert(dollar.skip(1)[0] == 0x24);
    assert(dollar.skip(2) == rest);
}

/// Any other byte behind a backslash is refused and named, and so is any other byte behind
/// `\\M`; an escape that the input cuts off stands for nothing.
pub proof fn law_other_escapes_are_refused(front: Seq<u8>, b: u8, rest: Seq<u8>)
    requires
        forall|i: int| 0 <= i < front.len() ==> #[trigger] front[i] != 0x5c,
    ensures
        !(48 <= b <= 55) && b != 0x4d && b != 0x5e && b != 0x0a && b != 0x24 && letter_meaning(
            b as char,
        ) is None ==> unescaped(front + (seq![0x5cu8, b] + rest)) == Err::<Seq<u8>, Error>(
            Error::InvalidEscape(b),
        ),
        b != 0x2d && b != 0x5e ==> unescaped(front + (seq![0x5cu8, 0x4d, b] + rest)) == Err::<
            Seq<u8>,
            Error,
        >(Error::InvalidMetaEscape(b)),
        unescaped(front + seq![0x5cu8]) == Ok::<Seq<u8>, Error>(front),
        48 <= b <= 55 || b == 0x4d || b == 0x5e ==> unescaped(front + seq![0x5cu8, b]) == Ok::<
            Seq<u8>,
            Error,
        >(front),
        b == 0x2d || b == 0x5e ==> unescaped(front + seq![0x5cu8, 0x4d, b]) == Ok::<Seq<u8>, Error>(
            front,
        ),
{
    let plain = seq![0x5cu8, b] + rest;
    let meta = seq![0x5cu8, 0x4d, b] + rest;
    assert(plain.skip(1)[0] == b);
    assert(meta.skip(1)[0] == 0x4d && meta.skip(1)[1] == b);
    lemma_plain_front(front, plain);
    lemma_plain_front(front, meta);
    lemma_plain_front(front, seq![0x5cu8]);
    assert(unescaped(seq![0x5cu8]) == Ok::<Seq<u8>, Error>(Seq::empty())) by {
        assert(seq![0x5cu8].skip(1) == Seq::<u8>::empty());
    }
    assert(front + Seq::<u8>::empty() == front);
    let one = seq![0x5cu8, b];
    let two = seq![0x5cu8, 0x4d, b];
    lemma_plain_front(front, one);
    lemma_plain_front(front, two);
    assert(one.skip(1) == seq![b]);
    assert(two.skip(1) == seq![0x4du8, b]);
}

// ---------------------------------------------------------------------------
// Lines
// ---------------------------------------------------------------------------

/// What a line of text announces.
pub open spec fn read(t: Seq<char>) -> Result<EventView, Error> {
    announced(encode_utf8(t))
}

proof fn lemma_read(keyword: Keyword, t: Seq<char>, s: Seq<char>)
    requires
        t == keyword_text(keyword) + s,
    ensures
        read(t) == keyword_event(keyword, encode_utf8(t), t.len() as int, s),
{
    law_text_is_read_by_its_characters(t);
    law_keyword_reads_back(keyword, s);
}

proof fn lemma_id_and_text(id: u64, sigil: char, text: Seq<char>)
    ensures
        id_and_text(seq![sigil] + decimal(id as nat) + seq![' '] + text, sigil) == Some((id, text)),
{
    let s = seq![sigil] + decimal(id as nat) + seq![' '] + text;
    assert(s.skip(1) == decimal(id as nat) + (seq![' '] + text));
    lemma_take_decimal(id, seq![' '] + text);
    assert((seq![' '] + text).skip(1) == text);
}

/// Whether the text is made of the characters that layouts are written with.
pub open spec fn is_layout(s: Seq<char>) -> bool {
    s.len() > 0 && forall|i: int|
        0 <= i < s.len() ==> {
            let c = #[trigger] s[i];
            ||| '0' <= c <= '9'
            ||| 'a' <= c <= 'f'
            ||| 'A' <= c <= 'F'
            ||| c == 'x' || c == ','
            ||| c == '[' || c == ']'
            ||| c == '{' || c == '}'
        }
}

/// Whether the text is made of the characters that clients are named with.
pub open spec fn is_client(s: Seq<char>) -> bool {
    s.len() > 0 && forall|i: int|
        0 <= i < s.len() ==> {
            let c = #[trigger] s[i];
            ||| '0' <= c <= '9'
            ||| 'a' <= c <= 'z'
            ||| 'A' <= c <= 'Z'
            ||| c == '/'
        }
}

proof fn lemma_takes_run(class: CharClass, s: Seq<char>, rest: Seq<char>)
    requires
        s.len() > 0,
        forall|i: int| 0 <= i < s.len() ==> in_class(class, #[trigger] s[i]),
        rest.len() > 0 ==> !in_class(class, rest[0]),
    ensures
        take_run(class, s + rest) == Some((s, rest)),
{
    let t = s + rest;
    assert forall|i: int| 0 <= i < s.len() implies in_class(class, #[trigger] t[i]) by {
        assert(t[i] == s[i]);
    }
    lemma_run_len_is(class, t, s.len() as int);
    assert(t.take(s.len() as int) == s);
    assert(t.skip(s.len() as int) == rest);
}

proof fn lemma_plain_run(s: Seq<char>)
    requires
        is_layout(s) || is_client(s),
    ensures
        unescaped_text(s) == Ok::<Seq<char>, Error>(s),
{
    assert(!s.contains('\\')) by {
        if s.contains('\\') {
            let i = choose|i: int| 0 <= i < s.len() && s[i] == '\\';
            assert(s[i] == '\\');
        }
    }
    law_plain_text_stands_for_itself(s);
}

/// A changed layout is announced with its window, the layout, the layout that is visible and
/// the flags, each as the line gives it.
pub proof fn law_layout_change_reads_back(
    window: u64,
    layout: Seq<char>,
    visible: Seq<char>,
    flags: Seq<char>,
)
    requires
        is_layout(layout),
        is_layout(visible),
    ensures
        read(
            "%layout-change "@ + seq!['@'] + decimal(window as nat) + seq![' '] + layout + seq![' ']
                + visible + seq![' '] + flags,
        ) == Ok::<EventView, Error>(
            EventView::LayoutChange {
                window,
                layout,
                visible_layout: Some(visible),
                raw_flags: Some(flags),
            },
        ),
        read(
            "%layout-change "@ + seq!['@'] + decimal(window as nat) + seq![' '] + layout,
        ) == Ok::<EventView, Error>(
            EventView::LayoutChange { window, layout, visible_layout: None, raw_flags: None },
        ),
{
    let long = layout + seq![' '] + visible + seq![' '] + flags;
    let id = seq!['@'] + decimal(window as nat) + seq![' '];
    lemma_plain_run(layout);
    lemma_id_and_text(window, '@', long);
    lemma_id_and_text(window, '@', layout);
    let second = seq![' '] + flags;
    let first = seq![' '] + (visible + second);
    assert(long == layout + first);
    lemma_takes_run(CharClass::Layout, layout, first);
    assert(first.skip(1) == visible + second);
    lemma_takes_run(CharClass::Layout, visible, second);
    assert(second.skip(1) == flags);
    assert(layout_fields(long) == Some((layout, Some(visible), Some(flags))));
    lemma_takes_run(CharClass::Layout, layout, Seq::empty());
    assert(layout + Seq::<char>::empty() == layout);
    assert(layout_fields(layout) == Some((layout, None::<Seq<char>>, None::<Seq<char>>)));
    let t = "%layout-change "@ + seq!['@'] + decimal(window as nat) + seq![' '] + layout + seq![' ']
        + visible + seq![' '] + flags;
    assert(t == keyword_text(Keyword::LayoutChange) + (id + long));
    lemma_read(Keyword::LayoutChange, t, id + long);
    let u = "%layout-change "@ + seq!['@'] + decimal(window as nat) + seq![' '] + layout;
    assert(u == keyword_text(Keyword::LayoutChange) + (id + layout));
    lemma_read(Keyword::LayoutChange, u, id + layout);
}

/// A line with two ids announces them in the order in which it gives them.
pub proof fn law_two_ids_read_back(a: u64, b: u64)
    ensures
        read(
            "%session-window-changed "@ + seq!['$'] + decimal(a as nat) + seq![' '] + seq!['@']
                + decimal(b as nat),
        ) == Ok::<EventView, Error>(EventView::SessionWindowChanged { session: a, window: b }),
        read(
            "%window-pane-changed "@ + seq!['@'] + decimal(a as nat) + seq![' '] + seq!['%']
                + decimal(b as nat),
        ) == Ok::<EventView, Error>(EventView::WindowPaneChanged { window: a, pane: b }),
{
    lemma_id_and_text(a, '$', seq!['@'] + decimal(b as nat));
    lemma_only_id(b, '@');
    let s = seq!['$'] + decimal(a as nat) + seq![' '] + (seq!['@'] + decimal(b as nat));
    let t = "%session-window-changed "@ + seq!['$'] + decimal(a as nat) + seq![' '] + seq!['@']
        + decimal(b as nat);
    assert(t == keyword_text(Keyword::SessionWindowChanged) + s);
    lemma_read(Keyword::SessionWindowChanged, t, s);
    lemma_id_and_text(a, '@', seq!['%'] + decimal(b as nat));
    lemma_only_id(b, '%');
    let u = seq!['@'] + decimal(a as nat) + seq![' '] + (seq!['%'] + decimal(b as nat));
    let v = "%window-pane-changed "@ + seq!['@'] + decimal(a as nat) + seq![' '] + seq!['%']
        + decimal(b as nat);
    assert(v == keyword_text(Keyword::WindowPaneChanged) + u);
    lemma_read(Keyword::WindowPaneChanged, v, u);
}

/// A line with more, or with less, than its fields is refused: something behind two ids, a
/// character that no client or no layout is written with, or a visible layout without flags
/// behind it.
pub proof fn law_fields_end_their_line(
    a: u64,
    b: u64,
    client: Seq<char>,
    layout: Seq<char>,
    visible: Seq<char>,
    c: char,
    more: Seq<char>,
)
    requires
        is_client(client),
        is_layout(layout),
        is_layout(visible),
    ensures
        !is_client(seq![c]) ==> read("%client-detached "@ + (client + (seq![c] + more))) is Err,
        c != ' ' && !is_layout(seq![c]) ==> read(
            "%layout-change "@ + (seq!['@'] + decimal(a as nat) + seq![' '] + (layout + (seq![c]
                + more))),
        ) is Err,
        read(
            "%window-pane-changed "@ + (seq!['@'] + decimal(a as nat) + seq![' '] + (seq!['%']
                + decimal(b as nat) + (seq![' '] + more))),
        ) is Err,
        read(
            "%layout-change "@ + (seq!['@'] + decimal(a as nat) + seq![' '] + (layout + (seq![' ']
                + visible))),
        ) is Err,
{
    let tail = seq![' '] + more;
    let second = seq!['%'] + decimal(b as nat) + tail;
    lemma_take_decimal(b, tail);
    assert(second.skip(1) == decimal(b as nat) + tail);
    assert(only_id(second, '%') is None);
    lemma_id_and_text(a, '@', second);
    let s = seq!['@'] + decimal(a as nat) + seq![' '] + second;
    lemma_read(Keyword::WindowPaneChanged, "%window-pane-changed "@ + s, s);
    let strange = seq![c] + more;
    if !is_client(seq![c]) {
        assert(seq![c][0] == c);
        lemma_takes_run(CharClass::Word, client, strange);
        let u = client + strange;
        lemma_read(Keyword::ClientDetached, "%client-detached "@ + u, u);
    }
    if c != ' ' && !is_layout(seq![c]) {
        assert(seq![c][0] == c);
        lemma_takes_run(CharClass::Layout, layout, strange);
        assert(layout_fields(layout + strange) is None);
        lemma_id_and_text(a, '@', layout + strange);
        let u = seq!['@'] + decimal(a as nat) + seq![' '] + (layout + strange);
        lemma_read(Keyword::LayoutChange, "%layout-change "@ + u, u);
    }
    let rest = seq![' '] + visible;
    lemma_takes_run(CharClass::Layout, layout, rest);
    assert(rest.skip(1) == visible + Seq::<char>::empty());
    lemma_takes_run(CharClass::Layout, visible, Seq::empty());
    assert(layout_fields(layout + rest) is None);
    lemma_id_and_text(a, '@', layout + rest);
    let t = seq!['@'] + decimal(a as nat) + seq![' '] + (layout + rest);
    lemma_read(Keyword::LayoutChange, "%layout-change "@ + t, t);
}

/// A line with an id and a name announces both, whatever the name.
pub proof fn law_named_ids_read_back(id: u64, name: Seq<char>)
    ensures
        read(
            "%session-changed "@ + seq!['$'] + decimal(id as nat) + seq![' ']
                + backslashes_doubled(name),
        ) == Ok::<EventView, Error>(EventView::SessionChanged { session: id, name }),
        read(
            "%window-renamed "@ + seq!['@'] + decimal(id as nat) + seq![' ']
                + backslashes_doubled(name),
        ) == Ok::<EventView, Error>(EventView::WindowRenamed { window: id, name }),
{
    let raw = backslashes_doubled(name);
    law_doubled_backslashes_are_read_once(name);
    lemma_id_and_text(id, '$', raw);
    lemma_id_and_text(id, '@', raw);
    let s = seq!['$'] + decimal(id as nat) + seq![' '] + raw;
    let t = "%session-changed "@ + seq!['$'] + decimal(id as nat) + seq![' '] + raw;
    assert(t == keyword_text(Keyword::SessionChanged) + s);
    lemma_read(Keyword::SessionChanged, t, s);
    let u = seq!['@'] + decimal(id as nat) + seq![' '] + raw;
    let v = "%window-renamed "@ + seq!['@'] + decimal(id as nat) + seq![' '] + raw;
    assert(v == keyword_text(Keyword::WindowRenamed) + u);
    lemma_read(Keyword::WindowRenamed, v, u);
}

/// A line that carries one text announces that text, whatever it is.
pub proof fn law_text_lines_read_back(text: Seq<char>)
    ensures
        ({
            let raw = backslashes_doubled(text);
            &&& read("%config-error "@ + raw) == Ok::<EventView, Error>(
                EventView::ConfigError { error: text },
            )
            &&& read("%message "@ + raw) == Ok::<EventView, Error>(
                EventView::Message { message: text },
            )
            &&& read("%paste-buffer-changed "@ + raw) == Ok::<EventView, Error>(
                EventView::PasteBufferChanged { buffer: text },
            )
            &&& read("%paste-buffer-deleted "@ + raw) == Ok::<EventView, Error>(
                EventView::PasteBufferDeleted { buffer: text },
            )
            &&& read("%session-renamed "@ + raw) == Ok::<EventView, Error>(
                EventView::SessionRenamed { name: text },
            )
        }),
{
    let raw = backslashes_doubled(text);
    law_doubled_backslashes_are_read_once(text);
    lemma_read(Keyword::ConfigError, "%config-error "@ + raw, raw);
    lemma_read(Keyword::Message, "%message "@ + raw, raw);
    lemma_read(Keyword::PasteBufferChanged, "%paste-buffer-changed "@ + raw, raw);
    lemma_read(Keyword::PasteBufferDeleted, "%paste-buffer-deleted "@ + raw, raw);
    lemma_read(Keyword::SessionRenamed, "%session-renamed "@ + raw, raw);
}

/// A line about a client announces the client, and the session that it went to with its name.
pub proof fn law_client_lines_read_back(client: Seq<char>, session: u64, name: Seq<char>)
    requires
        is_client(client),
    ensures
        read("%client-detached "@ + client) == Ok::<EventView, Error>(
            EventView::ClientDetached { client_name: client },
        ),
        read(
            "%client-session-changed "@ + client + seq![' '] + seq!['$'] + decimal(session as nat)
                + seq![' '] + backslashes_doubled(name),
        ) == Ok::<EventView, Error>(
            EventView::ClientSessionChanged { client_name: client, session, session_name: name },
        ),
{
    let raw = backslashes_doubled(name);
    lemma_plain_run(client);
    law_doubled_backslashes_are_read_once(name);
    lemma_takes_run(CharClass::Word, client, Seq::empty());
    assert(client + Seq::<char>::empty() == client);
    lemma_read(Keyword::ClientDetached, "%client-detached "@ + client, client);
    let named = seq!['$'] + decimal(session as nat) + seq![' '] + raw;
    lemma_id_and_text(session, '$', raw);
    lemma_takes_run(CharClass::Word, client, seq![' '] + named);
    assert((seq![' '] + named).skip(1) == named);
    let s = client + (seq![' '] + named);
    let t = "%client-session-changed "@ + client + seq![' '] + seq!['$'] + decimal(session as nat)
        + seq![' '] + raw;
    assert(t == keyword_text(Keyword::ClientSessionChanged) + s);
    lemma_read(Keyword::ClientSessionChanged, t, s);
}

/// The end of control mode is announced with the reason that the line gives, word for word, or
/// without one; that the sessions changed is announced by a line of its own.
pub proof fn law_exit_reads_back(reason: Seq<char>)
    ensures
        read("%exit"@) == Ok::<EventView, Error>(EventView::Exit { reason: None }),
        read("%exit"@ + seq![' '] + reason) == Ok::<EventView, Error>(
            EventView::Exit { reason: Some(reason) },
        ),
        read("%sessions-changed"@) == Ok::<EventView, Error>(EventView::SessionsChanged),
        read("%sessions-changed"@ + seq![' '] + reason) == Err::<EventView, Error>(
            Error::UnrecognizedLine,
        ),
{
    let nothing = Seq::<char>::empty();
    assert("%exit"@ == "%exit"@ + nothing);
    lemma_read(Keyword::Exit, "%exit"@, nothing);
    let s = seq![' '] + reason;
    assert("%exit"@ + seq![' '] + reason == "%exit"@ + s);
    assert(s.skip(1) == reason);
    lemma_read(Keyword::Exit, "%exit"@ + seq![' '] + reason, s);
    assert("%sessions-changed"@ == "%sessions-changed"@ + nothing);
    lemma_read(Keyword::SessionsChanged, "%sessions-changed"@, nothing);
    assert("%sessions-changed"@ + seq![' '] + reason == "%sessions-changed"@ + s);
    lemma_read(Keyword::SessionsChanged, "%sessions-changed"@ + seq![' '] + reason, s);
}

/// The extended form of a pane's output is announced with the bytes that were escaped.
pub proof fn law_extended_output_reads_back(
    pane: u64,
    output: Seq<u8>,
    front: Seq<u8>,
    rest: Seq<char>,
)
    requires
        front.len() == ("%extended-output "@ + seq!['%'] + decimal(pane as nat) + seq![' ']).len(),
    ensures
        event_of(
            front + escaped(output),
            "%extended-output "@ + seq!['%'] + decimal(pane as nat) + seq![' '] + rest,
        ) == Ok::<EventView, Error>(EventView::ExtendedOutput { pane, text: output }),
{
    let s = seq!['%'] + decimal(pane as nat) + seq![' '] + rest;
    let t = "%extended-output "@ + seq!['%'] + decimal(pane as nat) + seq![' '] + rest;
    assert(t == keyword_text(Keyword::ExtendedOutput) + s);
    law_keyword_reads_back(Keyword::ExtendedOutput, s);
    lemma_id_and_text(pane, '%', rest);
    law_unvis_inverts_escaping(output);
    assert((front + escaped(output)).skip(front.len() as int) == escaped(output));
}

/// A line that does not begin with a percent sign is refused.
pub proof fn law_other_lines_are_refused(t: Seq<char>)
    requires
        t.len() == 0 || t[0] != '%',
    ensures
        read(t) == Err::<EventView, Error>(Error::UnrecognizedLine),
{
    law_text_is_read_by_its_characters(t);
    if let Some((keyword, s)) = take_keyword(t) {
        lemma_keyword_begins(keyword);
        assert(keyword_text(keyword).is_prefix_of(t));
        assert(keyword_text(keyword)[0] == t.subrange(0, keyword_text(keyword).len() as int)[0]);
    }
}

proof fn lemma_keyword_begins(keyword: Keyword)
    ensures
        keyword_text(keyword).len() > 0,
        keyword_text(keyword)[0] == '%',
{
    reveal_strlit("%begin ");
    reveal_strlit("%end ");
    reveal_strlit("%error ");
    reveal_strlit("%client-detached ");
    reveal_strlit("%client-session-changed ");
    reveal_strlit("%config-error ");
    reveal_strlit("%message ");
    reveal_strlit("%paste-buffer-changed ");
    reveal_strlit("%paste-buffer-deleted ");
    reveal_strlit("%session-renamed ");
    reveal_strlit("%continue ");
    reveal_strlit("%pane-mode-changed ");
    reveal_strlit("%pause ");
    reveal_strlit("%unlinked-window-add ");
    reveal_strlit("%unlinked-window-close ");
    reveal_strlit("%unlinked-window-renamed ");
    reveal_strlit("%window-add ");
    reveal_strlit("%window-close ");
    reveal_strlit("%output ");
    reveal_strlit("%extended-output ");
    reveal_strlit("%exit");
    reveal_strlit("%layout-change ");
    reveal_strlit("%session-changed ");
    reveal_strlit("%window-renamed ");
    reveal_strlit("%session-window-changed ");
    reveal_strlit("%window-pane-changed ");
    reveal_strlit("%sessions-changed");
    reveal_strlit("%subscription-changed ");
}

/// A line with the id of a window announces that window.
pub proof fn law_window_id_lines_read_back(id: u64)
    ensures
        ({
            let window = seq!['@'] + decimal(id as nat);
            &&& read("%window-add "@ + window) == Ok::<EventView, Error>(
                EventView::WindowAdd { window: id },
            )
            &&& read("%window-close "@ + window) == Ok::<EventView, Error>(
                EventView::WindowClose { window: id },
            )
            &&& read("%unlinked-window-add "@ + window) == Ok::<EventView, Error>(
                EventView::UnlinkedWindowAdd { window: id },
            )
            &&& read("%unlinked-window-close "@ + window) == Ok::<EventView, Error>(
                EventView::UnlinkedWindowClose { window: id },
            )
            &&& read("%unlinked-window-renamed "@ + window) == Ok::<EventView, Error>(
                EventView::UnlinkedWindowRenamed { window: id },
            )
        }),
{
    let window = seq!['@'] + decimal(id as nat);
    lemma_only_id(id, '@');
    lemma_read(Keyword::WindowAdd, "%window-add "@ + window, window);
    lemma_read(Keyword::WindowClose, "%window-close "@ + window, window);
    lemma_read(Keyword::UnlinkedWindowAdd, "%unlinked-window-add "@ + window, window);
    lemma_read(Keyword::UnlinkedWindowClose, "%unlinked-window-close "@ + window, window);
    lemma_read(Keyword::UnlinkedWindowRenamed, "%unlinked-window-renamed "@ + window, window);
}

/// A line with the id of a pane announces that pane.
pub proof fn law_pane_id_lines_read_back(id: u64)
    ensures
        ({
            let pane = seq!['%'] + decimal(id as nat);
            &&& read("%pane-mode-changed "@ + pane) == Ok::<EventView, Error>(
                EventView::PaneModeChanged { pane: id },
            )
            &&& read("%continue "@ + pane) == Ok::<EventView, Error>(
                EventView::Continue { pane: id },
            )
            &&& read("%pause "@ + pane) == Ok::<EventView, Error>(EventView::Pause { pane: id })
        }),
{
    let pane = seq!['%'] + decimal(id as nat);
    lemma_only_id(id, '%');
    lemma_read(Keyword::PaneModeChanged, "%pane-mode-changed "@ + pane, pane);
    lemma_read(Keyword::Continue, "%continue "@ + pane, pane);
    lemma_read(Keyword::Pause, "%pause "@ + pane, pane);
}

/// An id ends its line: with anything behind it, and with any sign but its own before it, the
/// line is refused.
pub proof fn law_id_ends_its_line(id: u64, sigil: char, more: Seq<char>)
    requires
        more.len() > 0,
        !('0' <= more[0] <= '9'),
    ensures
        ({
            let text = seq![sigil] + decimal(id as nat);
            &&& read("%window-add "@ + (text + more)) == Err::<EventView, Error>(
                Error::UnrecognizedLine,
            )
            &&& read("%pause "@ + (text + more)) == Err::<EventView, Error>(
                Error::UnrecognizedLine,
            )
            &&& sigil != '@' ==> read("%window-close "@ + text) == Err::<EventView, Error>(
                Error::UnrecognizedLine,
            )
            &&& sigil != '%' ==> read("%continue "@ + text) == Err::<EventView, Error>(
                Error::UnrecognizedLine,
            )
        }),
{
    let text = seq![sigil] + decimal(id as nat);
    let long = text + more;
    lemma_take_decimal(id, more);
    assert(long.skip(1) == decimal(id as nat) + more);
    assert(long[0] == sigil);
    assert(only_id(long, '@') is None);
    assert(only_id(long, '%') is None);
    lemma_read(Keyword::WindowAdd, "%window-add "@ + long, long);
    lemma_read(Keyword::Pause, "%pause "@ + long, long);
    lemma_read(Keyword::WindowClose, "%window-close "@ + text, text);
    lemma_read(Keyword::Continue, "%continue "@ + text, text);
}

/// A guard whose time or flags are no signed number is refused, and so is one with more behind
/// its three numbers.
pub proof fn law_guard_has_three_numbers(a: u64, b: u64, c: u64, more: Seq<char>)
    ensures
        ({
            let s = decimal(a as nat) + seq![' '] + decimal(b as nat) + seq![' '] + decimal(
                c as nat,
            );
            &&& a > i64::MAX || c > i64::MAX ==> {
                &&& read("%begin "@ + s) is Err
                &&& read("%end "@ + s) is Err
                &&& read("%error "@ + s) is Err
            }
            &&& more.len() > 0 && !('0' <= more[0] <= '9') ==> read("%end "@ + (s + more)) is Err
        }),
{
    let s = decimal(a as nat) + seq![' '] + decimal(b as nat) + seq![' '] + decimal(c as nat);
    lemma_guard_numbers(a, b, c, Seq::empty());
    assert(s + Seq::<char>::empty() == s);
    if a > i64::MAX || c > i64::MAX {
        assert(guard_fields(s) is None);
        lemma_read(Keyword::Begin, "%begin "@ + s, s);
        lemma_read(Keyword::End, "%end "@ + s, s);
        lemma_read(Keyword::Error, "%error "@ + s, s);
    }
    if more.len() > 0 && !('0' <= more[0] <= '9') {
        lemma_guard_numbers(a, b, c, more);
        lemma_read(Keyword::End, "%end "@ + (s + more), s + more);
    }
}

proof fn lemma_guard_numbers(a: u64, b: u64, c: u64, more: Seq<char>)
    requires
        more.len() > 0 ==> !('0' <= more[0] <= '9'),
    ensures
        ({
            let s = decimal(a as nat) + seq![' '] + decimal(b as nat) + seq![' '] + decimal(
                c as nat,
            );
            guard_fields(s + more) == if more.len() == 0 && a <= i64::MAX && c <= i64::MAX {
                Some((a as i64, b, c as i64))
            } else {
                None
            }
        }),
{
    let last = decimal(c as nat) + more;
    let middle = decimal(b as nat) + (seq![' '] + last);
    let s = decimal(a as nat) + seq![' '] + decimal(b as nat) + seq![' '] + decimal(c as nat);
    assert(s + more == decimal(a as nat) + (seq![' '] + middle));
    lemma_take_decimal(a, seq![' '] + middle);
    assert((seq![' '] + middle).skip(1) == middle);
    lemma_take_decimal(b, seq![' '] + last);
    assert((seq![' '] + last).skip(1) == last);
    lemma_take_decimal(c, more);
}

/// How a line about a subscription gives an id: with its sign, or a dash for none.
pub open spec fn id_or_dash(sigil: char, id: Option<u64>) -> Seq<char> {
    match id {
        Some(id) => seq![sigil] + decimal(id as nat),
        None => seq!['-'],
    }
}

/// How a line about a subscription gives a number: in decimal, or a dash for none.
pub open spec fn number_or_dash(n: Option<u64>) -> Seq<char> {
    match n {
        Some(n) => decimal(n as nat),
        None => seq!['-'],
    }
}

proof fn lemma_decimal_word(n: u64)
    ensures
        is_word(decimal(n as nat)),
        !decimal(n as nat).contains(':'),
        number_field(Some(decimal(n as nat))) == Some(n),
{
    let d = decimal(n as nat);
    law_decimal_reads_back(n as nat);
    assert forall|i: int| 0 <= i < d.len() implies !is_space(#[trigger] d[i]) && d[i] != ':' by {
        assert(is_digit(d[i]));
    }
}

proof fn lemma_id_or_dash(sigil: char, id: Option<u64>)
    requires
        sigil == '$' || sigil == '@' || sigil == '%',
    ensures
        is_word(id_or_dash(sigil, id)),
        !id_or_dash(sigil, id).contains(':'),
        id_field(Some(id_or_dash(sigil, id)), sigil) == id,
{
    let s = id_or_dash(sigil, id);
    match id {
        Some(n) => {
            lemma_decimal_word(n);
            let d = decimal(n as nat);
            assert(s.skip(1) == d);
            assert forall|i: int| 0 <= i < s.len() implies !is_space(#[trigger] s[i]) && s[i]
                != ':' by {
                if i > 0 {
                    assert(s[i] == d[i - 1]);
                    assert(d.contains(d[i - 1]));
                }
            }
        },
        None => {},
    }
}

proof fn lemma_number_or_dash(n: Option<u64>)
    ensures
        is_word(number_or_dash(n)),
        !number_or_dash(n).contains(':'),
        number_field(Some(number_or_dash(n))) == n,
{
    match n {
        Some(n) => {
            lemma_decimal_word(n);
        },
        None => {
            let s = seq!['-'];
            assert(s[0] == '-');
            assert(!is_digit(s[0]));
        },
    }
}

proof fn lemma_colon_splits(header: Seq<char>, value: Seq<char>, n: int)
    requires
        0 < n <= header.len(),
        forall|i: int| 0 <= i < n ==> header[i] != ' ',
        forall|i: int| n <= i < header.len() ==> header[i] != ':',
        header.last() != ' ',
    ensures
        split_at_first(header + " : "@ + value, " : "@) == Some((header, value)),
    decreases header.len(),
{
    let s = header + " : "@ + value;
    reveal_strlit(" : ");
    assert(!" : "@.is_prefix_of(s)) by {
        if " : "@.is_prefix_of(s) {
            assert(s.subrange(0, 3)[0] == ' ');
        }
    }
    let rest = header.skip(1);
    assert(s.skip(1) == rest + " : "@ + value);
    if header.len() == 1 {
        let tail = " : "@ + value;
        assert(s.skip(1) == tail);
        assert(tail.subrange(0, 3) == " : "@);
        assert(tail.skip(3) == value);
        assert(seq![s[0]] + Seq::<char>::empty() == header);
    } else {
        assert(rest.last() == header.last());
        if n > 1 {
            assert forall|i: int| 0 <= i < n - 1 implies rest[i] != ' ' by {
                assert(rest[i] == header[i + 1]);
            }
            assert forall|i: int| n - 1 <= i < rest.len() implies rest[i] != ':' by {
                assert(rest[i] == header[i + 1]);
            }
            lemma_colon_splits(rest, value, n - 1);
        } else {
            lemma_colon_splits_behind(rest, value);
        }
        assert(seq![s[0]] + rest == header);
    }
}

proof fn lemma_colon_splits_behind(header: Seq<char>, value: Seq<char>)
    requires
        header.len() > 0,
        !header.contains(':'),
        header.last() != ' ',
    ensures
        split_at_first(header + " : "@ + value, " : "@) == Some((header, value)),
    decreases header.len(),
{
    let s = header + " : "@ + value;
    reveal_strlit(" : ");
    assert(!" : "@.is_prefix_of(s)) by {
        if " : "@.is_prefix_of(s) {
            assert(s.subrange(0, 3)[0] == ' ');
            assert(s.subrange(0, 3)[1] == ':');
            if header.len() > 1 {
                assert(header[1] == ':');
            }
        }
    }
    let rest = header.skip(1);
    assert(s.skip(1) == rest + " : "@ + value);
    if header.len() == 1 {
        let tail = " : "@ + value;
        assert(s.skip(1) == tail);
        assert(tail.subrange(0, 3) == " : "@);
        assert(tail.skip(3) == value);
        assert(seq![s[0]] + Seq::<char>::empty() == header);
    } else {
        assert(rest.last() == header.last());
        assert forall|i: int| 0 <= i < rest.len() implies rest[i] != ':' by {
            assert(rest[i] == header[i + 1]);
        }
        lemma_colon_splits_behind(rest, value);
        assert(seq![s[0]] + rest == header);
    }
}

proof fn lemma_header_words(
    name: Seq<char>,
    s: Seq<char>,
    w: Seq<char>,
    x: Seq<char>,
    p: Seq<char>,
)
    requires
        is_word(name),
        is_word(s),
        is_word(w),
        is_word(x),
        is_word(p),
    ensures
        words(name + (seq![' '] + s + seq![' '] + w + seq![' '] + x + seq![' '] + p)) == seq![
            name,
            s,
            w,
            x,
            p,
        ],
{
    let parts = seq![name, s, w, x, p];
    let two = seq![x, p];
    let three = seq![w, x, p];
    let four = seq![s, w, x, p];
    assert(seq![p] == two.skip(1));
    assert(joined(seq![p], ' ') == p);
    assert(joined(two, ' ') == x + seq![' '] + p);
    assert(two == three.skip(1));
    assert(joined(three, ' ') == w + seq![' '] + (x + seq![' '] + p));
    assert(three == four.skip(1));
    assert(joined(four, ' ') == s + seq![' '] + (w + seq![' '] + (x + seq![' '] + p)));
    assert(four == parts.skip(1));
    assert(joined(parts, ' ') == name + seq![' '] + joined(four, ' '));
    assert(joined(parts, ' ') == name + (seq![' '] + s + seq![' '] + w + seq![' '] + x + seq![' ']
        + p));
    law_words_come_apart(parts, ' ');
}

proof fn lemma_header_has_no_colon(s: Seq<char>, w: Seq<char>, x: Seq<char>, p: Seq<char>)
    requires
        !s.contains(':'),
        !w.contains(':'),
        !x.contains(':'),
        !p.contains(':'),
    ensures
        !(seq![' '] + s + seq![' '] + w + seq![' '] + x + seq![' '] + p).contains(':'),
{
    let tail = seq![' '] + s + seq![' '] + w + seq![' '] + x + seq![' '] + p;
    if tail.contains(':') {
        let i = choose|i: int| 0 <= i < tail.len() && tail[i] == ':';
        let a: int = 1 + s.len() as int;
        let b: int = a + 1 + w.len();
        let c: int = b + 1 + x.len();
        if 0 < i < a {
            assert(s[i - 1] == ':');
        } else if a < i < b {
            assert(w[i - a - 1] == ':');
        } else if b < i < c {
            assert(x[i - b - 1] == ':');
        } else if c < i {
            assert(p[i - c - 1] == ':');
        }
    }
}

proof fn lemma_header_is_split(
    name: Seq<char>,
    s: Seq<char>,
    w: Seq<char>,
    x: Seq<char>,
    p: Seq<char>,
    value: Seq<char>,
)
    requires
        is_word(name),
        is_word(p),
        !(seq![' '] + s + seq![' '] + w + seq![' '] + x + seq![' '] + p).contains(':'),
    ensures
        ({
            let header = name + (seq![' '] + s + seq![' '] + w + seq![' '] + x + seq![' '] + p);
            subscription_parts(header + " : "@ + value) == (header, value)
        }),
{
    let tail = seq![' '] + s + seq![' '] + w + seq![' '] + x + seq![' '] + p;
    let header = name + tail;
    let n = name.len() as int;
    assert forall|i: int| 0 <= i < n implies header[i] != ' ' by {
        assert(header[i] == name[i]);
        assert(!is_space(name[i]));
    }
    assert forall|i: int| n <= i < header.len() implies header[i] != ':' by {
        assert(header[i] == tail[i - n]);
    }
    assert(header.last() == p.last());
    assert(!is_space(p[p.len() - 1]));
    lemma_colon_splits(header, value, n);
}

/// A changed subscription is announced with its name, the session, window, window index and
/// pane that it is about, each where the line gives one, and its value, whatever the value.
pub proof fn law_subscription_reads_back(
    name: Seq<char>,
    session: Option<u64>,
    window: Option<u64>,
    window_index: Option<u64>,
    pane: Option<u64>,
    value: Seq<char>,
)
    requires
        is_word(name),
    ensures
        read(
            "%subscription-changed "@ + (name + (seq![' '] + id_or_dash('$', session) + seq![' ']
                + id_or_dash('@', window) + seq![' '] + number_or_dash(window_index) + seq![' ']
                + id_or_dash('%', pane)) + " : "@ + value),
        ) == Ok::<EventView, Error>(
            EventView::SubscriptionChanged { name, session, window, window_index, pane, value },
        ),
{
    let s = id_or_dash('$', session);
    let w = id_or_dash('@', window);
    let x = number_or_dash(window_index);
    let p = id_or_dash('%', pane);
    lemma_id_or_dash('$', session);
    lemma_id_or_dash('@', window);
    lemma_number_or_dash(window_index);
    lemma_id_or_dash('%', pane);
    lemma_header_words(name, s, w, x, p);
    lemma_header_has_no_colon(s, w, x, p);
    lemma_header_is_split(name, s, w, x, p, value);
    let header = name + (seq![' '] + s + seq![' '] + w + seq![' '] + x + seq![' '] + p);
    let body = header + " : "@ + value;
    let t = "%subscription-changed "@ + body;
    law_text_is_read_by_its_characters(t);
    law_subscription_is_never_refused(encode_utf8(t), body);
    let f = words(header);
    assert(nth(f, 0) == Some(name) && nth(f, 1) == Some(s) && nth(f, 2) == Some(w));
    assert(nth(f, 3) == Some(x) && nth(f, 4) == Some(p));
}

} // verus!
