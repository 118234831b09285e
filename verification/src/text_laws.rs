//! What splitting, trimming and numbers are for.

use vstd::prelude::*;

use crate::text::{
    decimal, drop_plus, is_digit, is_space, joined, law_decimal_reads_back, lowered, signed_decimal,
    signed_in, split_at_first, trimmed, trimmed_end, trimmed_start, unsigned_in, word_len, words,
};

verus! {

/// Whether a text is a word: it is not empty, and there is no whitespace in it.
pub open spec fn is_word(s: Seq<char>) -> bool {
    s.len() > 0 && forall|i: int| 0 <= i < s.len() ==> !is_space(#[trigger] s[i])
}

/// Whether a text is nothing but whitespace.
pub open spec fn is_blank(s: Seq<char>) -> bool {
    forall|i: int| 0 <= i < s.len() ==> is_space(#[trigger] s[i])
}

/// Among ASCII characters, tab to carriage return and the space are whitespace.
pub proof fn law_ascii_whitespace(c: char)
    requires
        (c as u32) < 128,
    ensures
        is_space(c) <==> (c == ' ' || c == '\t' || c == '\n' || c == '\r' || c as u32 == 11 || c
            as u32 == 12),
{
}

/// Beyond ASCII, whitespace is the next line, the no-break space, the spaces of typography, the
/// separators of lines and paragraphs and the ideographic space.
pub proof fn law_other_whitespace(c: char)
    requires
        (c as u32) >= 128,
    ensures
        is_space(c) <==> c == '\u{85}' || c == '\u{a0}' || c == '\u{1680}' || '\u{2000}' <= c
            <= '\u{200a}' || c == '\u{2028}' || c == '\u{2029}' || c == '\u{202f}' || c
            == '\u{205f}' || c == '\u{3000}',
{
}

proof fn lemma_word_len_is(s: Seq<char>, n: int)
    requires
        0 <= n <= s.len(),
        forall|i: int| 0 <= i < n ==> !is_space(#[trigger] s[i]),
        n < s.len() ==> is_space(s[n]),
    ensures
        word_len(s) == n,
    decreases s.len(),
{
    if n > 0 {
        let t = s.skip(1);
        assert(!is_space(s[0]));
        assert forall|i: int| 0 <= i < n - 1 implies !is_space(#[trigger] t[i]) by {
            assert(t[i] == s[i + 1]);
        }
        if n < s.len() {
            assert(t[n - 1] == s[n]);
        }
        lemma_word_len_is(t, n - 1);
    }
}

/// Words that are written with whitespace between them are the words that are read.
pub proof fn law_words_come_apart(parts: Seq<Seq<char>>, sep: char)
    requires
        is_space(sep),
        forall|i: int| 0 <= i < parts.len() ==> is_word(#[trigger] parts[i]),
    ensures
        words(joined(parts, sep)) == parts,
    decreases parts.len(),
{
    let s = joined(parts, sep);
    if parts.len() > 0 {
        let head = parts[0];
        let n = head.len() as int;
        assert(is_word(head));
        assert forall|i: int| 0 <= i < n implies !is_space(#[trigger] s[i]) by {
            assert(s[i] == head[i]);
        }
        if parts.len() == 1 {
            lemma_word_len_is(s, n);
            assert(s.take(n) == head);
            assert(s.skip(n) == Seq::<char>::empty());
            assert(words(s.skip(n)) == Seq::<Seq<char>>::empty());
            assert(seq![head] + Seq::<Seq<char>>::empty() == parts);
        } else {
            let rest = parts.skip(1);
            assert forall|i: int| 0 <= i < rest.len() implies is_word(#[trigger] rest[i]) by {
                assert(rest[i] == parts[i + 1]);
            }
            law_words_come_apart(rest, sep);
            assert(s[n] == sep);
            lemma_word_len_is(s, n);
            assert(s.take(n) == head);
            let tail = s.skip(n);
            assert(tail.skip(1) == joined(rest, sep));
            assert(tail[0] == sep);
            assert(words(tail) == words(tail.skip(1)));
            assert(seq![head] + rest == parts);
        }
    } else {
        assert(s == Seq::<char>::empty());
        assert(words(s) == parts);
    }
}

pub proof fn lemma_joined_cons(first: Seq<char>, rest: Seq<Seq<char>>, sep: char)
    requires
        rest.len() > 0,
    ensures
        joined(seq![first] + rest, sep) == first + seq![sep] + joined(rest, sep),
{
    assert((seq![first] + rest).skip(1) == rest);
}

/// Two parts at the end, joined, may as well be one part.
pub proof fn lemma_joined_push(
    parts: Seq<Seq<char>>,
    x: Seq<char>,
    y: Seq<char>,
    sep: char,
)
    ensures
        joined(parts.push(x).push(y), sep) == joined(parts.push(x + seq![sep] + y), sep),
    decreases parts.len(),
{
    let long = parts.push(x).push(y);
    let short = parts.push(x + seq![sep] + y);
    if parts.len() == 0 {
        assert(long.skip(1) == seq![y]);
        assert(joined(seq![y], sep) == y);
    } else {
        let rest = parts.skip(1);
        lemma_joined_push(rest, x, y, sep);
        assert(long.skip(1) == rest.push(x).push(y));
        assert(short.skip(1) == rest.push(x + seq![sep] + y));
    }
}

/// Whitespace before the words, and one more between them, changes nothing.
pub proof fn law_more_whitespace_changes_no_words(sep: char, s: Seq<char>)
    requires
        is_space(sep),
    ensures
        words(seq![sep] + s) == words(s),
{
    assert((seq![sep] + s).skip(1) == s);
}

proof fn lemma_trimmed_start_is(front: Seq<char>, s: Seq<char>)
    requires
        is_blank(front),
        s.len() > 0 ==> !is_space(s[0]),
    ensures
        trimmed_start(front + s) == s,
    decreases front.len(),
{
    let t = front + s;
    if front.len() > 0 {
        let tail = front.skip(1);
        assert(is_space(front[0]));
        assert forall|i: int| 0 <= i < tail.len() implies is_space(#[trigger] tail[i]) by {
            assert(tail[i] == front[i + 1]);
        }
        lemma_trimmed_start_is(tail, s);
        assert(t.skip(1) == tail + s);
        assert(t[0] == front[0]);
    } else {
        assert(t == s);
    }
}

proof fn lemma_trimmed_end_is(s: Seq<char>, back: Seq<char>)
    requires
        is_blank(back),
        s.len() > 0 ==> !is_space(s.last()),
    ensures
        trimmed_end(s + back) == s,
    decreases back.len(),
{
    let t = s + back;
    if back.len() > 0 {
        let front = back.drop_last();
        assert(is_space(back[back.len() - 1]));
        assert forall|i: int| 0 <= i < front.len() implies is_space(#[trigger] front[i]) by {
            assert(front[i] == back[i]);
        }
        lemma_trimmed_end_is(s, front);
        assert(t.drop_last() == s + front);
        assert(t.last() == back.last());
    } else {
        assert(t == s);
    }
}

/// Trimming takes the whitespace off both ends, and nothing else.
pub proof fn law_trimming_takes_off_whitespace(front: Seq<char>, s: Seq<char>, back: Seq<char>)
    requires
        is_blank(front),
        is_blank(back),
        s.len() > 0 ==> !is_space(s[0]) && !is_space(s.last()),
    ensures
        trimmed(front + s + back) == s,
{
    let t = front + s + back;
    if s.len() > 0 {
        assert(t == front + (s + back));
        assert((s + back)[0] == s[0]);
        lemma_trimmed_start_is(front, s + back);
        lemma_trimmed_end_is(s, back);
    } else {
        assert(is_blank(t)) by {
            assert forall|i: int| 0 <= i < t.len() implies is_space(#[trigger] t[i]) by {
                if i < front.len() {
                    assert(t[i] == front[i]);
                } else {
                    assert(t[i] == back[i - front.len()]);
                }
            }
        }
        assert(t == t + s);
        lemma_trimmed_start_is(t, s);
        lemma_trimmed_end_is(s, Seq::empty());
        assert(s + Seq::<char>::empty() == s);
    }
}

/// What stands before and after the first occurrence of a pattern, with the pattern between
/// them, is the text; and the pattern does not occur any earlier.
pub proof fn law_text_is_split_at_the_first_occurrence(s: Seq<char>, pattern: Seq<char>)
    ensures
        match split_at_first(s, pattern) {
            Some((before, after)) => {
                &&& s == before + pattern + after
                &&& forall|i: int|
                    0 <= i < before.len() ==> !pattern.is_prefix_of(#[trigger] s.skip(i))
            },
            None => forall|i: int|
                0 <= i <= s.len() ==> !pattern.is_prefix_of(#[trigger] s.skip(i)),
        },
    decreases s.len(),
{
    assert(s.skip(0) == s);
    if pattern.is_prefix_of(s) {
        assert(s == Seq::<char>::empty() + pattern + s.skip(pattern.len() as int));
    } else if s.len() > 0 {
        let t = s.skip(1);
        law_text_is_split_at_the_first_occurrence(t, pattern);
        assert forall|i: int| 0 < i <= s.len() implies #[trigger] s.skip(i) == t.skip(i - 1) by {}
        if let Some((before, after)) = split_at_first(t, pattern) {
            assert(s == seq![s[0]] + t);
            assert(seq![s[0]] + t == (seq![s[0]] + before) + pattern + after);
            let longer = seq![s[0]] + before;
            assert forall|i: int| 0 <= i < longer.len() implies !pattern.is_prefix_of(
                #[trigger] s.skip(i),
            ) by {
                if i > 0 {
                    assert(s.skip(i) == t.skip(i - 1));
                }
            }
        }
    }
}

/// Lower case is a matter of the letters A to Z: each becomes the letter at its place in the
/// other alphabet, and every other character stays.
pub proof fn law_lower_case(s: Seq<char>, i: int)
    requires
        0 <= i < s.len(),
    ensures
        lowered(s).len() == s.len(),
        'A' <= s[i] <= 'Z' ==> lowered(s)[i] as int - 'a' as int == s[i] as int - 'A' as int,
        !('A' <= s[i] <= 'Z') ==> lowered(s)[i] == s[i],
{
}

/// Decimal is the usual notation: a digit for a number below ten, and behind the digits of a
/// number one more digit for ten times that number and the digit's value.
pub proof fn law_decimal_is_positional(n: nat, k: nat)
    requires
        k < 10,
    ensures
        decimal(k) == seq![('0' as int + k) as char],
        n > 0 ==> decimal(10 * n + k) == decimal(n).push(('0' as int + k) as char),
{
    let m = 10 * n + k;
    assert(m / 10 == n && m % 10 == k) by (nonlinear_arith)
        requires
            m == 10 * n + k,
            k < 10,
    ;
}

/// A number reads back up to the bound that is asked for, with a plus before it or not.
pub proof fn law_number_reads_back_up_to_the_bound(n: nat, max: int)
    ensures
        unsigned_in(decimal(n), max) == if n <= max {
            Some(n as int)
        } else {
            None
        },
        unsigned_in(seq!['+'] + decimal(n), max) == unsigned_in(decimal(n), max),
{
    law_decimal_reads_back(n);
    let s = seq!['+'] + decimal(n);
    assert(s.skip(1) == decimal(n));
}

/// Text with anything but digits in it is no number.
pub proof fn law_only_digits_are_a_number(s: Seq<char>, i: int, max: int)
    requires
        0 <= i < s.len(),
        !('0' <= s[i] <= '9'),
        i > 0 || s[i] != '+',
    ensures
        unsigned_in(s, max) is None,
{
    let d = drop_plus(s);
    if s[0] == '+' {
        assert(d[i - 1] == s[i]);
        assert(!is_digit(d[i - 1]));
    } else {
        assert(!is_digit(d[i]));
    }
}

/// A signed number reads back, between the bounds that are asked for.
pub proof fn law_signed_number_reads_back(n: int, min: int, max: int)
    requires
        min <= n <= max,
        min <= 0,
    ensures
        signed_in(signed_decimal(n), min, max) == Some(n),
{
    if n < 0 {
        let m = (-n) as nat;
        law_decimal_reads_back(m);
        let s = signed_decimal(n);
        assert(s.skip(1) == decimal(m));
    } else {
        law_decimal_reads_back(n as nat);
        assert(is_digit(decimal(n as nat)[0]));
    }
}

} // verus!
