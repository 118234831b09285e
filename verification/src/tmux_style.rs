//! Converts a tmux style string (containing `#[...]` style directives, as found
//! in tmux `status-left`/`status-right` and in the value of a `#{T:...}` format
//! subscription) into a list of [`FormatItem`]s, so that the styled content
//! can be rendered in a status bar.
//!
//! The parser is stateful: it tracks the running style plus a "default" style
//! (what `#[default]` reverts to) and a `push-default`/`pop-default` stack,
//! mirroring tmux's own style model. Format items are derived from the current
//! style at each text boundary. Parsing is tolerant: unknown or layout-only
//! keywords (e.g. `align=`, `range=`) are skipped rather than producing errors.

use std::str::FromStr;

use vstd::prelude::*;
use vstd::slice::slice_subrange;

use crate::format_item::{
    base_style, in_style, item_views, law_style_items_establish_style, push_item, shown,
    style_after, with_style, AnsiColor, Blink, ColorView, FormatColor, FormatItem, Intensity,
    ItemView, Style, StyleView, Underline,
};
use crate::text::{
    after_prefix, char_is_space, chars_of, decimal, eq_str, find_char, is_digit, is_hex_digit,
    is_space, law_decimal_reads_back, lemma_until_char, lower_chars, lowered, parse_u16, string_of,
    strip_str, trim, trimmed, unsigned_in, until_char,
};

verus! {

// ---------------------------------------------------------------------------
// Colors
// ---------------------------------------------------------------------------

/// Whether `termwiz::color::SrgbaTuple` understands the text as a color.
pub uninterp spec fn is_srgba(s: Seq<char>) -> bool;

/// Whether `s` has the form `#rrggbb`.
pub open spec fn is_hex_triplet(s: Seq<char>) -> bool {
    s.len() == 7 && s[0] == '#' && forall|i: int| 1 <= i < 7 ==> is_hex_digit(#[trigger] s[i])
}

/// Asks `SrgbaTuple::from_str` of termwiz whether it understands `s` as a color: it
/// understands X11 names, `rgb:` and CSS notations, and every `#rrggbb`.
#[verifier::external_body]
fn names_color(s: &str) -> (known: bool)
    ensures
        known == is_srgba(s@),
        is_hex_triplet(s@) ==> known,
{
    termwiz::color::SrgbaTuple::from_str(s).is_ok()
}

/// Palette indices 0-15 map to the corresponding [`AnsiColor`] so they render
/// with the user's theme colors.
pub open spec fn ansi_color(n: int) -> Option<AnsiColor> {
    if n == 0 {
        Some(AnsiColor::Black)
    } else if n == 1 {
        Some(AnsiColor::Maroon)
    } else if n == 2 {
        Some(AnsiColor::Green)
    } else if n == 3 {
        Some(AnsiColor::Olive)
    } else if n == 4 {
        Some(AnsiColor::Navy)
    } else if n == 5 {
        Some(AnsiColor::Purple)
    } else if n == 6 {
        Some(AnsiColor::Teal)
    } else if n == 7 {
        Some(AnsiColor::Silver)
    } else if n == 8 {
        Some(AnsiColor::Grey)
    } else if n == 9 {
        Some(AnsiColor::Red)
    } else if n == 10 {
        Some(AnsiColor::Lime)
    } else if n == 11 {
        Some(AnsiColor::Yellow)
    } else if n == 12 {
        Some(AnsiColor::Blue)
    } else if n == 13 {
        Some(AnsiColor::Fuchsia)
    } else if n == 14 {
        Some(AnsiColor::Aqua)
    } else if n == 15 {
        Some(AnsiColor::White)
    } else {
        None
    }
}

/// The palette index of a color name in lower case.
pub open spec fn named_index(name: Seq<char>) -> Option<u8> {
    if name == "black"@ {
        Some(0)
    } else if name == "red"@ {
        Some(1)
    } else if name == "green"@ {
        Some(2)
    } else if name == "yellow"@ {
        Some(3)
    } else if name == "blue"@ {
        Some(4)
    } else if name == "magenta"@ {
        Some(5)
    } else if name == "cyan"@ {
        Some(6)
    } else if name == "white"@ {
        Some(7)
    } else if name == "brightblack"@ {
        Some(8)
    } else if name == "brightred"@ {
        Some(9)
    } else if name == "brightgreen"@ {
        Some(10)
    } else if name == "brightyellow"@ {
        Some(11)
    } else if name == "brightblue"@ {
        Some(12)
    } else if name == "brightmagenta"@ {
        Some(13)
    } else if name == "brightcyan"@ {
        Some(14)
    } else if name == "brightwhite"@ {
        Some(15)
    } else {
        None
    }
}

/// The brightness of a step of the color cube.
pub open spec fn cube_level(step: int) -> int {
    if step == 0 {
        0
    } else {
        55 + 40 * step
    }
}

/// The red, green and blue of the palette indices 16-255 in the standard
/// xterm-256 layout: a 6x6x6 color cube (16-231) followed by a 24-step grayscale
/// ramp (232-255).
pub open spec fn palette_rgb(n: int) -> (int, int, int) {
    if n < 232 {
        let i = n - 16;
        (cube_level(i / 36), cube_level((i / 6) % 6), cube_level(i % 6))
    } else {
        let v = 8 + 10 * (n - 232);
        (v, v, v)
    }
}

/// The lower case hexadecimal digit with value `n`.
pub open spec fn hex_char(n: int) -> char {
    if n < 10 {
        ('0' as int + n) as char
    } else {
        ('a' as int + (n - 10)) as char
    }
}

/// A byte as two hexadecimal digits.
pub open spec fn hex_byte(n: int) -> Seq<char> {
    seq![hex_char(n / 16), hex_char(n % 16)]
}

/// The palette indices 16-255 as `#rrggbb`.
pub open spec fn palette_hex(n: int) -> Seq<char> {
    let (r, g, b) = palette_rgb(n);
    seq!['#'] + hex_byte(r) + hex_byte(g) + hex_byte(b)
}

/// The color with a palette index.
pub open spec fn palette_color(n: int) -> ColorView {
    match ansi_color(n) {
        Some(c) => ColorView::AnsiColor(c),
        None => ColorView::Color(palette_hex(n)),
    }
}

/// What stands behind `colour` or `color`; the whole text if it begins with neither.
pub open spec fn index_digits(name: Seq<char>) -> Seq<char> {
    match after_prefix(name, "colour"@) {
        Some(digits) => digits,
        None => match after_prefix(name, "color"@) {
            Some(digits) => digits,
            None => name,
        },
    }
}

/// The color that a tmux color spec stands for, if any. `known` says whether the text,
/// without the whitespace around it, is a color by some other name.
pub open spec fn color_of(s: Seq<char>, known: bool) -> Option<ColorView> {
    let s = trimmed(s);
    let name = lowered(s);
    if name == "default"@ || name == "terminal"@ {
        Some(ColorView::Default)
    } else {
        match unsigned_in(index_digits(name), u16::MAX as int) {
            Some(n) => if n <= 255 {
                Some(palette_color(n))
            } else {
                None
            },
            None => match named_index(name) {
                Some(n) => Some(palette_color(n as int)),
                None => if known {
                    Some(ColorView::Color(s))
                } else {
                    None
                },
            },
        }
    }
}

/// A color written as `#rrggbb` comes out as it was written.
pub proof fn law_hex_color_is_kept(s: Seq<char>)
    requires
        is_hex_triplet(trimmed(s)),
    ensures
        color_of(s, true) == Some(ColorView::Color(trimmed(s))),
{
    let name = lowered(trimmed(s));
    assert(name[0] == '#');
    reveal_strlit("default");
    reveal_strlit("terminal");
    reveal_strlit("colour");
    reveal_strlit("color");
    reveal_strlit("black");
    reveal_strlit("red");
    reveal_strlit("green");
    reveal_strlit("yellow");
    reveal_strlit("blue");
    reveal_strlit("magenta");
    reveal_strlit("cyan");
    reveal_strlit("white");
    reveal_strlit("brightblack");
    reveal_strlit("brightred");
    reveal_strlit("brightgreen");
    reveal_strlit("brightyellow");
    reveal_strlit("brightblue");
    reveal_strlit("brightmagenta");
    reveal_strlit("brightcyan");
    reveal_strlit("brightwhite");
    assert(index_digits(name) == name) by {
        assert("colour"@.is_prefix_of(name) ==> name.subrange(0, 6)[0] == 'c');
        assert("color"@.is_prefix_of(name) ==> name.subrange(0, 5)[0] == 'c');
    }
    assert(!is_digit(name[0]));
}

/// Palette indices 0-15 as colors of the user's theme.
pub fn ansi_color_from_u8(n: u8) -> (r: Option<AnsiColor>)
    ensures
        r == ansi_color(n as int),
{
    match n {
        0 => Some(AnsiColor::Black),
        1 => Some(AnsiColor::Maroon),
        2 => Some(AnsiColor::Green),
        3 => Some(AnsiColor::Olive),
        4 => Some(AnsiColor::Navy),
        5 => Some(AnsiColor::Purple),
        6 => Some(AnsiColor::Teal),
        7 => Some(AnsiColor::Silver),
        8 => Some(AnsiColor::Grey),
        9 => Some(AnsiColor::Red),
        10 => Some(AnsiColor::Lime),
        11 => Some(AnsiColor::Yellow),
        12 => Some(AnsiColor::Blue),
        13 => Some(AnsiColor::Fuchsia),
        14 => Some(AnsiColor::Aqua),
        15 => Some(AnsiColor::White),
        _ => None,
    }
}

fn hex_digit_of(n: u8) -> (c: char)
    requires
        n < 16,
    ensures
        c == hex_char(n as int),
{
    if n < 10 {
        ('0' as u8 + n) as char
    } else {
        ('a' as u8 + (n - 10)) as char
    }
}

fn push_hex_byte(s: &mut String, n: u8)
    ensures
        final(s)@ == old(s)@ + hex_byte(n as int),
{
    s.push(hex_digit_of(n / 16));
    s.push(hex_digit_of(n % 16));
    assert(s@ == old(s)@ + hex_byte(n as int));
}

fn cube_step(step: u8) -> (level: u8)
    requires
        step < 6,
    ensures
        level == cube_level(step as int),
{
    if step == 0 {
        0
    } else {
        55 + 40 * step
    }
}

/// Converts palette indices 16-255 to an `#rrggbb` string.
pub fn palette_index_to_hex(n: u8) -> (s: String)
    requires
        n >= 16,
    ensures
        s@ == palette_hex(n as int),
{
    let (r, g, b) = if n < 232 {
        let i: u8 = n - 16;
        (cube_step(i / 36), cube_step((i / 6) % 6), cube_step(i % 6))
    } else {
        let v: u8 = 8 + 10 * (n - 232);
        (v, v, v)
    };
    let mut s = String::new();
    s.push('#');
    push_hex_byte(&mut s, r);
    push_hex_byte(&mut s, g);
    push_hex_byte(&mut s, b);
    assert(s@ == palette_hex(n as int));
    s
}

/// The color with a palette index.
pub fn palette_index_to_format_color(n: u8) -> (c: FormatColor)
    ensures
        c@ == palette_color(n as int),
{
    match ansi_color_from_u8(n) {
        Some(c) => FormatColor::AnsiColor(c),
        None => FormatColor::Color(palette_index_to_hex(n)),
    }
}

fn color_name_index(name: &[char]) -> (r: Option<u8>)
    ensures
        r == named_index(name@),
{
    if eq_str(name, "black") {
        Some(0)
    } else if eq_str(name, "red") {
        Some(1)
    } else if eq_str(name, "green") {
        Some(2)
    } else if eq_str(name, "yellow") {
        Some(3)
    } else if eq_str(name, "blue") {
        Some(4)
    } else if eq_str(name, "magenta") {
        Some(5)
    } else if eq_str(name, "cyan") {
        Some(6)
    } else if eq_str(name, "white") {
        Some(7)
    } else if eq_str(name, "brightblack") {
        Some(8)
    } else if eq_str(name, "brightred") {
        Some(9)
    } else if eq_str(name, "brightgreen") {
        Some(10)
    } else if eq_str(name, "brightyellow") {
        Some(11)
    } else if eq_str(name, "brightblue") {
        Some(12)
    } else if eq_str(name, "brightmagenta") {
        Some(13)
    } else if eq_str(name, "brightcyan") {
        Some(14)
    } else if eq_str(name, "brightwhite") {
        Some(15)
    } else {
        None
    }
}

/// Maps a tmux color spec to a [`FormatColor`], given whether the text, without the
/// whitespace around it, is a color by some other name.
pub fn color_or_named(s: &[char], known: bool) -> (r: Option<FormatColor>)
    ensures
        match r {
            Some(c) => color_of(s@, known) == Some(c@),
            None => color_of(s@, known) is None,
        },
{
    let s = trim(s);
    let name = lower_chars(s);
    let name = name.as_slice();
    if eq_str(name, "default") || eq_str(name, "terminal") {
        return Some(FormatColor::Default);
    }
    // colourN / colorN, or a bare palette index.
    let digits = match strip_str(name, "colour") {
        Some(digits) => digits,
        None => match strip_str(name, "color") {
            Some(digits) => digits,
            None => name,
        },
    };
    if let Some(n) = parse_u16(digits) {
        return if n <= 255 {
            Some(palette_index_to_format_color(n as u8))
        } else {
            None
        };
    }
    // Named ANSI colors map to palette indices so they follow the user's theme.
    match color_name_index(name) {
        Some(n) => Some(palette_index_to_format_color(n)),
        None => if known {
            Some(FormatColor::Color(string_of(s)))
        } else {
            None
        },
    }
}

/// Maps a tmux color spec (`red`, `colour46`, `#ff0000`, `default`, ...) to a
/// [`FormatColor`]. Returns `None` if it is no color (the caller ignores it).
pub fn tmux_color_to_format_color(s: &[char]) -> (r: Option<FormatColor>)
    ensures
        match r {
            Some(c) => color_of(s@, is_srgba(trimmed(s@))) == Some(c@),
            None => color_of(s@, is_srgba(trimmed(s@))) is None,
        },
        is_hex_triplet(trimmed(s@)) ==> r is Some && r->0@ == ColorView::Color(trimmed(s@)),
{
    proof {
        if is_hex_triplet(trimmed(s@)) {
            law_hex_color_is_kept(s@);
        }
    }
    let text = string_of(trim(s));
    let known = names_color(text.as_str());
    color_or_named(s, known)
}

// ---------------------------------------------------------------------------
// Keywords
// ---------------------------------------------------------------------------

/// A recognized, settable text attribute (the subset of tmux attributes that
/// has a format item).
#[derive(Debug, Clone, Copy, PartialEq, Eq)]
pub enum Attr {
    Bold,
    Dim,
    Italics,
    Reverse,
    Blink,
    Hidden,
    Strikethrough,
    Underscore(Underline),
}

/// The attribute that a name in lower case stands for, if any.
pub open spec fn attr_of(name: Seq<char>) -> Option<Attr> {
    if name == "bold"@ || name == "bright"@ {
        Some(Attr::Bold)
    } else if name == "dim"@ {
        Some(Attr::Dim)
    } else if name == "italics"@ {
        Some(Attr::Italics)
    } else if name == "reverse"@ {
        Some(Attr::Reverse)
    } else if name == "blink"@ {
        Some(Attr::Blink)
    } else if name == "hidden"@ {
        Some(Attr::Hidden)
    } else if name == "strikethrough"@ {
        Some(Attr::Strikethrough)
    } else if name == "underscore"@ {
        Some(Attr::Underscore(Underline::Single))
    } else if name == "double-underscore"@ {
        Some(Attr::Underscore(Underline::Double))
    } else if name == "curly-underscore"@ {
        Some(Attr::Underscore(Underline::Curly))
    } else if name == "dotted-underscore"@ {
        Some(Attr::Underscore(Underline::Dotted))
    } else if name == "dashed-underscore"@ {
        Some(Attr::Underscore(Underline::Dashed))
    } else {
        None
    }
}

/// tmux keywords that are recognized but have no format item: status-line layout and
/// interactivity. These are skipped.
pub open spec fn is_ignored(name: Seq<char>) -> bool {
    ||| "us="@.is_prefix_of(name)
    ||| "align="@.is_prefix_of(name)
    ||| "fill="@.is_prefix_of(name)
    ||| "width="@.is_prefix_of(name)
    ||| "pad="@.is_prefix_of(name)
    ||| "list="@.is_prefix_of(name)
    ||| "range="@.is_prefix_of(name)
    ||| name == "acs"@
    ||| name == "overline"@
    ||| name == "ignore"@
    ||| name == "noignore"@
    ||| name == "noattr"@
    ||| name == "nolist"@
    ||| name == "norange"@
    ||| name == "noalign"@
}

/// The style with an attribute turned on or off.
pub open spec fn with_attr(style: StyleView, attr: Attr, on: bool) -> StyleView {
    match attr {
        Attr::Bold => StyleView {
            intensity: if on {
                Intensity::Bold
            } else {
                Intensity::Normal
            },
            ..style
        },
        Attr::Dim => StyleView {
            intensity: if on {
                Intensity::Half
            } else {
                Intensity::Normal
            },
            ..style
        },
        Attr::Italics => StyleView { italic: on, ..style },
        Attr::Reverse => StyleView { reverse: on, ..style },
        Attr::Blink => StyleView {
            blink: if on {
                Blink::Slow
            } else {
                Blink::Off
            },
            ..style
        },
        Attr::Hidden => StyleView { invisible: on, ..style },
        Attr::Strikethrough => StyleView { strikethrough: on, ..style },
        Attr::Underscore(u) => StyleView {
            underline: if on {
                u
            } else {
                Underline::Off
            },
            ..style
        },
    }
}

/// The styles that keywords work on: the one in force, the one that `default` reverts to,
/// and the defaults that were pushed.
pub struct Styles {
    pub current: StyleView,
    pub default: StyleView,
    pub stack: Seq<StyleView>,
}

/// No style, nothing pushed.
pub open spec fn base_styles() -> Styles {
    Styles { current: base_style(), default: base_style(), stack: Seq::empty() }
}

/// The color that a color spec sets: a malformed color leaves the previous one.
pub open spec fn with_color(before: Option<ColorView>, text: Seq<char>) -> Option<ColorView> {
    match color_of(text, is_srgba(trimmed(text))) {
        Some(c) => Some(c),
        None => before,
    }
}

/// What a keyword does. Keywords are read without regard to case; unknown ones do nothing.
pub open spec fn keyword_applied(st: Styles, kw: Seq<char>) -> Styles {
    let name = lowered(kw);
    if name == "default"@ {
        Styles { current: st.default, ..st }
    } else if name == "none"@ {
        Styles {
            current: StyleView { fg: st.current.fg, bg: st.current.bg, ..base_style() },
            ..st
        }
    } else if name == "push-default"@ {
        Styles { default: st.current, stack: st.stack.push(st.default), ..st }
    } else if name == "pop-default"@ {
        if st.stack.len() > 0 {
            Styles { default: st.stack.last(), stack: st.stack.drop_last(), ..st }
        } else {
            Styles { default: base_style(), ..st }
        }
    } else if name == "set-default"@ {
        Styles { default: st.current, ..st }
    } else if "fg="@.is_prefix_of(name) {
        Styles {
            current: StyleView { fg: with_color(st.current.fg, kw.skip(3)), ..st.current },
            ..st
        }
    } else if "bg="@.is_prefix_of(name) {
        Styles {
            current: StyleView { bg: with_color(st.current.bg, kw.skip(3)), ..st.current },
            ..st
        }
    } else if is_ignored(name) {
        st
    } else if let Some(attr_name) = after_prefix(name, "no"@) {
        match attr_of(attr_name) {
            Some(attr) => Styles { current: with_attr(st.current, attr, false), ..st },
            None => st,
        }
    } else {
        match attr_of(name) {
            Some(attr) => Styles { current: with_attr(st.current, attr, true), ..st },
            None => st,
        }
    }
}

/// Whether `c` stands between keywords.
pub open spec fn is_separator(c: char) -> bool {
    c == ',' || is_space(c)
}

/// How many characters of `s` stand before the first separator.
pub open spec fn until_separator(s: Seq<char>) -> nat
    decreases s.len(),
{
    if s.len() == 0 || is_separator(s[0]) {
        0
    } else {
        1 + until_separator(s.skip(1))
    }
}

/// What the keywords of a spec do, one after the other.
pub open spec fn spec_applied(st: Styles, spec_text: Seq<char>) -> Styles
    decreases spec_text.len(),
{
    let n = until_separator(spec_text);
    let kw = spec_text.take(n as int);
    let next = if n > 0 {
        keyword_applied(st, kw)
    } else {
        st
    };
    if n < spec_text.len() {
        spec_applied(next, spec_text.skip(n as int + 1))
    } else {
        next
    }
}

/// Parses an attribute name in lower case (without any `no` prefix). Returns `None` for
/// attributes that have no format item (`acs`, `overline`).
fn parse_attr(name: &[char]) -> (r: Option<Attr>)
    ensures
        r == attr_of(name@),
{
    if eq_str(name, "bold") || eq_str(name, "bright") {
        Some(Attr::Bold)
    } else if eq_str(name, "dim") {
        Some(Attr::Dim)
    } else if eq_str(name, "italics") {
        Some(Attr::Italics)
    } else if eq_str(name, "reverse") {
        Some(Attr::Reverse)
    } else if eq_str(name, "blink") {
        Some(Attr::Blink)
    } else if eq_str(name, "hidden") {
        Some(Attr::Hidden)
    } else if eq_str(name, "strikethrough") {
        Some(Attr::Strikethrough)
    } else if eq_str(name, "underscore") {
        Some(Attr::Underscore(Underline::Single))
    } else if eq_str(name, "double-underscore") {
        Some(Attr::Underscore(Underline::Double))
    } else if eq_str(name, "curly-underscore") {
        Some(Attr::Underscore(Underline::Curly))
    } else if eq_str(name, "dotted-underscore") {
        Some(Attr::Underscore(Underline::Dotted))
    } else if eq_str(name, "dashed-underscore") {
        Some(Attr::Underscore(Underline::Dashed))
    } else {
        None
    }
}

fn is_ignored_keyword(name: &[char]) -> (r: bool)
    ensures
        r == is_ignored(name@),
{
    if strip_str(name, "us=").is_some() {
        return true;
    }
    if strip_str(name, "align=").is_some() {
        return true;
    }
    if strip_str(name, "fill=").is_some() {
        return true;
    }
    if strip_str(name, "width=").is_some() {
        return true;
    }
    if strip_str(name, "pad=").is_some() {
        return true;
    }
    if strip_str(name, "list=").is_some() {
        return true;
    }
    if strip_str(name, "range=").is_some() {
        return true;
    }
    eq_str(name, "acs") || eq_str(name, "overline") || eq_str(name, "ignore") || eq_str(
        name,
        "noignore",
    ) || eq_str(name, "noattr") || eq_str(name, "nolist") || eq_str(name, "norange") || eq_str(
        name,
        "noalign",
    )
}

// ---------------------------------------------------------------------------
// Rendering
// ---------------------------------------------------------------------------

/// The state of the conversion: the items so far, the text that is not among them yet, the
/// styles, and the style that the items leave in force.
pub struct Rendering {
    pub items: Seq<ItemView>,
    pub text: Seq<char>,
    pub styles: Styles,
    pub last: StyleView,
}

/// The state before the first character.
pub open spec fn rendering_start() -> Rendering {
    Rendering {
        items: Seq::empty(),
        text: Seq::empty(),
        styles: base_styles(),
        last: base_style(),
    }
}

/// Moves the text to the items, behind the style transition if the style in force differs
/// from the one the items leave.
pub open spec fn flushed(r: Rendering) -> Rendering {
    if r.text.len() == 0 {
        r
    } else if r.styles.current != r.last {
        Rendering {
            items: with_style(r.items.push(ItemView::ResetAttributes), r.styles.current).push(
                ItemView::Text(r.text),
            ),
            text: Seq::empty(),
            last: r.styles.current,
            ..r
        }
    } else {
        Rendering { items: r.items.push(ItemView::Text(r.text)), text: Seq::empty(), ..r }
    }
}

/// What stands behind the `]` that ends the style spec at the front of `body`.
pub open spec fn after_spec(body: Seq<char>) -> Seq<char> {
    let n = until_char(body, ']');
    if n < body.len() {
        body.skip(n as int + 1)
    } else {
        Seq::empty()
    }
}

/// The conversion of the rest `s` of a style string: `#[...]` is a style spec that applies
/// to the text behind it, `##` is a literal `#`, and everything else is text.
pub open spec fn rendered(r: Rendering, s: Seq<char>) -> Rendering
    decreases s.len(),
{
    if s.len() == 0 {
        flushed(r)
    } else if s[0] == '#' && s.len() > 1 && s[1] == '[' {
        let body = s.skip(2);
        let r = flushed(r);
        let styles = spec_applied(r.styles, body.take(until_char(body, ']') as int));
        rendered(Rendering { styles, ..r }, after_spec(body))
    } else if s[0] == '#' && s.len() > 1 && s[1] == '#' {
        rendered(Rendering { text: r.text.push('#'), ..r }, s.skip(2))
    } else {
        rendered(Rendering { text: r.text.push(s[0]), ..r }, s.skip(1))
    }
}

/// The state after the first piece of a style string (a style spec, a doubled `#`, or one
/// character), and how long the piece is.
#[verifier::opaque]
pub open spec fn piece_taken(r: Rendering, s: Seq<char>) -> (Rendering, int) {
    if s[0] == '#' && s.len() > 1 && s[1] == '[' {
        let body = s.skip(2);
        let n = until_char(body, ']') as int;
        let r = flushed(r);
        let styles = spec_applied(r.styles, body.take(n));
        (
            Rendering { styles, ..r },
            if n < body.len() {
                n + 3
            } else {
                n + 2
            },
        )
    } else if s[0] == '#' && s.len() > 1 && s[1] == '#' {
        (Rendering { text: r.text.push('#'), ..r }, 2)
    } else {
        (Rendering { text: r.text.push(s[0]), ..r }, 1)
    }
}

/// A style string is converted piece by piece.
proof fn lemma_rendered_by_pieces(r: Rendering, s: Seq<char>)
    requires
        s.len() > 0,
    ensures
        ({
            let (next, used) = piece_taken(r, s);
            &&& 0 < used <= s.len()
            &&& rendered(r, s) == rendered(next, s.skip(used))
        }),
{
    reveal(piece_taken);
    if s[0] == '#' && s.len() > 1 && s[1] == '[' {
        let body = s.skip(2);
        let used = piece_taken(r, s).1;
        lemma_until_char(body, ']');
        assert(s.skip(used) == after_spec(body));
    }
}

/// The items of a style string.
pub open spec fn format_items(s: Seq<char>) -> Seq<ItemView> {
    rendered(rendering_start(), s).items
}

/// The state of the conversion of a style string.
pub struct Parser {
    items: Vec<FormatItem>,
    text: String,
    current: Style,
    default: Style,
    default_stack: Vec<Style>,
    last_emitted: Style,
}

spec fn style_views(styles: Seq<Style>) -> Seq<StyleView> {
    Seq::new(styles.len(), |i: int| styles[i]@)
}

impl View for Parser {
    type V = Rendering;

    closed spec fn view(&self) -> Rendering {
        Rendering {
            items: item_views(self.items@),
            text: self.text@,
            styles: Styles {
                current: self.current@,
                default: self.default@,
                stack: style_views(self.default_stack@),
            },
            last: self.last_emitted@,
        }
    }
}

impl Parser {
    /// The state before the first character.
    pub fn new() -> (r: Self)
        ensures
            r@ == rendering_start(),
    {
        let r = Self {
            items: Vec::new(),
            text: String::new(),
            current: Style::base(),
            default: Style::base(),
            default_stack: Vec::new(),
            last_emitted: Style::base(),
        };
        assert(r@.items == Seq::<ItemView>::empty());
        assert(r@.styles.stack == Seq::<StyleView>::empty());
        r
    }

    /// Emits the buffered text, prefixed by the style transition if the current
    /// style differs from what was last written.
    fn flush_text(&mut self)
        ensures
            final(self)@ == flushed(old(self)@),
    {
        if self.text.as_str().is_empty() {
            return;
        }
        if !self.current.same(&self.last_emitted) {
            push_item(&mut self.items, FormatItem::ResetAttributes);
            self.current.emit_into(&mut self.items);
            self.last_emitted = self.current.clone();
        }
        let mut text = String::new();
        std::mem::swap(&mut text, &mut self.text);
        push_item(&mut self.items, FormatItem::Text(text));
    }

    fn set_attr(&mut self, attr: Attr, on: bool)
        ensures
            final(self)@ == (Rendering {
                styles: Styles {
                    current: with_attr(old(self)@.styles.current, attr, on),
                    ..old(self)@.styles
                },
                ..old(self)@
            }),
    {
        match attr {
            Attr::Bold => {
                self.current.intensity = if on {
                    Intensity::Bold
                } else {
                    Intensity::Normal
                };
            },
            Attr::Dim => {
                self.current.intensity = if on {
                    Intensity::Half
                } else {
                    Intensity::Normal
                };
            },
            Attr::Italics => {
                self.current.italic = on;
            },
            Attr::Reverse => {
                self.current.reverse = on;
            },
            Attr::Blink => {
                self.current.blink = if on {
                    Blink::Slow
                } else {
                    Blink::Off
                };
            },
            Attr::Hidden => {
                self.current.invisible = on;
            },
            Attr::Strikethrough => {
                self.current.strikethrough = on;
            },
            Attr::Underscore(u) => {
                self.current.underline = if on {
                    u
                } else {
                    Underline::Off
                };
            },
        }
    }

    /// Does what a keyword says.
    pub fn apply_keyword(&mut self, kw: &[char])
        ensures
            final(self)@ == (Rendering {
                styles: keyword_applied(old(self)@.styles, kw@),
                ..old(self)@
            }),
    {
        proof {
            reveal_strlit("fg=");
            reveal_strlit("bg=");
        }
        let name = lower_chars(kw);
        let name = name.as_slice();
        // Standalone state keywords.
        if eq_str(name, "default") {
            self.current = self.default.clone();
            return;
        }
        if eq_str(name, "none") {
            self.current.clear_attributes();
            return;
        }
        if eq_str(name, "push-default") {
            let pushed = self.default.clone();
            self.default_stack.push(pushed);
            self.default = self.current.clone();
            assert(self@.styles.stack == old(self)@.styles.stack.push(old(self)@.styles.default));
            return;
        }
        if eq_str(name, "pop-default") {
            self.default = match self.default_stack.pop() {
                Some(style) => style,
                None => Style::base(),
            };
            assert(old(self)@.styles.stack.len() > 0 ==> self@.styles.stack == old(
                self,
            )@.styles.stack.drop_last());
            return;
        }
        if eq_str(name, "set-default") {
            self.default = self.current.clone();
            return;
        }
        // Colors. A malformed color leaves the previous one untouched.

        if strip_str(name, "fg=").is_some() {
            let rest = slice_subrange(kw, 3, kw.len());
            assert(rest@ == kw@.skip(3));
            if let Some(c) = tmux_color_to_format_color(rest) {
                self.current.fg = Some(c);
            }
            return;
        }
        if strip_str(name, "bg=").is_some() {
            let rest = slice_subrange(kw, 3, kw.len());
            assert(rest@ == kw@.skip(3));
            if let Some(c) = tmux_color_to_format_color(rest) {
                self.current.bg = Some(c);
            }
            return;
        }
        // Layout/interactivity keywords with no inline equivalent (this also
        // catches the `no...` layout resets before the generic negation below).

        if is_ignored_keyword(name) {
            return;
        }
        // Attribute negation: strip `no`, clear the attribute.

        if let Some(attr_name) = strip_str(name, "no") {
            if let Some(attr) = parse_attr(attr_name) {
                self.set_attr(attr, false);
            }
            return;
        }
        // Plain attribute: set it. Unknown keywords are ignored.

        if let Some(attr) = parse_attr(name) {
            self.set_attr(attr, true);
        }
    }

    fn apply_spec(&mut self, spec_text: &[char])
        ensures
            final(self)@ == (Rendering {
                styles: spec_applied(old(self)@.styles, spec_text@),
                ..old(self)@
            }),
    {
        let mut i: usize = 0;
        assert(spec_text@.skip(0) == spec_text@);
        loop
            invariant
                i <= spec_text@.len(),
                self@ == (Rendering { styles: self@.styles, ..old(self)@ }),
                spec_applied(old(self)@.styles, spec_text@) == spec_applied(
                    self@.styles,
                    spec_text@.skip(i as int),
                ),
            decreases spec_text@.len() - i,
        {
            let ghost rest = spec_text@.skip(i as int);
            let start = i;
            while i < spec_text.len() && !(spec_text[i] == ',' || char_is_space(spec_text[i]))
                invariant
                    start <= i <= spec_text@.len(),
                    rest == spec_text@.skip(start as int),
                    until_separator(rest) == (i - start) + until_separator(
                        spec_text@.skip(i as int),
                    ),
                decreases spec_text@.len() - i,
            {
                assert(spec_text@.skip(i as int).skip(1) == spec_text@.skip(i + 1));
                i += 1;
            }
            assert(until_separator(rest) == i - start);
            let kw = slice_subrange(spec_text, start, i);
            assert(kw@ == rest.take(i - start));
            if kw.len() > 0 {
                self.apply_keyword(kw);
            }
            if i == spec_text.len() {
                return;
            }
            assert(rest.skip(i - start + 1) == spec_text@.skip(i + 1));
            i += 1;
        }
    }

    /// Takes in the first piece of a style string, and says how long it is.
    fn take_piece(&mut self, s: &[char]) -> (used: usize)
        requires
            s@.len() > 0,
        ensures
            piece_taken(old(self)@, s@) == (final(self)@, used as int),
            0 < used <= s@.len(),
    {
        proof {
            reveal(piece_taken);
        }
        if s[0] == '#' && s.len() > 1 && s[1] == '[' {
            // A style spec applies to the text that follows it, so
            // flush what we have under the previous style first.
            self.flush_text();
            let body = slice_subrange(s, 2, s.len());
            assert(body@ == s@.skip(2));
            let n = find_char(body, ']');
            let spec_text = slice_subrange(body, 0, n);
            assert(spec_text@ == body@.take(n as int));
            self.apply_spec(spec_text);
            if n < body.len() {
                n + 3  // consume the ']'
            } else {
                n + 2
            }
        } else if s[0] == '#' && s.len() > 1 && s[1] == '#' {
            self.text.push('#');
            2
        } else {
            self.text.push(s[0]);
            1
        }
    }

    /// Converts a style string from this state on, and hands out all items.
    pub fn parse(self, input: &str) -> (items: Vec<FormatItem>)
        ensures
            item_views(items@) == rendered(self@, input@).items,
    {
        let chars = chars_of(input);
        let chars = chars.as_slice();
        let mut parser = self;
        let mut i: usize = 0;
        assert(chars@.skip(0) == chars@);
        while i < chars.len()
            invariant
                i <= chars@.len(),
                rendered(self@, chars@) == rendered(parser@, chars@.skip(i as int)),
            decreases chars@.len() - i,
        {
            let rest = slice_subrange(chars, i, chars.len());
            assert(rest@ == chars@.skip(i as int));
            proof {
                lemma_rendered_by_pieces(parser@, rest@);
            }
            let used = parser.take_piece(rest);
            assert(rest@.skip(used as int) == chars@.skip(i + used));
            i += used;
        }
        parser.flush_text();
        parser.items
    }
}

/// Parses a tmux style string into format items.
pub fn tmux_style_to_format_items(input: &str) -> (items: Vec<FormatItem>)
    ensures
        item_views(items@) == format_items(input@),
{
    Parser::new().parse(input)
}

// ---------------------------------------------------------------------------
// Laws
// ---------------------------------------------------------------------------

/// What a style string says: its characters, each in the style in force where it stands.
pub open spec fn styled(styles: Styles, s: Seq<char>) -> Seq<(char, StyleView)>
    decreases s.len(),
{
    if s.len() == 0 {
        Seq::empty()
    } else if s[0] == '#' && s.len() > 1 && s[1] == '[' {
        let body = s.skip(2);
        styled(
            spec_applied(styles, body.take(until_char(body, ']') as int)),
            after_spec(body),
        )
    } else if s[0] == '#' && s.len() > 1 && s[1] == '#' {
        seq![('#', styles.current)] + styled(styles, s.skip(2))
    } else {
        seq![(s[0], styles.current)] + styled(styles, s.skip(1))
    }
}

proof fn lemma_flushed_shows_text(r: Rendering)
    requires
        style_after(base_style(), r.items) == r.last,
    ensures
        style_after(base_style(), flushed(r).items) == flushed(r).last,
        shown(flushed(r).items) == shown(r.items) + in_style(r.text, r.styles.current),
        flushed(r).text.len() == 0,
        flushed(r).styles == r.styles,
{
    if r.text.len() == 0 {
        assert(in_style(r.text, r.styles.current) == Seq::<(char, StyleView)>::empty());
        assert(shown(r.items) + Seq::<(char, StyleView)>::empty() == shown(r.items));
    } else {
        reveal_with_fuel(style_after, 2);
        reveal_with_fuel(shown, 2);
        let items = if r.styles.current != r.last {
            with_style(r.items.push(ItemView::ResetAttributes), r.styles.current)
        } else {
            r.items
        };
        law_style_items_establish_style(r.items, r.styles.current);
        let text = ItemView::Text(r.text);
        assert(items.push(text).drop_last() == items);
        assert(items.push(text).last() == text);
    }
}

proof fn lemma_rendered_shows_text(r: Rendering, s: Seq<char>)
    requires
        style_after(base_style(), r.items) == r.last,
    ensures
        shown(rendered(r, s).items) == shown(r.items) + in_style(r.text, r.styles.current) + styled(
            r.styles,
            s,
        ),
    decreases s.len(),
{
    if s.len() == 0 {
        lemma_flushed_shows_text(r);
        assert(shown(flushed(r).items) == shown(flushed(r).items) + styled(r.styles, s));
    } else if s[0] == '#' && s.len() > 1 && s[1] == '[' {
        let body = s.skip(2);
        lemma_flushed_shows_text(r);
        let f = flushed(r);
        let styles = spec_applied(f.styles, body.take(until_char(body, ']') as int));
        let next = Rendering { styles, ..f };
        lemma_rendered_shows_text(next, after_spec(body));
        assert(in_style(next.text, styles.current) == Seq::<(char, StyleView)>::empty());
        assert(shown(f.items) + Seq::<(char, StyleView)>::empty() == shown(f.items));
    } else {
        let (c, rest) = if s[0] == '#' && s.len() > 1 && s[1] == '#' {
            ('#', s.skip(2))
        } else {
            (s[0], s.skip(1))
        };
        let next = Rendering { text: r.text.push(c), ..r };
        lemma_rendered_shows_text(next, rest);
        let style = r.styles.current;
        assert(in_style(next.text, style) == in_style(r.text, style) + seq![(c, style)]);
        assert(shown(r.items) + (in_style(r.text, style) + seq![(c, style)]) + styled(
            r.styles,
            rest,
        ) == shown(r.items) + in_style(r.text, style) + (seq![(c, style)] + styled(
            r.styles,
            rest,
        )));
    }
}

/// The items show exactly what the style string says: every character, in order, in the
/// style that was in force where it stood.
pub proof fn law_items_show_what_the_string_says(s: Seq<char>)
    ensures
        shown(format_items(s)) == styled(base_styles(), s),
{
    reveal_with_fuel(style_after, 1);
    reveal_with_fuel(shown, 1);
    let r = rendering_start();
    lemma_rendered_shows_text(r, s);
    assert(shown(r.items) + in_style(r.text, r.styles.current) + styled(base_styles(), s) == styled(
        base_styles(),
        s,
    ));
}

/// `s` with every `#` doubled.
pub open spec fn doubled(s: Seq<char>) -> Seq<char>
    decreases s.len(),
{
    if s.len() == 0 {
        Seq::empty()
    } else if s[0] == '#' {
        seq!['#', '#'] + doubled(s.skip(1))
    } else {
        seq![s[0]] + doubled(s.skip(1))
    }
}

proof fn lemma_doubled_is_text(r: Rendering, s: Seq<char>)
    ensures
        rendered(r, doubled(s)) == flushed(Rendering { text: r.text + s, ..r }),
    decreases s.len(),
{
    let d = doubled(s);
    if s.len() == 0 {
        assert(r.text + s == r.text);
    } else {
        let tail = s.skip(1);
        let next = Rendering { text: r.text.push(s[0]), ..r };
        lemma_doubled_is_text(next, tail);
        assert(next.text + tail == r.text + s);
        if s[0] == '#' {
            assert(d.skip(2) == doubled(tail));
        } else {
            assert(d.skip(1) == doubled(tail));
        }
    }
}

/// Text with every `#` doubled is nothing but text: one item, or none if it is empty.
/// Text without `#` is such text as it stands.
pub proof fn law_doubled_text_is_literal(s: Seq<char>)
    ensures
        format_items(doubled(s)) == (if s.len() == 0 {
            Seq::empty()
        } else {
            seq![ItemView::Text(s)]
        }),
        !s.contains('#') ==> doubled(s) == s,
{
    lemma_doubled_is_text(rendering_start(), s);
    assert(Seq::<char>::empty() + s == s);
    assert(Seq::<ItemView>::empty().push(ItemView::Text(s)) == seq![ItemView::Text(s)]);
    if !s.contains('#') {
        lemma_nothing_to_double(s);
    }
}

proof fn lemma_nothing_to_double(s: Seq<char>)
    requires
        !s.contains('#'),
    ensures
        doubled(s) == s,
    decreases s.len(),
{
    if s.len() == 0 {
        assert(s == Seq::<char>::empty());
    } else {
        assert(s.contains(s[0]));
        let tail = s.skip(1);
        assert forall|i: int| 0 <= i < tail.len() implies tail[i] != '#' by {
            assert(s.contains(s[i + 1]));
        }
        lemma_nothing_to_double(tail);
        assert(seq![s[0]] + tail == s);
    }
}

pub proof fn lemma_lowered_keeps(s: Seq<char>)
    requires
        forall|i: int| 0 <= i < s.len() ==> !('A' <= #[trigger] s[i] <= 'Z'),
    ensures
        lowered(s) == s,
{
}

/// What a row of keywords does, one after the other.
pub open spec fn keywords_applied(st: Styles, kws: Seq<Seq<char>>) -> Styles
    decreases kws.len(),
{
    if kws.len() == 0 {
        st
    } else {
        keyword_applied(keywords_applied(st, kws.drop_last()), kws.last())
    }
}

/// Whether a keyword is `push-default` or `pop-default`, in whatever case it is written.
pub open spec fn moves_stack(kw: Seq<char>) -> bool {
    lowered(kw) == "push-default"@ || lowered(kw) == "pop-default"@
}

/// The names of the keywords that change the default differ.
proof fn lemma_default_keywords_differ()
    ensures
        "push-default"@ != "pop-default"@,
        "push-default"@ != "default"@,
        "push-default"@ != "none"@,
        "pop-default"@ != "default"@,
        "pop-default"@ != "none"@,
{
    reveal_strlit("push-default");
    reveal_strlit("pop-default");
    reveal_strlit("default");
    reveal_strlit("none");
    assert("push-default"@[1] != "pop-default"@[1]);
    assert("push-default"@.len() != "default"@.len());
    assert("pop-default"@.len() != "default"@.len());
}

proof fn lemma_others_keep_the_stack(st: Styles, kws: Seq<Seq<char>>)
    requires
        forall|i: int| 0 <= i < kws.len() ==> !moves_stack(#[trigger] kws[i]),
    ensures
        keywords_applied(st, kws).stack == st.stack,
    decreases kws.len(),
{
    if kws.len() > 0 {
        let front = kws.drop_last();
        assert forall|i: int| 0 <= i < front.len() implies !moves_stack(#[trigger] front[i]) by {
            assert(front[i] == kws[i]);
        }
        assert(!moves_stack(kws[kws.len() - 1]));
        lemma_others_keep_the_stack(st, front);
    }
}

/// `pop-default` undoes `push-default`: whatever keywords stand between the two, `set-default`
/// among them, the default and the stack are as they were before the push. Neither touches the
/// style in force.
pub proof fn law_pop_default_undoes_push_default(
    st: Styles,
    push: Seq<char>,
    kws: Seq<Seq<char>>,
    pop: Seq<char>,
)
    requires
        lowered(push) == "push-default"@,
        lowered(pop) == "pop-default"@,
        forall|i: int| 0 <= i < kws.len() ==> !moves_stack(#[trigger] kws[i]),
    ensures
        ({
            let pushed = keyword_applied(st, push);
            let between = keywords_applied(pushed, kws);
            let popped = keyword_applied(between, pop);
            &&& pushed.current == st.current
            &&& popped.current == between.current
            &&& popped.default == st.default
            &&& popped.stack == st.stack
        }),
{
    lemma_default_keywords_differ();
    let pushed = keyword_applied(st, push);
    lemma_others_keep_the_stack(pushed, kws);
    assert(pushed.stack == st.stack.push(st.default));
    assert(pushed.stack.drop_last() == st.stack);
}

/// `default` after `push-default` reverts to the style that was in force at the push,
/// whatever the style has become.
pub proof fn law_default_reverts_to_the_pushed_style(
    st: Styles,
    push: Seq<char>,
    style: StyleView,
    kw: Seq<char>,
)
    requires
        lowered(push) == "push-default"@,
        lowered(kw) == "default"@,
    ensures
        ({
            let pushed = keyword_applied(st, push);
            keyword_applied(Styles { current: style, ..pushed }, kw) == pushed
        }),
{
    lemma_default_keywords_differ();
}

/// `pop-default` with nothing pushed makes the base style the default, and touches nothing
/// else.
pub proof fn law_pop_default_falls_back_to_the_base_style(st: Styles, pop: Seq<char>)
    requires
        lowered(pop) == "pop-default"@,
        st.stack.len() == 0,
    ensures
        keyword_applied(st, pop) == (Styles { default: base_style(), ..st }),
{
    lemma_default_keywords_differ();
}

/// The first characters and the length of an attribute's name.
pub proof fn lemma_attr_name(name: Seq<char>)
    requires
        attr_of(name) is Some,
    ensures
        name.len() >= 3,
        name[0] == 'b' || name[0] == 'd' || name[0] == 'h' || name[0] == 's' || name[0] == 'u'
            || name[0] == 'c' || (name[0] == 'i' && name[1] == 't') || (name[0] == 'r' && name[1]
            == 'e'),
        lowered(name) == name,
{
    reveal_strlit("bold");
    reveal_strlit("bright");
    reveal_strlit("dim");
    reveal_strlit("italics");
    reveal_strlit("reverse");
    reveal_strlit("blink");
    reveal_strlit("hidden");
    reveal_strlit("strikethrough");
    reveal_strlit("underscore");
    reveal_strlit("double-underscore");
    reveal_strlit("curly-underscore");
    reveal_strlit("dotted-underscore");
    reveal_strlit("dashed-underscore");
    lemma_lowered_keeps(name);
}

/// `no` before the name of an attribute turns the attribute off.
pub proof fn law_no_turns_attribute_off(st: Styles, name: Seq<char>)
    requires
        attr_of(name) is Some,
    ensures
        keyword_applied(st, "no"@ + name) == (Styles {
            current: with_attr(st.current, attr_of(name)->0, false),
            ..st
        }),
{
    let kw = "no"@ + name;
    lemma_attr_name(name);
    reveal_strlit("default");
    reveal_strlit("none");
    reveal_strlit("push-default");
    reveal_strlit("pop-default");
    reveal_strlit("set-default");
    reveal_strlit("fg=");
    reveal_strlit("bg=");
    reveal_strlit("us=");
    reveal_strlit("align=");
    reveal_strlit("fill=");
    reveal_strlit("width=");
    reveal_strlit("pad=");
    reveal_strlit("list=");
    reveal_strlit("range=");
    reveal_strlit("acs");
    reveal_strlit("overline");
    reveal_strlit("ignore");
    reveal_strlit("noignore");
    reveal_strlit("noattr");
    reveal_strlit("nolist");
    reveal_strlit("norange");
    reveal_strlit("noalign");
    reveal_strlit("no");
    assert(lowered(kw) == kw) by {
        assert forall|i: int| 0 <= i < kw.len() implies lowered(kw)[i] == kw[i] by {
            if i >= 2 {
                assert(kw[i] == name[i - 2]);
                assert(lowered(name)[i - 2] == name[i - 2]);
            }
        }
    }
    assert(kw[0] == 'n' && kw[1] == 'o' && kw[2] == name[0] && kw[3] == name[1]);
    assert forall|prefix: Seq<char>|
        prefix.len() > 0 && #[trigger] prefix.is_prefix_of(kw) implies prefix[0] == 'n' by {
        assert(prefix[0] == kw.subrange(0, prefix.len() as int)[0]);
    }
    assert(kw.subrange(0, 2) == "no"@);
    assert(kw.skip(2) == name);
    assert("noignore"@[2] == 'i' && "noignore"@[3] == 'g');
    assert("noattr"@[2] == 'a' && "nolist"@[2] == 'l' && "noalign"@[2] == 'a');
    assert("norange"@[2] == 'r' && "norange"@[3] == 'a');
    assert("none"@[2] == 'n');
}

/// Keywords for status-line layout and interactivity do nothing, in whatever case they are
/// written.
pub proof fn law_layout_keyword_does_nothing(st: Styles, kw: Seq<char>)
    requires
        is_ignored(lowered(kw)),
    ensures
        keyword_applied(st, kw) == st,
{
    let name = lowered(kw);
    reveal_strlit("default");
    reveal_strlit("none");
    reveal_strlit("push-default");
    reveal_strlit("pop-default");
    reveal_strlit("set-default");
    reveal_strlit("fg=");
    reveal_strlit("bg=");
    reveal_strlit("us=");
    reveal_strlit("align=");
    reveal_strlit("fill=");
    reveal_strlit("width=");
    reveal_strlit("pad=");
    reveal_strlit("list=");
    reveal_strlit("range=");
    reveal_strlit("acs");
    reveal_strlit("overline");
    reveal_strlit("ignore");
    reveal_strlit("noignore");
    reveal_strlit("noattr");
    reveal_strlit("nolist");
    reveal_strlit("norange");
    reveal_strlit("noalign");
    assert forall|prefix: Seq<char>|
        prefix.len() > 1 && #[trigger] prefix.is_prefix_of(name) implies name.len() > 1 && prefix[0]
        == name[0] && prefix[1] == name[1] by {
        assert(prefix[0] == name.subrange(0, prefix.len() as int)[0]);
        assert(prefix[1] == name.subrange(0, prefix.len() as int)[1]);
    }
    assert(name != "none"@) by {
        assert("none"@[2] == 'n');
        assert("noignore"@[2] != 'n' && "noattr"@[2] != 'n' && "nolist"@[2] != 'n');
        assert("norange"@[2] != 'n' && "noalign"@[2] != 'n');
        assert("none"@[0] == 'n');
    }
    assert("push-default"@[1] == 'u' && "pop-default"@[1] == 'o' && "pad="@[1] == 'a');
    assert("fg="@[1] == 'g' && "fill="@[1] == 'i');
    assert("default"@[0] == 'd' && "set-default"@[0] == 's' && "bg="@[0] == 'b');
}

/// Text without whitespace at its ends is not trimmed.
pub proof fn lemma_nothing_to_trim(s: Seq<char>)
    requires
        s.len() > 0,
        !is_space(s[0]),
        !is_space(s.last()),
    ensures
        trimmed(s) == s,
{
}

/// A number behind one of the words for a color, or behind none, is a color of the palette.
proof fn lemma_indexed_color(word: Seq<char>, n: u8, known: bool)
    requires
        word == "colour"@ || word == "color"@ || word == Seq::<char>::empty(),
        index_digits(word + decimal(n as nat)) == decimal(n as nat),
    ensures
        color_of(word + decimal(n as nat), known) == Some(palette_color(n as int)),
{
    let d = decimal(n as nat);
    let s = word + d;
    law_decimal_reads_back(n as nat);
    assert(is_digit(d[0]) && is_digit(d.last()));
    reveal_strlit("colour");
    reveal_strlit("color");
    assert(s.last() == d.last());
    assert(lowered(s) == s) by {
        assert forall|i: int| 0 <= i < s.len() implies !('A' <= #[trigger] s[i] <= 'Z') by {
            if i >= word.len() {
                assert(is_digit(d[i - word.len()]));
            }
        }
        lemma_lowered_keeps(s);
    }
    lemma_nothing_to_trim(s);
    assert(s != "default"@ && s != "terminal"@) by {
        reveal_strlit("default");
        reveal_strlit("terminal");
        assert("default"@.last() == 't' && "terminal"@.last() == 'l');
    }
}

/// What stands behind the words for a color.
pub proof fn lemma_index_digits(d: Seq<char>)
    requires
        d.len() > 0,
        is_digit(d[0]),
    ensures
        index_digits("colour"@ + d) == d,
        index_digits("color"@ + d) == d,
        index_digits(d) == d,
{
    reveal_strlit("colour");
    reveal_strlit("color");
    let long = "colour"@ + d;
    let short = "color"@ + d;
    assert(long.subrange(0, 6) == "colour"@);
    assert(long.skip(6) == d);
    assert(!"colour"@.is_prefix_of(short)) by {
        assert("colour"@[4] == 'u');
        assert(short[4] == 'r');
        if "colour"@.is_prefix_of(short) {
            assert(short.subrange(0, 6)[4] == 'u');
        }
    }
    assert(short.subrange(0, 5) == "color"@);
    assert(short.skip(5) == d);
    if "colour"@.is_prefix_of(d) {
        assert(d.subrange(0, 6)[0] == 'c');
    }
    if "color"@.is_prefix_of(d) {
        assert(d.subrange(0, 5)[0] == 'c');
    }
}

/// `colour0` to `colour255`, with either spelling of the word or without it, are the colors
/// of the palette.
pub proof fn law_indexed_color_is_of_the_palette(n: u8, known: bool)
    ensures
        color_of("colour"@ + decimal(n as nat), known) == Some(palette_color(n as int)),
        color_of("color"@ + decimal(n as nat), known) == Some(palette_color(n as int)),
        color_of(decimal(n as nat), known) == Some(palette_color(n as int)),
{
    let d = decimal(n as nat);
    law_decimal_reads_back(n as nat);
    assert(is_digit(d[0]));
    lemma_index_digits(d);
    let nothing = Seq::<char>::empty();
    assert(nothing + d == d);
    lemma_indexed_color("colour"@, n, known);
    lemma_indexed_color("color"@, n, known);
    lemma_indexed_color(nothing, n, known);
}

} // verus!
