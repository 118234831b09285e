//! What the keywords and colors of a style string do to the style.

use vstd::prelude::*;

use crate::command_laws::{hex_digit_value, hex_number};
use crate::format_item::{
    base_style, with_item, with_style, AnsiColor, AttributeChange, Blink, ColorView, Intensity,
    ItemView, StyleView, Underline,
};
use crate::text::{
    after_prefix, decimal, is_digit, is_space, joined, law_decimal_reads_back, lemma_until_char_is,
    lowered, trimmed, unsigned_in,
};
use crate::tmux_style::{
    after_spec, attr_of, base_styles, color_of, cube_level, flushed, format_items, hex_byte,
    hex_char, index_digits, is_ignored, is_separator, is_srgba, keyword_applied, keywords_applied,
    law_indexed_color_is_of_the_palette, lemma_attr_name, lemma_index_digits, lemma_lowered_keeps,
    lemma_nothing_to_trim, named_index, palette_color, palette_hex, palette_rgb, rendered,
    rendering_start, spec_applied, styled, until_separator, with_attr, Attr, Rendering, Styles,
};

verus! {

proof fn lemma_attr_keyword(st: Styles, kw: Seq<char>)
    requires
        attr_of(lowered(kw)) is Some,
    ensures
        keyword_applied(st, kw) == (Styles {
            current: with_attr(st.current, attr_of(lowered(kw))->0, true),
            ..st
        }),
{
    let name = lowered(kw);
    reveal_strlit("bold");
    reveal_strlit("bright");
    reveal_strlit("dim");
    reveal_strlit("italics");
    reveal_strlit("reverse");
    reveal_strlit("blink");
    reveal_strlit("hidden");
    reveal_strlit("strikethrough");
    reveal_strlit("underscore");
    reveal_strlit("double-underscore");
    reveal_strlit("curly-underscore");
    reveal_strlit("dotted-underscore");
    reveal_strlit("dashed-underscore");
    reveal_strlit("default");
    reveal_strlit("none");
    reveal_strlit("push-default");
    reveal_strlit("pop-default");
    reveal_strlit("set-default");
    reveal_strlit("fg=");
    reveal_strlit("bg=");
    reveal_strlit("us=");
    reveal_strlit("align=");
    reveal_strlit("fill=");
    reveal_strlit("width=");
    reveal_strlit("pad=");
    reveal_strlit("list=");
    reveal_strlit("range=");
    reveal_strlit("acs");
    reveal_strlit("overline");
    reveal_strlit("ignore");
    reveal_strlit("noignore");
    reveal_strlit("noattr");
    reveal_strlit("nolist");
    reveal_strlit("norange");
    reveal_strlit("noalign");
    reveal_strlit("no");
    assert forall|prefix: Seq<char>|
        prefix.len() > 1 && #[trigger] prefix.is_prefix_of(name) implies prefix[0] == name[0]
        && prefix[1] == name[1] by {
        assert(prefix[0] == name.subrange(0, prefix.len() as int)[0]);
        assert(prefix[1] == name.subrange(0, prefix.len() as int)[1]);
    }
    lemma_attr_name(name);
    assert(!"fg="@.is_prefix_of(name));
    assert(!"bg="@.is_prefix_of(name));
    assert(!is_ignored(name));
    assert(after_prefix(name, "no"@) is None);
    assert(name != "default"@ && name != "none"@ && name != "push-default"@);
    assert(name != "pop-default"@ && name != "set-default"@);
}

proof fn lemma_no_attr_keyword(st: Styles, kw: Seq<char>, name: Seq<char>)
    requires
        attr_of(name) is Some,
        lowered(kw) == "no"@ + name,
    ensures
        keyword_applied(st, kw) == (Styles {
            current: with_attr(st.current, attr_of(name)->0, false),
            ..st
        }),
{
    let all = lowered(kw);
    lemma_attr_name(name);
    reveal_strlit("default");
    reveal_strlit("none");
    reveal_strlit("push-default");
    reveal_strlit("pop-default");
    reveal_strlit("set-default");
    reveal_strlit("fg=");
    reveal_strlit("bg=");
    reveal_strlit("us=");
    reveal_strlit("align=");
    reveal_strlit("fill=");
    reveal_strlit("width=");
    reveal_strlit("pad=");
    reveal_strlit("list=");
    reveal_strlit("range=");
    reveal_strlit("acs");
    reveal_strlit("overline");
    reveal_strlit("ignore");
    reveal_strlit("noignore");
    reveal_strlit("noattr");
    reveal_strlit("nolist");
    reveal_strlit("norange");
    reveal_strlit("noalign");
    reveal_strlit("no");
    assert(all[0] == 'n' && all[1] == 'o' && all[2] == name[0] && all[3] == name[1]);
    assert forall|prefix: Seq<char>|
        prefix.len() > 0 && #[trigger] prefix.is_prefix_of(all) implies prefix[0] == 'n' by {
        assert(prefix[0] == all.subrange(0, prefix.len() as int)[0]);
    }
    assert(all.subrange(0, 2) == "no"@);
    assert(all.skip(2) == name);
    assert("noignore"@[2] == 'i' && "noignore"@[3] == 'g');
    assert("noattr"@[2] == 'a' && "nolist"@[2] == 'l' && "noalign"@[2] == 'a');
    assert("norange"@[2] == 'r' && "norange"@[3] == 'a');
    assert("none"@[2] == 'n');
}

proof fn lemma_attr_names()
    ensures
        attr_of("bold"@) == Some(Attr::Bold),
        attr_of("bright"@) == Some(Attr::Bold),
        attr_of("dim"@) == Some(Attr::Dim),
        attr_of("italics"@) == Some(Attr::Italics),
        attr_of("reverse"@) == Some(Attr::Reverse),
        attr_of("blink"@) == Some(Attr::Blink),
        attr_of("hidden"@) == Some(Attr::Hidden),
        attr_of("strikethrough"@) == Some(Attr::Strikethrough),
        attr_of("underscore"@) == Some(Attr::Underscore(Underline::Single)),
        attr_of("double-underscore"@) == Some(Attr::Underscore(Underline::Double)),
        attr_of("curly-underscore"@) == Some(Attr::Underscore(Underline::Curly)),
        attr_of("dotted-underscore"@) == Some(Attr::Underscore(Underline::Dotted)),
        attr_of("dashed-underscore"@) == Some(Attr::Underscore(Underline::Dashed)),
{
    reveal_strlit("bold");
    reveal_strlit("bright");
    reveal_strlit("dim");
    reveal_strlit("italics");
    reveal_strlit("reverse");
    reveal_strlit("blink");
    reveal_strlit("hidden");
    reveal_strlit("strikethrough");
    reveal_strlit("underscore");
    reveal_strlit("double-underscore");
    reveal_strlit("curly-underscore");
    reveal_strlit("dotted-underscore");
    reveal_strlit("dashed-underscore");
    assert("bold"@.len() == 4 && "bright"@.len() == 6 && "dim"@.len() == 3);
    assert("italics"@.len() == 7 && "reverse"@.len() == 7 && "blink"@.len() == 5);
    assert("hidden"@.len() == 6 && "strikethrough"@.len() == 13 && "underscore"@.len() == 10);
    assert("double-underscore"@.len() == 17 && "curly-underscore"@.len() == 16);
    assert("dotted-underscore"@.len() == 17 && "dashed-underscore"@.len() == 17);
    assert("bright"@[0] == 'b' && "hidden"@[0] == 'h');
    assert("italics"@[0] == 'i' && "reverse"@[0] == 'r');
    assert("double-underscore"@[2] == 'u' && "dotted-underscore"@[2] == 't');
    assert("dashed-underscore"@[2] == 's');
}

/// The name of an attribute, in whatever case, gives one field of the style the value that the
/// name stands for, and changes nothing else.
pub proof fn law_attribute_keyword_sets_its_field(st: Styles, kw: Seq<char>)
    ensures
        ({
            let name = lowered(kw);
            let after = keyword_applied(st, kw);
            &&& name == "bold"@ || name == "bright"@ ==> after == (Styles {
                current: StyleView { intensity: Intensity::Bold, ..st.current },
                ..st
            })
            &&& name == "dim"@ ==> after == (Styles {
                current: StyleView { intensity: Intensity::Half, ..st.current },
                ..st
            })
            &&& name == "italics"@ ==> after == (Styles {
                current: StyleView { italic: true, ..st.current },
                ..st
            })
            &&& name == "reverse"@ ==> after == (Styles {
                current: StyleView { reverse: true, ..st.current },
                ..st
            })
            &&& name == "blink"@ ==> after == (Styles {
                current: StyleView { blink: Blink::Slow, ..st.current },
                ..st
            })
            &&& name == "hidden"@ ==> after == (Styles {
                current: StyleView { invisible: true, ..st.current },
                ..st
            })
            &&& name == "strikethrough"@ ==> after == (Styles {
                current: StyleView { strikethrough: true, ..st.current },
                ..st
            })
            &&& name == "underscore"@ ==> after == (Styles {
                current: StyleView { underline: Underline::Single, ..st.current },
                ..st
            })
            &&& name == "double-underscore"@ ==> after == (Styles {
                current: StyleView { underline: Underline::Double, ..st.current },
                ..st
            })
            &&& name == "curly-underscore"@ ==> after == (Styles {
                current: StyleView { underline: Underline::Curly, ..st.current },
                ..st
            })
            &&& name == "dotted-underscore"@ ==> after == (Styles {
                current: StyleView { underline: Underline::Dotted, ..st.current },
                ..st
            })
            &&& name == "dashed-underscore"@ ==> after == (Styles {
                current: StyleView { underline: Underline::Dashed, ..st.current },
                ..st
            })
        }),
{
    lemma_attr_names();
    if attr_of(lowered(kw)) is Some {
        lemma_attr_keyword(st, kw);
    }
}

/// `no` before the name of an attribute, in whatever case, gives the field that the attribute
/// sets the value of plain text, whatever the field held, and changes nothing else.
pub proof fn law_no_keyword_clears_its_field(st: Styles, kw: Seq<char>)
    ensures
        ({
            let name = lowered(kw);
            let after = keyword_applied(st, kw);
            &&& name == "no"@ + "bold"@ || name == "no"@ + "bright"@ || name == "no"@ + "dim"@
                ==> after == (Styles {
                current: StyleView { intensity: Intensity::Normal, ..st.current },
                ..st
            })
            &&& name == "no"@ + "italics"@ ==> after == (Styles {
                current: StyleView { italic: false, ..st.current },
                ..st
            })
            &&& name == "no"@ + "reverse"@ ==> after == (Styles {
                current: StyleView { reverse: false, ..st.current },
                ..st
            })
            &&& name == "no"@ + "blink"@ ==> after == (Styles {
                current: StyleView { blink: Blink::Off, ..st.current },
                ..st
            })
            &&& name == "no"@ + "hidden"@ ==> after == (Styles {
                current: StyleView { invisible: false, ..st.current },
                ..st
            })
            &&& name == "no"@ + "strikethrough"@ ==> after == (Styles {
                current: StyleView { strikethrough: false, ..st.current },
                ..st
            })
            &&& name == "no"@ + "underscore"@ || name == "no"@ + "double-underscore"@ || name
                == "no"@ + "curly-underscore"@ || name == "no"@ + "dotted-underscore"@ || name
                == "no"@ + "dashed-underscore"@ ==> after == (Styles {
                current: StyleView { underline: Underline::Off, ..st.current },
                ..st
            })
        }),
{
    lemma_attr_names();
    let name = lowered(kw);
    if name == "no"@ + "bold"@ {
        lemma_no_attr_keyword(st, kw, "bold"@);
    }
    if name == "no"@ + "bright"@ {
        lemma_no_attr_keyword(st, kw, "bright"@);
    }
    if name == "no"@ + "dim"@ {
        lemma_no_attr_keyword(st, kw, "dim"@);
    }
    if name == "no"@ + "italics"@ {
        lemma_no_attr_keyword(st, kw, "italics"@);
    }
    if name == "no"@ + "reverse"@ {
        lemma_no_attr_keyword(st, kw, "reverse"@);
    }
    if name == "no"@ + "blink"@ {
        lemma_no_attr_keyword(st, kw, "blink"@);
    }
    if name == "no"@ + "hidden"@ {
        lemma_no_attr_keyword(st, kw, "hidden"@);
    }
    if name == "no"@ + "strikethrough"@ {
        lemma_no_attr_keyword(st, kw, "strikethrough"@);
    }
    if name == "no"@ + "underscore"@ {
        lemma_no_attr_keyword(st, kw, "underscore"@);
    }
    if name == "no"@ + "double-underscore"@ {
        lemma_no_attr_keyword(st, kw, "double-underscore"@);
    }
    if name == "no"@ + "curly-underscore"@ {
        lemma_no_attr_keyword(st, kw, "curly-underscore"@);
    }
    if name == "no"@ + "dotted-underscore"@ {
        lemma_no_attr_keyword(st, kw, "dotted-underscore"@);
    }
    if name == "no"@ + "dashed-underscore"@ {
        lemma_no_attr_keyword(st, kw, "dashed-underscore"@);
    }
}

/// Whether the text names an attribute.
pub open spec fn is_attribute(name: Seq<char>) -> bool {
    ||| name == "bold"@ || name == "bright"@ || name == "dim"@ || name == "italics"@
    ||| name == "reverse"@ || name == "blink"@ || name == "hidden"@ || name == "strikethrough"@
    ||| name == "underscore"@ || name == "double-underscore"@ || name == "curly-underscore"@
    ||| name == "dotted-underscore"@ || name == "dashed-underscore"@
}

/// A keyword that is none of those that set or clear an attribute, set a color or concern the
/// default style changes nothing.
pub proof fn law_other_keywords_change_nothing(st: Styles, kw: Seq<char>)
    requires
        ({
            let name = lowered(kw);
            &&& !is_attribute(name)
            &&& forall|attribute: Seq<char>| #[trigger]
                is_attribute(attribute) ==> name != "no"@ + attribute
            &&& !"fg="@.is_prefix_of(name) && !"bg="@.is_prefix_of(name)
            &&& name != "none"@ && name != "default"@ && name != "set-default"@
            &&& name != "push-default"@ && name != "pop-default"@
        }),
    ensures
        keyword_applied(st, kw) == st,
{
    let name = lowered(kw);
    assert forall|n: Seq<char>| attr_of(n) is Some implies #[trigger] is_attribute(n) by {}
    if let Some(rest) = after_prefix(name, "no"@) {
        assert(name.subrange(0, "no"@.len() as int) == "no"@);
        assert(name == "no"@ + rest);
        if attr_of(rest) is Some {
            assert(is_attribute(rest));
        }
    }
}

/// `none` clears every attribute and keeps both colors; `default` reverts to the default style
/// and `set-default` makes the style the default one, and neither does anything else.
pub proof fn law_whole_style_keywords(st: Styles, kw: Seq<char>)
    ensures
        ({
            let name = lowered(kw);
            let after = keyword_applied(st, kw);
            &&& name == "none"@ ==> after == (Styles {
                current: StyleView {
                    fg: st.current.fg,
                    bg: st.current.bg,
                    intensity: Intensity::Normal,
                    italic: false,
                    underline: Underline::Off,
                    blink: Blink::Off,
                    reverse: false,
                    invisible: false,
                    strikethrough: false,
                },
                ..st
            })
            &&& name == "default"@ ==> after == (Styles { current: st.default, ..st })
            &&& name == "set-default"@ ==> after == (Styles { default: st.current, ..st })
        }),
{
    reveal_strlit("default");
    reveal_strlit("none");
    reveal_strlit("push-default");
    reveal_strlit("pop-default");
    reveal_strlit("set-default");
    assert("default"@.len() == 7 && "none"@.len() == 4 && "push-default"@.len() == 12);
    assert("pop-default"@.len() == 11 && "set-default"@.len() == 11);
    assert("pop-default"@[0] == 'p' && "set-default"@[0] == 's');
}

/// A style string begins without colors and without attributes.
pub proof fn law_style_begins_plain()
    ensures
        base_styles().current == base_styles().default,
        base_styles().stack.len() == 0,
        base_styles().current.fg is None && base_styles().current.bg is None,
        keyword_applied(base_styles(), "none"@) == base_styles(),
{
    law_whole_style_keywords(base_styles(), "none"@);
    reveal_strlit("none");
    lemma_lowered_keeps("none"@);
}

// ---------------------------------------------------------------------------
// Colors
// ---------------------------------------------------------------------------

/// `fg=` sets the foreground color and `bg=` the background color, and neither changes anything
/// else; a color that is not understood changes nothing at all.
pub proof fn law_color_keyword_sets_its_color(st: Styles, kw: Seq<char>)
    requires
        kw.len() >= 3,
    ensures
        ({
            let key = lowered(kw).take(3);
            let color = color_of(kw.skip(3), is_srgba(trimmed(kw.skip(3))));
            let after = keyword_applied(st, kw);
            &&& key == seq!['f', 'g', '='] ==> after == match color {
                Some(c) => Styles { current: StyleView { fg: Some(c), ..st.current }, ..st },
                None => st,
            }
            &&& key == seq!['b', 'g', '='] ==> after == match color {
                Some(c) => Styles { current: StyleView { bg: Some(c), ..st.current }, ..st },
                None => st,
            }
        }),
{
    let name = lowered(kw);
    let key = name.take(3);
    reveal_strlit("default");
    reveal_strlit("none");
    reveal_strlit("push-default");
    reveal_strlit("pop-default");
    reveal_strlit("set-default");
    reveal_strlit("fg=");
    reveal_strlit("bg=");
    assert("fg="@ == seq!['f', 'g', '=']);
    assert("bg="@ == seq!['b', 'g', '=']);
    assert(name.subrange(0, 3) == key);
    assert(key[0] == name[0] && key[1] == name[1] && key[2] == name[2]);
    if key == seq!['f', 'g', '='] || key == seq!['b', 'g', '='] {
        assert(name[2] == '=');
        assert("default"@[2] == 'f' && "none"@[2] == 'n' && "push-default"@[2] == 's');
        assert("pop-default"@[2] == 'p' && "set-default"@[2] == 't');
    }
    if key == seq!['b', 'g', '='] {
        assert(!"fg="@.is_prefix_of(name)) by {
            if "fg="@.is_prefix_of(name) {
                assert(name.subrange(0, 3)[0] == 'f');
            }
        }
    }
}

/// `default` and `terminal`, in whatever case and with whitespace around them, are the default
/// color.
pub proof fn law_default_color(s: Seq<char>, known: bool)
    requires
        lowered(trimmed(s)) == "default"@ || lowered(trimmed(s)) == "terminal"@,
    ensures
        color_of(s, known) == Some(ColorView::Default),
{
}

proof fn lemma_name_is_no_index(name: Seq<char>)
    requires
        name.len() > 0,
        'a' <= name[0] <= 'z',
        name.len() > 2 ==> !(name[0] == 'c' && name[1] == 'o'),
    ensures
        unsigned_in(index_digits(name), u16::MAX as int) is None,
{
    reveal_strlit("colour");
    reveal_strlit("color");
    if "colour"@.is_prefix_of(name) {
        assert(name.subrange(0, 6)[0] == 'c' && name.subrange(0, 6)[1] == 'o');
    }
    if "color"@.is_prefix_of(name) {
        assert(name.subrange(0, 5)[0] == 'c' && name.subrange(0, 5)[1] == 'o');
    }
    assert(index_digits(name) == name);
    assert(!is_digit(name[0]));
}

/// The eight names of colors, and with `bright` before them the other eight, are the colors of
/// the terminal's palette that they name.
pub proof fn law_named_colors(s: Seq<char>, known: bool)
    ensures
        ({
            let name = lowered(trimmed(s));
            let color = color_of(s, known);
            &&& name == "black"@ ==> color == Some(ColorView::AnsiColor(AnsiColor::Black))
            &&& name == "red"@ ==> color == Some(ColorView::AnsiColor(AnsiColor::Maroon))
            &&& name == "green"@ ==> color == Some(ColorView::AnsiColor(AnsiColor::Green))
            &&& name == "yellow"@ ==> color == Some(ColorView::AnsiColor(AnsiColor::Olive))
            &&& name == "blue"@ ==> color == Some(ColorView::AnsiColor(AnsiColor::Navy))
            &&& name == "magenta"@ ==> color == Some(ColorView::AnsiColor(AnsiColor::Purple))
            &&& name == "cyan"@ ==> color == Some(ColorView::AnsiColor(AnsiColor::Teal))
            &&& name == "white"@ ==> color == Some(ColorView::AnsiColor(AnsiColor::Silver))
            &&& name == "brightblack"@ ==> color == Some(ColorView::AnsiColor(AnsiColor::Grey))
            &&& name == "brightred"@ ==> color == Some(ColorView::AnsiColor(AnsiColor::Red))
            &&& name == "brightgreen"@ ==> color == Some(ColorView::AnsiColor(AnsiColor::Lime))
            &&& name == "brightyellow"@ ==> color == Some(ColorView::AnsiColor(AnsiColor::Yellow))
            &&& name == "brightblue"@ ==> color == Some(ColorView::AnsiColor(AnsiColor::Blue))
            &&& name == "brightmagenta"@ ==> color == Some(ColorView::AnsiColor(AnsiColor::Fuchsia))
            &&& name == "brightcyan"@ ==> color == Some(ColorView::AnsiColor(AnsiColor::Aqua))
            &&& name == "brightwhite"@ ==> color == Some(ColorView::AnsiColor(AnsiColor::White))
        }),
{
    let name = lowered(trimmed(s));
    lemma_color_names();
    if named_index(name) is Some {
        lemma_color_name(name);
        lemma_name_is_no_index(name);
    }
}

proof fn lemma_color_name(name: Seq<char>)
    requires
        named_index(name) is Some,
    ensures
        name.len() > 2,
        'a' <= name[0] <= 'z',
        !(name[0] == 'c' && name[1] == 'o'),
        name != "default"@,
        name != "terminal"@,
{
    reveal_strlit("black");
    reveal_strlit("red");
    reveal_strlit("green");
    reveal_strlit("yellow");
    reveal_strlit("blue");
    reveal_strlit("magenta");
    reveal_strlit("cyan");
    reveal_strlit("white");
    reveal_strlit("brightblack");
    reveal_strlit("brightred");
    reveal_strlit("brightgreen");
    reveal_strlit("brightyellow");
    reveal_strlit("brightblue");
    reveal_strlit("brightmagenta");
    reveal_strlit("brightcyan");
    reveal_strlit("brightwhite");
    reveal_strlit("default");
    reveal_strlit("terminal");
    assert("default"@[0] == 'd' && "terminal"@[0] == 't');
}

proof fn lemma_color_names()
    ensures
        named_index("black"@) == Some(0u8),
        named_index("red"@) == Some(1u8),
        named_index("green"@) == Some(2u8),
        named_index("yellow"@) == Some(3u8),
        named_index("blue"@) == Some(4u8),
        named_index("magenta"@) == Some(5u8),
        named_index("cyan"@) == Some(6u8),
        named_index("white"@) == Some(7u8),
        named_index("brightblack"@) == Some(8u8),
        named_index("brightred"@) == Some(9u8),
        named_index("brightgreen"@) == Some(10u8),
        named_index("brightyellow"@) == Some(11u8),
        named_index("brightblue"@) == Some(12u8),
        named_index("brightmagenta"@) == Some(13u8),
        named_index("brightcyan"@) == Some(14u8),
        named_index("brightwhite"@) == Some(15u8),
{
    reveal_strlit("black");
    reveal_strlit("red");
    reveal_strlit("green");
    reveal_strlit("yellow");
    reveal_strlit("blue");
    reveal_strlit("magenta");
    reveal_strlit("cyan");
    reveal_strlit("white");
    reveal_strlit("brightblack");
    reveal_strlit("brightred");
    reveal_strlit("brightgreen");
    reveal_strlit("brightyellow");
    reveal_strlit("brightblue");
    reveal_strlit("brightmagenta");
    reveal_strlit("brightcyan");
    reveal_strlit("brightwhite");
    assert("black"@.len() == 5 && "red"@.len() == 3 && "green"@.len() == 5);
    assert("yellow"@.len() == 6 && "blue"@.len() == 4 && "magenta"@.len() == 7);
    assert("cyan"@.len() == 4 && "white"@.len() == 5);
    assert("brightblack"@.len() == 11 && "brightred"@.len() == 9 && "brightgreen"@.len() == 11);
    assert("brightyellow"@.len() == 12 && "brightblue"@.len() == 10);
    assert("brightmagenta"@.len() == 13 && "brightcyan"@.len() == 10);
    assert("brightwhite"@.len() == 11);
    assert("black"@[0] == 'b' && "green"@[0] == 'g' && "white"@[0] == 'w');
    assert("blue"@[0] == 'b' && "cyan"@[0] == 'c');
    assert("brightblack"@[6] == 'b' && "brightgreen"@[6] == 'g' && "brightwhite"@[6] == 'w');
    assert("brightblue"@[6] == 'b' && "brightcyan"@[6] == 'c');
}

/// Text that begins with a hash is the color that it writes, if it writes one, and none else.
pub proof fn law_hash_begins_a_written_color(s: Seq<char>)
    requires
        trimmed(s).len() > 0,
        trimmed(s)[0] == '#',
    ensures
        color_of(s, true) == Some(ColorView::Color(trimmed(s))),
        color_of(s, false) is None,
{
    let name = lowered(trimmed(s));
    reveal_strlit("colour");
    reveal_strlit("color");
    reveal_strlit("default");
    reveal_strlit("terminal");
    assert(name[0] == '#');
    if "colour"@.is_prefix_of(name) {
        assert(name.subrange(0, 6)[0] == 'c');
    }
    if "color"@.is_prefix_of(name) {
        assert(name.subrange(0, 5)[0] == 'c');
    }
    assert(index_digits(name) == name);
    assert(!is_digit(name[0]));
    if named_index(name) is Some {
        lemma_color_name(name);
    }
}

/// The first sixteen indices of the palette are the colors of the terminal, in this order.
pub proof fn law_palette_begins_with_the_terminal_colors(n: u8, known: bool)
    requires
        n < 16,
    ensures
        ({
            let colors = seq![
                AnsiColor::Black,
                AnsiColor::Maroon,
                AnsiColor::Green,
                AnsiColor::Olive,
                AnsiColor::Navy,
                AnsiColor::Purple,
                AnsiColor::Teal,
                AnsiColor::Silver,
                AnsiColor::Grey,
                AnsiColor::Red,
                AnsiColor::Lime,
                AnsiColor::Yellow,
                AnsiColor::Blue,
                AnsiColor::Fuchsia,
                AnsiColor::Aqua,
                AnsiColor::White,
            ];
            color_of("colour"@ + decimal(n as nat), known) == Some(
                ColorView::AnsiColor(colors[n as int]),
            )
        }),
{
    law_indexed_color_is_of_the_palette(n, known);
}

/// The text `#rrggbb` for three bytes, read by its digits.
pub open spec fn is_triplet_of(s: Seq<char>, r: int, g: int, b: int) -> bool {
    &&& s.len() == 7
    &&& s[0] == '#'
    &&& hex_number(s.subrange(1, 3)) == Some(r)
    &&& hex_number(s.subrange(3, 5)) == Some(g)
    &&& hex_number(s.subrange(5, 7)) == Some(b)
    &&& forall|i: int| 0 <= i < 7 ==> !('A' <= #[trigger] s[i] <= 'F')
}

proof fn lemma_hex_byte(n: int)
    requires
        0 <= n < 256,
    ensures
        hex_byte(n).len() == 2,
        hex_number(hex_byte(n)) == Some(n),
        forall|i: int| 0 <= i < 2 ==> !('A' <= #[trigger] hex_byte(n)[i] <= 'F'),
{
    let s = hex_byte(n);
    assert(s.drop_last() == seq![hex_char(n / 16)]);
    assert(hex_number(s.drop_last()) == Some(n / 16));
    assert(hex_digit_value(s.last()) == Some(n % 16));
}

proof fn lemma_triplet(r: int, g: int, b: int)
    requires
        0 <= r < 256,
        0 <= g < 256,
        0 <= b < 256,
    ensures
        is_triplet_of(seq!['#'] + hex_byte(r) + hex_byte(g) + hex_byte(b), r, g, b),
{
    let s = seq!['#'] + hex_byte(r) + hex_byte(g) + hex_byte(b);
    lemma_hex_byte(r);
    lemma_hex_byte(g);
    lemma_hex_byte(b);
    assert(s.subrange(1, 3) == hex_byte(r));
    assert(s.subrange(3, 5) == hex_byte(g));
    assert(s.subrange(5, 7) == hex_byte(b));
    assert forall|i: int| 0 <= i < 7 implies !('A' <= #[trigger] s[i] <= 'F') by {
        if 1 <= i < 3 {
            assert(s[i] == hex_byte(r)[i - 1]);
        } else if 3 <= i < 5 {
            assert(s[i] == hex_byte(g)[i - 3]);
        } else if 5 <= i {
            assert(s[i] == hex_byte(b)[i - 5]);
        }
    }
}

/// The brightness of each level of the color cube.
pub open spec fn brightness(level: int) -> int {
    if level == 0 {
        0
    } else if level == 1 {
        95
    } else if level == 2 {
        135
    } else if level == 3 {
        175
    } else if level == 4 {
        215
    } else {
        255
    }
}

proof fn lemma_color_cube(r: int, g: int, b: int)
    requires
        0 <= r < 6,
        0 <= g < 6,
        0 <= b < 6,
    ensures
        palette_color(16 + 36 * r + 6 * g + b) matches ColorView::Color(text) && is_triplet_of(
            text,
            brightness(r),
            brightness(g),
            brightness(b),
        ),
{
    let n = 16 + 36 * r + 6 * g + b;
    lemma_cube_index(r, g, b);
    lemma_level(r);
    lemma_level(g);
    lemma_level(b);
    assert(palette_rgb(n) == (brightness(r), brightness(g), brightness(b)));
    lemma_triplet(brightness(r), brightness(g), brightness(b));
    assert(palette_color(n) == ColorView::Color(palette_hex(n)));
}

proof fn lemma_level(level: int)
    requires
        0 <= level < 6,
    ensures
        cube_level(level) == brightness(level),
        0 <= brightness(level) < 256,
{
}

proof fn lemma_cube_index(r: int, g: int, b: int)
    requires
        0 <= r < 6,
        0 <= g < 6,
        0 <= b < 6,
    ensures
        ({
            let i = 36 * r + 6 * g + b;
            i / 36 == r && (i / 6) % 6 == g && i % 6 == b
        }),
{
    let i = 36 * r + 6 * g + b;
    assert(i / 36 == r);
    assert(i / 6 == 6 * r + g);
    assert((6 * r + g) % 6 == g);
    assert(i % 6 == b);
}

/// The indices behind the terminal colors are a cube of six levels of red, green and blue, each
/// level with its usual brightness.
pub proof fn law_palette_has_a_color_cube(r: int, g: int, b: int, known: bool)
    requires
        0 <= r < 6,
        0 <= g < 6,
        0 <= b < 6,
    ensures
        color_of("colour"@ + decimal((16 + 36 * r + 6 * g + b) as nat), known) matches Some(
            ColorView::Color(text),
        ) && is_triplet_of(text, brightness(r), brightness(g), brightness(b)),
{
    lemma_color_cube(r, g, b);
    law_indexed_color_is_of_the_palette((16 + 36 * r + 6 * g + b) as u8, known);
}

/// The last indices of the palette are shades of grey, each ten brighter than the one before.
pub proof fn law_palette_ends_with_greys(k: int, known: bool)
    requires
        0 <= k < 24,
    ensures
        color_of("colour"@ + decimal((232 + k) as nat), known) matches Some(ColorView::Color(text))
            && is_triplet_of(text, 8 + 10 * k, 8 + 10 * k, 8 + 10 * k),
{
    let n = (232 + k) as u8;
    law_indexed_color_is_of_the_palette(n, known);
    lemma_triplet(8 + 10 * k, 8 + 10 * k, 8 + 10 * k);
}

/// An index beyond the palette is no color.
pub proof fn law_index_beyond_the_palette_is_no_color(n: nat, known: bool)
    requires
        256 <= n <= u16::MAX,
    ensures
        color_of("colour"@ + decimal(n), known) is None,
        color_of("color"@ + decimal(n), known) is None,
        color_of(decimal(n), known) is None,
{
    let d = decimal(n);
    law_decimal_reads_back(n);
    assert(is_digit(d[0]));
    lemma_index_digits(d);
    lemma_index_is_kept("colour"@, n);
    lemma_index_is_kept("color"@, n);
    lemma_index_is_kept(Seq::empty(), n);
    assert(Seq::<char>::empty() + d == d);
}

proof fn lemma_index_is_kept(word: Seq<char>, n: nat)
    requires
        word == "colour"@ || word == "color"@ || word == Seq::<char>::empty(),
    ensures
        trimmed(word + decimal(n)) == word + decimal(n),
        lowered(word + decimal(n)) == word + decimal(n),
        word + decimal(n) != "default"@,
        word + decimal(n) != "terminal"@,
{
    let d = decimal(n);
    let s = word + d;
    law_decimal_reads_back(n);
    reveal_strlit("colour");
    reveal_strlit("color");
    reveal_strlit("default");
    reveal_strlit("terminal");
    assert forall|i: int| 0 <= i < s.len() implies !('A' <= #[trigger] s[i] <= 'Z') by {
        if i >= word.len() {
            assert(s[i] == d[i - word.len()]);
            assert(is_digit(d[i - word.len()]));
        }
    }
    lemma_lowered_keeps(s);
    assert(s.last() == d[d.len() - 1]);
    assert(is_digit(d[d.len() - 1]));
    assert(!is_space(s.last()));
    if word.len() == 0 {
        assert(s[0] == d[0]);
        assert(is_digit(d[0]));
    }
    lemma_nothing_to_trim(s);
    assert("default"@.last() == 't' && "terminal"@.last() == 'l');
}

// ---------------------------------------------------------------------------
// Style strings
// ---------------------------------------------------------------------------

/// Whether the text is one keyword: it is not empty and holds neither comma nor whitespace.
pub open spec fn is_keyword(kw: Seq<char>) -> bool {
    kw.len() > 0 && forall|i: int|
        0 <= i < kw.len() ==> #[trigger] kw[i] != ',' && !is_space(kw[i])
}

proof fn lemma_until_separator_is(s: Seq<char>, n: int)
    requires
        0 <= n <= s.len(),
        forall|i: int| 0 <= i < n ==> !is_separator(#[trigger] s[i]),
        n < s.len() ==> is_separator(s[n]),
    ensures
        until_separator(s) == n,
    decreases s.len(),
{
    if n > 0 {
        let t = s.skip(1);
        assert(!is_separator(s[0]));
        assert forall|i: int| 0 <= i < n - 1 implies !is_separator(#[trigger] t[i]) by {
            assert(t[i] == s[i + 1]);
        }
        if n < s.len() {
            assert(t[n - 1] == s[n]);
        }
        lemma_until_separator_is(t, n - 1);
    }
}

proof fn lemma_keywords_from_the_front(st: Styles, kws: Seq<Seq<char>>)
    requires
        kws.len() > 0,
    ensures
        keywords_applied(st, kws) == keywords_applied(keyword_applied(st, kws[0]), kws.skip(1)),
    decreases kws.len(),
{
    if kws.len() == 1 {
        assert(kws.drop_last() == Seq::<Seq<char>>::empty());
        assert(kws.skip(1) == Seq::<Seq<char>>::empty());
        assert(keywords_applied(st, kws.drop_last()) == st);
    } else {
        lemma_keywords_from_the_front(st, kws.drop_last());
        assert(kws.drop_last().skip(1) == kws.skip(1).drop_last());
        assert(kws.skip(1).last() == kws.last());
    }
}

/// The keywords of a directive apply one after the other, whether commas or spaces stand between
/// them; more of these, before a keyword, change nothing.
pub proof fn law_directive_applies_its_keywords(st: Styles, kws: Seq<Seq<char>>, sep: char)
    requires
        sep == ',' || is_space(sep),
        forall|i: int| 0 <= i < kws.len() ==> is_keyword(#[trigger] kws[i]),
    ensures
        spec_applied(st, joined(kws, sep)) == keywords_applied(st, kws),
        spec_applied(st, seq![sep] + joined(kws, sep)) == keywords_applied(st, kws),
    decreases kws.len(),
{
    let s = joined(kws, sep);
    lemma_until_separator_is(seq![sep] + s, 0);
    assert((seq![sep] + s).skip(1) == s);
    if kws.len() == 0 {
        assert(until_separator(s) == 0);
    } else {
        let head = kws[0];
        let n = head.len() as int;
        assert(is_keyword(head));
        lemma_keywords_from_the_front(st, kws);
        let rest = kws.skip(1);
        assert forall|i: int| 0 <= i < rest.len() implies is_keyword(#[trigger] rest[i]) by {
            assert(rest[i] == kws[i + 1]);
        }
        law_directive_applies_its_keywords(keyword_applied(st, head), rest, sep);
        assert forall|i: int| 0 <= i < n implies !is_separator(#[trigger] s[i]) by {
            assert(s[i] == head[i]);
        }
        lemma_until_separator_is(s, n);
        assert(s.take(n) == head);
        if kws.len() > 1 {
            assert(s.skip(n + 1) == joined(rest, sep));
        } else {
            assert(keywords_applied(keyword_applied(st, head), rest) == keyword_applied(st, head));
        }
    }
}

/// A directive changes the style of the text behind it and shows nothing itself; without its
/// closing bracket it takes up the rest of the string.
pub proof fn law_directive_styles_what_follows(styles: Styles, body: Seq<char>, rest: Seq<char>)
    requires
        !body.contains(']'),
    ensures
        styled(styles, seq!['#', '['] + body + seq![']'] + rest) == styled(
            spec_applied(styles, body),
            rest,
        ),
        styled(styles, seq!['#', '['] + body).len() == 0,
{
    let whole = seq!['#', '['] + body + seq![']'] + rest;
    let inner = body + seq![']'] + rest;
    assert(whole.skip(2) == inner);
    assert forall|i: int| 0 <= i < body.len() implies inner[i] != ']' by {
        assert(inner[i] == body[i]);
        assert(body.contains(body[i]));
    }
    lemma_until_char_is(inner, ']', body.len() as int);
    assert(inner.take(body.len() as int) == body);
    assert(inner.skip(body.len() as int + 1) == rest);
    let open = seq!['#', '['] + body;
    assert(open.skip(2) == body);
    assert forall|i: int| 0 <= i < body.len() implies body[i] != ']' by {
        assert(body.contains(body[i]));
    }
    lemma_until_char_is(body, ']', body.len() as int);
    let after = spec_applied(styles, body.take(body.len() as int));
    assert(styled(after, Seq::<char>::empty()) == Seq::<(char, StyleView)>::empty());
    assert(after_spec(body) == Seq::<char>::empty());
}

/// A character shows as it is, in the style that is in force; two hashes show as one, and a hash
/// before anything but a hash or an opening bracket shows as it is.
pub proof fn law_characters_show_as_they_are(styles: Styles, c: char, rest: Seq<char>)
    ensures
        c != '#' ==> styled(styles, seq![c] + rest) == seq![(c, styles.current)] + styled(
            styles,
            rest,
        ),
        styled(styles, seq!['#', '#'] + rest) == seq![('#', styles.current)] + styled(styles, rest),
        rest.len() == 0 || rest[0] != '#' && rest[0] != '[' ==> styled(styles, seq!['#'] + rest)
            == seq![('#', styles.current)] + styled(styles, rest),
{
    assert((seq![c] + rest).skip(1) == rest);
    assert((seq!['#', '#'] + rest).skip(2) == rest);
    assert((seq!['#'] + rest).skip(1) == rest);
}

proof fn lemma_directive_is_rendered(r: Rendering, body: Seq<char>, rest: Seq<char>)
    requires
        !body.contains(']'),
    ensures
        rendered(r, seq!['#', '['] + body + seq![']'] + rest) == rendered(
            Rendering { styles: spec_applied(r.styles, body), ..flushed(r) },
            rest,
        ),
{
    let whole = seq!['#', '['] + body + seq![']'] + rest;
    let inner = body + seq![']'] + rest;
    assert(whole.skip(2) == inner);
    assert forall|i: int| 0 <= i < body.len() implies inner[i] != ']' by {
        assert(inner[i] == body[i]);
        assert(body.contains(body[i]));
    }
    lemma_until_char_is(inner, ']', body.len() as int);
    assert(inner.take(body.len() as int) == body);
    assert(inner.skip(body.len() as int + 1) == rest);
}

proof fn lemma_plain_text_is_rendered(r: Rendering, text: Seq<char>, rest: Seq<char>)
    requires
        !text.contains('#'),
    ensures
        rendered(r, text + rest) == rendered(Rendering { text: r.text + text, ..r }, rest),
    decreases text.len(),
{
    if text.len() == 0 {
        assert(text + rest == rest);
        assert(r.text + text == r.text);
    } else {
        assert(text.contains(text[0]));
        let tail = text.skip(1);
        assert forall|i: int| 0 <= i < tail.len() implies tail[i] != '#' by {
            assert(text.contains(text[i + 1]));
        }
        lemma_plain_text_is_rendered(Rendering { text: r.text.push(text[0]), ..r }, tail, rest);
        assert((text + rest).skip(1) == tail + rest);
        assert(r.text.push(text[0]) + tail == r.text + text);
    }
}

proof fn lemma_two_runs(body: Seq<char>, a: Seq<char>, b: Seq<char>)
    requires
        !body.contains(']'),
        a.len() > 0 && !a.contains('#'),
        b.len() > 0 && !b.contains('#'),
    ensures
        format_items(a + (seq!['#', '['] + body + seq![']'] + b)) == flushed(
            Rendering {
                items: seq![ItemView::Text(a)],
                text: b,
                styles: spec_applied(base_styles(), body),
                last: base_style(),
            },
        ).items,
{
    let r = rendering_start();
    let directive = seq!['#', '['] + body + seq![']'] + b;
    lemma_plain_text_is_rendered(r, a, directive);
    let one = Rendering { text: r.text + a, ..r };
    assert(r.text + a == a);
    lemma_directive_is_rendered(one, body, b);
    let two = Rendering { styles: spec_applied(one.styles, body), ..flushed(one) };
    assert(flushed(one) == (Rendering {
        items: one.items.push(ItemView::Text(a)),
        text: Seq::empty(),
        ..one
    }));
    assert(b + Seq::<char>::empty() == b);
    lemma_plain_text_is_rendered(two, b, Seq::empty());
    let three = Rendering { text: two.text + b, ..two };
    assert(two.text + b == b);
    assert(rendered(three, Seq::empty()) == flushed(three));
    assert(one.items.push(ItemView::Text(a)) == seq![ItemView::Text(a)]);
}

/// Text in another style than that of plain text comes behind a reset and the items of its
/// style; text whose style is that of the text before it comes behind nothing at all.
pub proof fn law_style_is_told_where_it_changes(body: Seq<char>, a: Seq<char>, b: Seq<char>)
    requires
        !body.contains(']'),
        a.len() > 0 && !a.contains('#'),
        b.len() > 0 && !b.contains('#'),
    ensures
        ({
            let style = spec_applied(base_styles(), body).current;
            let items = format_items(a + (seq!['#', '['] + body + seq![']'] + b));
            items == if style == base_style() {
                seq![ItemView::Text(a), ItemView::Text(b)]
            } else {
                with_style(seq![ItemView::Text(a), ItemView::ResetAttributes], style).push(
                    ItemView::Text(b),
                )
            }
        }),
{
    lemma_two_runs(body, a, b);
    let style = spec_applied(base_styles(), body).current;
    if style == base_style() {
        assert(seq![ItemView::Text(a)].push(ItemView::Text(b)) == seq![
            ItemView::Text(a),
            ItemView::Text(b),
        ]);
    } else {
        assert(seq![ItemView::Text(a)].push(ItemView::ResetAttributes) == seq![
            ItemView::Text(a),
            ItemView::ResetAttributes,
        ]);
    }
}

/// The items of a style come in this order, each at most once: the foreground, the background,
/// the intensity, italics, the underline, blinking, reverse, invisible and struck-out text.
pub open spec fn item_rank(item: ItemView) -> int {
    match item {
        ItemView::Foreground(_) => 1,
        ItemView::Background(_) => 2,
        ItemView::Attribute(AttributeChange::Intensity(_)) => 3,
        ItemView::Attribute(AttributeChange::Italic(_)) => 4,
        ItemView::Attribute(AttributeChange::Underline(_)) => 5,
        ItemView::Attribute(AttributeChange::Blink(_)) => 6,
        ItemView::Attribute(AttributeChange::Reverse(_)) => 7,
        ItemView::Attribute(AttributeChange::Invisible(_)) => 8,
        ItemView::Attribute(AttributeChange::StrikeThrough(_)) => 9,
        _ => 0,
    }
}

#[verifier::opaque]
spec fn is_ranked(base: Seq<ItemView>, items: Seq<ItemView>, rank: int) -> bool {
    &&& base.len() <= items.len()
    &&& forall|i: int| 0 <= i < base.len() ==> #[trigger] items[i] == base[i]
    &&& forall|i: int|
        base.len() <= i < items.len() ==> 0 < item_rank(#[trigger] items[i]) <= rank
    &&& forall|i: int, j: int|
        base.len() <= i < j < items.len() ==> item_rank(#[trigger] items[i]) < item_rank(
            #[trigger] items[j],
        )
}

proof fn lemma_ranked(
    base: Seq<ItemView>,
    items: Seq<ItemView>,
    rank: int,
    cond: bool,
    item: ItemView,
)
    requires
        rank >= 0,
        is_ranked(base, items, rank),
        item_rank(item) == rank + 1,
    ensures
        is_ranked(base, with_item(items, cond, item), rank + 1),
{
    reveal(is_ranked);
}

/// The items of a style come behind what was there, in the order of their ranks and each at most
/// once.
pub proof fn law_style_items_come_in_order(items: Seq<ItemView>, style: StyleView)
    ensures
        ({
            let all = with_style(items, style);
            let n = items.len() as int;
            &&& n <= all.len()
            &&& forall|i: int| 0 <= i < n ==> #[trigger] all[i] == items[i]
            &&& forall|i: int| n <= i < all.len() ==> 0 < item_rank(#[trigger] all[i])
            &&& forall|i: int, j: int|
                n <= i < j < all.len() ==> item_rank(#[trigger] all[i]) < item_rank(
                    #[trigger] all[j],
                )
        }),
{
    lemma_style_items_are_ranked(items, style);
    reveal(is_ranked);
}

proof fn lemma_style_items_are_ranked(items: Seq<ItemView>, style: StyleView)
    ensures
        is_ranked(items, with_style(items, style), 9),
{
    assert(is_ranked(items, items, 0)) by {
        reveal(is_ranked);
    }
    let fg = ItemView::Foreground(style.fg->0);
    let i1 = with_item(items, style.fg is Some, fg);
    lemma_ranked(items, items, 0, style.fg is Some, fg);
    let bg = ItemView::Background(style.bg->0);
    let i2 = with_item(i1, style.bg is Some, bg);
    lemma_ranked(items, i1, 1, style.bg is Some, bg);
    let intensity = ItemView::Attribute(AttributeChange::Intensity(style.intensity));
    let i3 = with_item(i2, style.intensity != Intensity::Normal, intensity);
    lemma_ranked(items, i2, 2, style.intensity != Intensity::Normal, intensity);
    let italic = ItemView::Attribute(AttributeChange::Italic(true));
    let i4 = with_item(i3, style.italic, italic);
    lemma_ranked(items, i3, 3, style.italic, italic);
    let underline = ItemView::Attribute(AttributeChange::Underline(style.underline));
    let i5 = with_item(i4, style.underline != Underline::Off, underline);
    lemma_ranked(items, i4, 4, style.underline != Underline::Off, underline);
    let blink = ItemView::Attribute(AttributeChange::Blink(style.blink));
    let i6 = with_item(i5, style.blink != Blink::Off, blink);
    lemma_ranked(items, i5, 5, style.blink != Blink::Off, blink);
    let reverse = ItemView::Attribute(AttributeChange::Reverse(true));
    let i7 = with_item(i6, style.reverse, reverse);
    lemma_ranked(items, i6, 6, style.reverse, reverse);
    let invisible = ItemView::Attribute(AttributeChange::Invisible(true));
    let i8 = with_item(i7, style.invisible, invisible);
    lemma_ranked(items, i7, 7, style.invisible, invisible);
    let struck = ItemView::Attribute(AttributeChange::StrikeThrough(true));
    lemma_ranked(items, i8, 8, style.strikethrough, struck);
}

} // verus!
