use tmux_control::format_item::{
    AnsiColor, AttributeChange, Blink, FormatColor, FormatItem, Intensity, Underline,
};
use tmux_control::tmux_style::{
    ansi_color_from_u8, color_or_named, palette_index_to_format_color, palette_index_to_hex,
    tmux_color_to_format_color, tmux_style_to_format_items, Parser,
};

fn fg(c: FormatColor) -> FormatItem {
    FormatItem::Foreground(c)
}

fn text(s: &str) -> FormatItem {
    FormatItem::Text(s.to_string())
}

fn chars(s: &str) -> Vec<char> {
    s.chars().collect()
}

fn color(s: &str) -> Option<FormatColor> {
    tmux_color_to_format_color(&chars(s))
}

#[test]
fn plain_text_has_no_style_items() {
    assert_eq!(tmux_style_to_format_items("hello"), vec![text("hello")]);
}

#[test]
fn named_fg_uses_ansi_palette() {
    // tmux "red" is palette index 1, which is named Maroon.
    assert_eq!(
        tmux_style_to_format_items("#[fg=red]foo"),
        vec![
            FormatItem::ResetAttributes,
            fg(FormatColor::AnsiColor(AnsiColor::Maroon)),
            text("foo"),
        ]
    );
}

#[test]
fn indexed_color_becomes_truecolor() {
    assert_eq!(
        tmux_style_to_format_items("#[fg=colour46]x"),
        vec![
            FormatItem::ResetAttributes,
            fg(FormatColor::Color("#00ff00".to_string())),
            text("x"),
        ]
    );
}

#[test]
fn attribute_removal_is_handled() {
    assert_eq!(
        tmux_style_to_format_items("#[bold]a#[nobold]b"),
        vec![
            FormatItem::ResetAttributes,
            FormatItem::Attribute(AttributeChange::Intensity(Intensity::Bold)),
            text("a"),
            FormatItem::ResetAttributes,
            text("b"),
        ]
    );
}

#[test]
fn doubled_hash_is_literal() {
    assert_eq!(tmux_style_to_format_items("a##b"), vec![text("a#b")]);
}

#[test]
fn multiple_keywords_in_one_spec() {
    assert_eq!(
        tmux_style_to_format_items("#[fg=blue,bg=black,bold]z"),
        vec![
            FormatItem::ResetAttributes,
            fg(FormatColor::AnsiColor(AnsiColor::Navy)),
            FormatItem::Background(FormatColor::AnsiColor(AnsiColor::Black)),
            FormatItem::Attribute(AttributeChange::Intensity(Intensity::Bold)),
            text("z"),
        ]
    );
}

#[test]
fn push_and_pop_default() {
    // A and C take the pushed default (red); B is blue; D is base after pop.
    let red = || fg(FormatColor::AnsiColor(AnsiColor::Maroon));
    let blue = || fg(FormatColor::AnsiColor(AnsiColor::Navy));
    assert_eq!(
        tmux_style_to_format_items(
            "#[fg=red]#[push-default]A#[fg=blue]B#[default]C#[pop-default]#[default]D"
        ),
        vec![
            FormatItem::ResetAttributes,
            red(),
            text("A"),
            FormatItem::ResetAttributes,
            blue(),
            text("B"),
            FormatItem::ResetAttributes,
            red(),
            text("C"),
            FormatItem::ResetAttributes,
            text("D"),
        ]
    );
}

#[test]
fn layout_keywords_are_ignored() {
    assert_eq!(
        tmux_style_to_format_items("#[align=right]x"),
        vec![text("x")]
    );
}

#[test]
fn no_text_means_no_items() {
    assert_eq!(tmux_style_to_format_items(""), vec![]);
    assert_eq!(tmux_style_to_format_items("#[fg=red]"), vec![]);
}

#[test]
fn lone_and_final_hashes_are_text() {
    assert_eq!(tmux_style_to_format_items("#a#"), vec![text("#a#")]);
    assert_eq!(tmux_style_to_format_items("###"), vec![text("##")]);
}

#[test]
fn doubled_text_is_one_item() {
    let plain = "a#b##[fg=red]c";
    let doubled = plain.replace('#', "##");
    assert_eq!(tmux_style_to_format_items(&doubled), vec![text(plain)]);
}

#[test]
fn unterminated_spec_runs_to_the_end() {
    assert_eq!(
        tmux_style_to_format_items("a#[bold b"),
        vec![text("a")]
    );
}

#[test]
fn keywords_are_separated_by_any_whitespace() {
    assert_eq!(
        tmux_style_to_format_items("#[ bold\u{2003}italics ,, dim\t]x"),
        vec![
            FormatItem::ResetAttributes,
            FormatItem::Attribute(AttributeChange::Intensity(Intensity::Half)),
            FormatItem::Attribute(AttributeChange::Italic(true)),
            text("x"),
        ]
    );
}

#[test]
fn keywords_are_read_without_regard_to_case() {
    assert_eq!(
        tmux_style_to_format_items("#[FG=Red,BOLD]x#[Default]y"),
        vec![
            FormatItem::ResetAttributes,
            fg(FormatColor::AnsiColor(AnsiColor::Maroon)),
            FormatItem::Attribute(AttributeChange::Intensity(Intensity::Bold)),
            text("x"),
            FormatItem::ResetAttributes,
            text("y"),
        ]
    );
}

#[test]
fn all_attributes_come_in_order() {
    assert_eq!(
        tmux_style_to_format_items(
            "#[strikethrough,hidden,reverse,blink,curly-underscore,italics,bright]x"
        ),
        vec![
            FormatItem::ResetAttributes,
            FormatItem::Attribute(AttributeChange::Intensity(Intensity::Bold)),
            FormatItem::Attribute(AttributeChange::Italic(true)),
            FormatItem::Attribute(AttributeChange::Underline(Underline::Curly)),
            FormatItem::Attribute(AttributeChange::Blink(Blink::Slow)),
            FormatItem::Attribute(AttributeChange::Reverse(true)),
            FormatItem::Attribute(AttributeChange::Invisible(true)),
            FormatItem::Attribute(AttributeChange::StrikeThrough(true)),
            text("x"),
        ]
    );
}

#[test]
fn every_underline_has_a_name() {
    let named = [
        ("underscore", Underline::Single),
        ("double-underscore", Underline::Double),
        ("curly-underscore", Underline::Curly),
        ("dotted-underscore", Underline::Dotted),
        ("dashed-underscore", Underline::Dashed),
    ];
    for (name, underline) in named {
        assert_eq!(
            tmux_style_to_format_items(&format!("#[{name}]x#[no{name}]y")),
            vec![
                FormatItem::ResetAttributes,
                FormatItem::Attribute(AttributeChange::Underline(underline)),
                text("x"),
                FormatItem::ResetAttributes,
                text("y"),
            ]
        );
    }
}

#[test]
fn none_keeps_the_colors() {
    assert_eq!(
        tmux_style_to_format_items("#[fg=red,bold]a#[none]b"),
        vec![
            FormatItem::ResetAttributes,
            fg(FormatColor::AnsiColor(AnsiColor::Maroon)),
            FormatItem::Attribute(AttributeChange::Intensity(Intensity::Bold)),
            text("a"),
            FormatItem::ResetAttributes,
            fg(FormatColor::AnsiColor(AnsiColor::Maroon)),
            text("b"),
        ]
    );
}

#[test]
fn set_default_is_what_default_reverts_to() {
    assert_eq!(
        tmux_style_to_format_items("#[fg=red,set-default]a#[fg=blue]b#[default]c"),
        vec![
            FormatItem::ResetAttributes,
            fg(FormatColor::AnsiColor(AnsiColor::Maroon)),
            text("a"),
            FormatItem::ResetAttributes,
            fg(FormatColor::AnsiColor(AnsiColor::Navy)),
            text("b"),
            FormatItem::ResetAttributes,
            fg(FormatColor::AnsiColor(AnsiColor::Maroon)),
            text("c"),
        ]
    );
}

#[test]
fn pop_default_restores_what_was_pushed() {
    let red = || fg(FormatColor::AnsiColor(AnsiColor::Maroon));
    let blue = || fg(FormatColor::AnsiColor(AnsiColor::Navy));
    // red is the default; blue takes its place until the pop, which keeps the style in force
    assert_eq!(
        tmux_style_to_format_items(
            "#[fg=red,set-default]#[Push-Default]#[fg=blue,set-default]#[POP-default]a#[default]b"
        ),
        vec![
            FormatItem::ResetAttributes,
            blue(),
            text("a"),
            FormatItem::ResetAttributes,
            red(),
            text("b"),
        ]
    );
    // with nothing pushed, the base style is the default
    assert_eq!(
        tmux_style_to_format_items("#[fg=red,set-default]#[pop-default]a#[default]b"),
        vec![
            FormatItem::ResetAttributes,
            red(),
            text("a"),
            FormatItem::ResetAttributes,
            text("b"),
        ]
    );
}

#[test]
fn keywords_are_applied_before_the_text() {
    let mut parser = Parser::new();
    for kw in ["fg=red", "push-default", "fg=blue", "set-default", "pop-default", "default"] {
        parser.apply_keyword(&chars(kw));
    }
    assert_eq!(parser.parse("a"), vec![text("a")]);
}

#[test]
fn an_unchanged_style_is_not_repeated() {
    assert_eq!(
        tmux_style_to_format_items("#[bold]a#[bold]b"),
        vec![
            FormatItem::ResetAttributes,
            FormatItem::Attribute(AttributeChange::Intensity(Intensity::Bold)),
            text("a"),
            text("b"),
        ]
    );
}

#[test]
fn unknown_keywords_and_colors_change_nothing() {
    assert_eq!(
        tmux_style_to_format_items("#[fg=red]a#[fg=nosuchcolor,wobbly,noacs,range=left]b"),
        vec![
            FormatItem::ResetAttributes,
            fg(FormatColor::AnsiColor(AnsiColor::Maroon)),
            text("a"),
            text("b"),
        ]
    );
}

#[test]
fn colors_by_other_names_keep_their_spelling() {
    assert_eq!(color(" #Ff0000 "), Some(FormatColor::Color("#Ff0000".to_string())));
    assert_eq!(color("PapayaWhip"), Some(FormatColor::Color("PapayaWhip".to_string())));
    assert_eq!(color("nosuchcolor"), None);
    assert_eq!(color("#12345"), None);
    assert_eq!(color(""), None);
    assert_eq!(color("\u{e9}toile"), None);
}

#[test]
fn a_name_is_a_color_only_if_it_is_known() {
    let name = chars("some-name");
    assert_eq!(color_or_named(&name, true), Some(FormatColor::Color("some-name".to_string())));
    assert_eq!(color_or_named(&name, false), None);
    let red = chars("red");
    assert_eq!(
        color_or_named(&red, false),
        Some(FormatColor::AnsiColor(AnsiColor::Maroon))
    );
}

#[test]
fn the_default_color_has_two_names() {
    assert_eq!(color("default"), Some(FormatColor::Default));
    assert_eq!(color("Terminal"), Some(FormatColor::Default));
}

#[test]
fn indexed_colors_are_of_the_palette() {
    for n in 0..=255u8 {
        let expected = Some(palette_index_to_format_color(n));
        assert_eq!(color(&format!("colour{n}")), expected);
        assert_eq!(color(&format!("COLOR{n}")), expected);
        assert_eq!(color(&format!("{n}")), expected);
        assert_eq!(color(&format!("colour+{n}")), expected);
    }
    assert_eq!(color("colour256"), None);
    assert_eq!(color("colour65535"), None);
    assert_eq!(color("colour65536"), None);
}

#[test]
fn palette_follows_the_xterm_layout() {
    assert_eq!(palette_index_to_hex(16), "#000000");
    assert_eq!(palette_index_to_hex(17), "#00005f");
    assert_eq!(palette_index_to_hex(52), "#5f0000");
    assert_eq!(palette_index_to_hex(110), "#87afd7");
    assert_eq!(palette_index_to_hex(231), "#ffffff");
    assert_eq!(palette_index_to_hex(232), "#080808");
    assert_eq!(palette_index_to_hex(255), "#eeeeee");
}

#[test]
fn bright_names_are_the_upper_half_of_the_palette() {
    let names = [
        "black", "red", "green", "yellow", "blue", "magenta", "cyan", "white",
    ];
    for (i, name) in names.iter().enumerate() {
        let n = i as u8;
        assert_eq!(color(name), ansi_color_from_u8(n).map(FormatColor::AnsiColor));
        assert_eq!(
            color(&format!("bright{name}")),
            ansi_color_from_u8(n + 8).map(FormatColor::AnsiColor)
        );
    }
    assert_eq!(ansi_color_from_u8(16), None);
}

/// What a terminal shows for a list of items: the text and, for each piece, the items in
/// force since the last reset.
fn shown(items: &[FormatItem]) -> Vec<(String, String)> {
    let mut style = String::new();
    let mut out = vec![];
    for item in items {
        match item {
            FormatItem::ResetAttributes => style.clear(),
            FormatItem::Text(t) => out.push((t.clone(), style.clone())),
            other => style.push_str(&format!("{other:?};")),
        }
    }
    out
}

#[test]
fn items_show_what_the_string_says() {
    let red = format!("{:?};", fg(FormatColor::AnsiColor(AnsiColor::Maroon)));
    assert_eq!(
        shown(&tmux_style_to_format_items("a#[fg=red]b#[default]c##d#[fg=red]e")),
        vec![
            ("a".to_string(), String::new()),
            ("b".to_string(), red.clone()),
            ("c#d".to_string(), String::new()),
            ("e".to_string(), red),
        ]
    );
}
