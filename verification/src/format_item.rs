//! Styled text as a list of items: colors, attributes and the text they apply to.

use vstd::prelude::*;

verus! {

/// The sixteen colors of the user's palette.
#[derive(Debug, Clone, Copy, PartialEq, Eq, Structural)]
pub enum AnsiColor {
    Black,
    Maroon,
    Green,
    Olive,
    Navy,
    Purple,
    Teal,
    Silver,
    Grey,
    Red,
    Lime,
    Yellow,
    Blue,
    Fuchsia,
    Aqua,
    White,
}

/// How strongly text is drawn.
#[derive(Debug, Clone, Copy, PartialEq, Eq, Structural)]
pub enum Intensity {
    Normal,
    Bold,
    Half,
}

/// How text is underlined.
#[derive(Debug, Clone, Copy, PartialEq, Eq, Structural)]
pub enum Underline {
    Off,
    Single,
    Double,
    Curly,
    Dotted,
    Dashed,
}

/// How text blinks.
#[derive(Debug, Clone, Copy, PartialEq, Eq, Structural)]
pub enum Blink {
    Off,
    Slow,
    Rapid,
}

/// A change of one attribute.
#[derive(Debug, Clone, Copy, PartialEq, Eq, Structural)]
pub enum AttributeChange {
    Intensity(Intensity),
    Underline(Underline),
    Italic(bool),
    Blink(Blink),
    Reverse(bool),
    StrikeThrough(bool),
    Invisible(bool),
}

/// A color: one of the palette, one written out, or the terminal's default.
#[derive(Debug, PartialEq, Eq)]
pub enum FormatColor {
    AnsiColor(AnsiColor),
    Color(String),
    Default,
}

/// A [`FormatColor`] as a mathematical value.
pub enum ColorView {
    AnsiColor(AnsiColor),
    Color(Seq<char>),
    Default,
}

impl View for FormatColor {
    type V = ColorView;

    open spec fn view(&self) -> ColorView {
        match *self {
            FormatColor::AnsiColor(c) => ColorView::AnsiColor(c),
            FormatColor::Color(text) => ColorView::Color(text@),
            FormatColor::Default => ColorView::Default,
        }
    }
}

impl Clone for FormatColor {
    fn clone(&self) -> (r: Self)
        ensures
            r@ == self@,
    {
        match self {
            FormatColor::AnsiColor(c) => FormatColor::AnsiColor(*c),
            FormatColor::Color(text) => FormatColor::Color(text.clone()),
            FormatColor::Default => FormatColor::Default,
        }
    }
}

impl FormatColor {
    /// Compares two colors.
    pub fn same(&self, other: &Self) -> (r: bool)
        ensures
            r == (self@ == other@),
    {
        match (self, other) {
            (FormatColor::AnsiColor(a), FormatColor::AnsiColor(b)) => *a == *b,
            (FormatColor::Color(a), FormatColor::Color(b)) => *a == *b,
            (FormatColor::Default, FormatColor::Default) => true,
            _ => false,
        }
    }
}

/// One item of styled text.
#[derive(Debug, PartialEq, Eq)]
pub enum FormatItem {
    Foreground(FormatColor),
    Background(FormatColor),
    Attribute(AttributeChange),
    ResetAttributes,
    Text(String),
}

/// A [`FormatItem`] as a mathematical value.
pub enum ItemView {
    Foreground(ColorView),
    Background(ColorView),
    Attribute(AttributeChange),
    ResetAttributes,
    Text(Seq<char>),
}

impl View for FormatItem {
    type V = ItemView;

    open spec fn view(&self) -> ItemView {
        match *self {
            FormatItem::Foreground(c) => ItemView::Foreground(c@),
            FormatItem::Background(c) => ItemView::Background(c@),
            FormatItem::Attribute(a) => ItemView::Attribute(a),
            FormatItem::ResetAttributes => ItemView::ResetAttributes,
            FormatItem::Text(text) => ItemView::Text(text@),
        }
    }
}

/// A row of items as mathematical values.
pub open spec fn item_views(items: Seq<FormatItem>) -> Seq<ItemView> {
    Seq::new(items.len(), |i: int| items[i]@)
}

/// The full set of attributes that styled text can have. The [`Style::base`] value is
/// the default style: no attribute and no color override.
#[derive(Debug, PartialEq, Eq)]
pub struct Style {
    pub fg: Option<FormatColor>,
    pub bg: Option<FormatColor>,
    pub intensity: Intensity,
    pub italic: bool,
    pub underline: Underline,
    pub blink: Blink,
    pub reverse: bool,
    pub invisible: bool,
    pub strikethrough: bool,
}

/// A [`Style`] as a mathematical value.
pub struct StyleView {
    pub fg: Option<ColorView>,
    pub bg: Option<ColorView>,
    pub intensity: Intensity,
    pub italic: bool,
    pub underline: Underline,
    pub blink: Blink,
    pub reverse: bool,
    pub invisible: bool,
    pub strikethrough: bool,
}

/// An optional color as a mathematical value.
pub open spec fn opt_color(c: Option<FormatColor>) -> Option<ColorView> {
    match c {
        Some(c) => Some(c@),
        None => None,
    }
}

impl View for Style {
    type V = StyleView;

    open spec fn view(&self) -> StyleView {
        StyleView {
            fg: opt_color(self.fg),
            bg: opt_color(self.bg),
            intensity: self.intensity,
            italic: self.italic,
            underline: self.underline,
            blink: self.blink,
            reverse: self.reverse,
            invisible: self.invisible,
            strikethrough: self.strikethrough,
        }
    }
}

fn clone_color(c: &Option<FormatColor>) -> (r: Option<FormatColor>)
    ensures
        opt_color(r) == opt_color(*c),
{
    match c {
        Some(c) => Some(c.clone()),
        None => None,
    }
}

fn same_color(a: &Option<FormatColor>, b: &Option<FormatColor>) -> (r: bool)
    ensures
        r == (opt_color(*a) == opt_color(*b)),
{
    match (a, b) {
        (Some(a), Some(b)) => a.same(b),
        (None, None) => true,
        _ => false,
    }
}

impl Clone for Style {
    fn clone(&self) -> (r: Self)
        ensures
            r@ == self@,
    {
        Self {
            fg: clone_color(&self.fg),
            bg: clone_color(&self.bg),
            intensity: self.intensity,
            italic: self.italic,
            underline: self.underline,
            blink: self.blink,
            reverse: self.reverse,
            invisible: self.invisible,
            strikethrough: self.strikethrough,
        }
    }
}

/// The default style.
pub open spec fn base_style() -> StyleView {
    StyleView {
        fg: None,
        bg: None,
        intensity: Intensity::Normal,
        italic: false,
        underline: Underline::Off,
        blink: Blink::Off,
        reverse: false,
        invisible: false,
        strikethrough: false,
    }
}

/// `items`, and `item` behind them if `cond` holds.
pub open spec fn with_item(items: Seq<ItemView>, cond: bool, item: ItemView) -> Seq<ItemView> {
    if cond {
        items.push(item)
    } else {
        items
    }
}

/// `items`, and behind them those that turn the default style into `style`: one for each
/// field that differs.
pub open spec fn with_style(items: Seq<ItemView>, style: StyleView) -> Seq<ItemView> {
    let items = with_item(items, style.fg is Some, ItemView::Foreground(style.fg->0));
    let items = with_item(items, style.bg is Some, ItemView::Background(style.bg->0));
    let items = with_item(
        items,
        style.intensity != Intensity::Normal,
        ItemView::Attribute(AttributeChange::Intensity(style.intensity)),
    );
    let items = with_item(
        items,
        style.italic,
        ItemView::Attribute(AttributeChange::Italic(true)),
    );
    let items = with_item(
        items,
        style.underline != Underline::Off,
        ItemView::Attribute(AttributeChange::Underline(style.underline)),
    );
    let items = with_item(
        items,
        style.blink != Blink::Off,
        ItemView::Attribute(AttributeChange::Blink(style.blink)),
    );
    let items = with_item(
        items,
        style.reverse,
        ItemView::Attribute(AttributeChange::Reverse(true)),
    );
    let items = with_item(
        items,
        style.invisible,
        ItemView::Attribute(AttributeChange::Invisible(true)),
    );
    with_item(
        items,
        style.strikethrough,
        ItemView::Attribute(AttributeChange::StrikeThrough(true)),
    )
}

/// Appends an item.
pub fn push_item(out: &mut Vec<FormatItem>, item: FormatItem)
    ensures
        item_views(final(out)@) == item_views(old(out)@).push(item@),
{
    out.push(item);
    assert(item_views(out@) == item_views(old(out)@).push(item@));
}

fn push_item_if(out: &mut Vec<FormatItem>, cond: bool, change: AttributeChange)
    ensures
        item_views(final(out)@) == with_item(
            item_views(old(out)@),
            cond,
            ItemView::Attribute(change),
        ),
{
    if cond {
        push_item(out, FormatItem::Attribute(change));
    }
}

impl Style {
    /// The default style.
    pub fn base() -> (r: Self)
        ensures
            r@ == base_style(),
    {
        Self {
            fg: None,
            bg: None,
            intensity: Intensity::Normal,
            italic: false,
            underline: Underline::Off,
            blink: Blink::Off,
            reverse: false,
            invisible: false,
            strikethrough: false,
        }
    }

    /// Compares two styles.
    pub fn same(&self, other: &Self) -> (r: bool)
        ensures
            r == (self@ == other@),
    {
        same_color(&self.fg, &other.fg) && same_color(&self.bg, &other.bg) && self.intensity
            == other.intensity && self.italic == other.italic && self.underline == other.underline
            && self.blink == other.blink && self.reverse == other.reverse && self.invisible
            == other.invisible && self.strikethrough == other.strikethrough
    }

    /// Turns off all attributes but keeps the current colors.
    pub fn clear_attributes(&mut self)
        ensures
            final(self)@ == (StyleView { fg: old(self)@.fg, bg: old(self)@.bg, ..base_style() }),
    {
        let fg = self.fg.take();
        let bg = self.bg.take();
        *self = Self::base();
        self.fg = fg;
        self.bg = bg;
    }

    /// Appends the format items that establish this style, assuming that the output is
    /// preceded by a `ResetAttributes` (so only the non-default fields matter).
    pub fn emit_into(&self, out: &mut Vec<FormatItem>)
        ensures
            item_views(final(out)@) == with_style(item_views(old(out)@), self@),
    {
        if let Some(fg) = &self.fg {
            push_item(out, FormatItem::Foreground(fg.clone()));
        }
        if let Some(bg) = &self.bg {
            push_item(out, FormatItem::Background(bg.clone()));
        }
        push_item_if(
            out,
            self.intensity != Intensity::Normal,
            AttributeChange::Intensity(self.intensity),
        );
        push_item_if(out, self.italic, AttributeChange::Italic(true));
        push_item_if(
            out,
            self.underline != Underline::Off,
            AttributeChange::Underline(self.underline),
        );
        push_item_if(out, self.blink != Blink::Off, AttributeChange::Blink(self.blink));
        push_item_if(out, self.reverse, AttributeChange::Reverse(true));
        push_item_if(out, self.invisible, AttributeChange::Invisible(true));
        push_item_if(out, self.strikethrough, AttributeChange::StrikeThrough(true));
    }
}

// ---------------------------------------------------------------------------
// What a list of items shows
// ---------------------------------------------------------------------------

/// The style after an attribute change.
pub open spec fn changed(style: StyleView, change: AttributeChange) -> StyleView {
    match change {
        AttributeChange::Intensity(intensity) => StyleView { intensity, ..style },
        AttributeChange::Underline(underline) => StyleView { underline, ..style },
        AttributeChange::Italic(italic) => StyleView { italic, ..style },
        AttributeChange::Blink(blink) => StyleView { blink, ..style },
        AttributeChange::Reverse(reverse) => StyleView { reverse, ..style },
        AttributeChange::StrikeThrough(strikethrough) => StyleView { strikethrough, ..style },
        AttributeChange::Invisible(invisible) => StyleView { invisible, ..style },
    }
}

/// Characters, all in one style.
pub open spec fn in_style(text: Seq<char>, style: StyleView) -> Seq<(char, StyleView)> {
    Seq::new(text.len(), |i: int| (text[i], style))
}

/// The style after one item.
pub open spec fn item_applied(style: StyleView, item: ItemView) -> StyleView {
    match item {
        ItemView::Foreground(c) => StyleView { fg: Some(c), ..style },
        ItemView::Background(c) => StyleView { bg: Some(c), ..style },
        ItemView::Attribute(change) => changed(style, change),
        ItemView::ResetAttributes => base_style(),
        ItemView::Text(_) => style,
    }
}

/// The style that `items` leave in force, starting from `style`.
#[verifier::opaque]
pub open spec fn style_after(style: StyleView, items: Seq<ItemView>) -> StyleView
    decreases items.len(),
{
    if items.len() == 0 {
        style
    } else {
        item_applied(style_after(style, items.drop_last()), items.last())
    }
}

/// What a terminal in the default style shows for `items`: each character in its style.
#[verifier::opaque]
pub open spec fn shown(items: Seq<ItemView>) -> Seq<(char, StyleView)>
    decreases items.len(),
{
    if items.len() == 0 {
        Seq::empty()
    } else {
        let before = shown(items.drop_last());
        match items.last() {
            ItemView::Text(text) => before + in_style(
                text,
                style_after(base_style(), items.drop_last()),
            ),
            _ => before,
        }
    }
}

/// One more item that may not be there.
proof fn lemma_with_item(style: StyleView, items: Seq<ItemView>, cond: bool, item: ItemView)
    requires
        !(item is Text),
    ensures
        style_after(style, with_item(items, cond, item)) == (if cond {
            item_applied(style_after(style, items), item)
        } else {
            style_after(style, items)
        }),
        shown(with_item(items, cond, item)) == shown(items),
{
    reveal_with_fuel(style_after, 2);
    reveal_with_fuel(shown, 2);
    assert(items.push(item).drop_last() == items);
}

/// The items of a style, put behind a reset, leave exactly that style in force, and show
/// no text.
pub proof fn law_style_items_establish_style(items: Seq<ItemView>, style: StyleView)
    ensures
        style_after(base_style(), with_style(items.push(ItemView::ResetAttributes), style))
            == style,
        shown(with_style(items.push(ItemView::ResetAttributes), style)) == shown(items),
{
    let base = base_style();
    lemma_with_item(base, items, true, ItemView::ResetAttributes);
    let i0 = items.push(ItemView::ResetAttributes);
    let s0 = base;
    let i1 = with_item(i0, style.fg is Some, ItemView::Foreground(style.fg->0));
    let s1 = StyleView { fg: style.fg, ..s0 };
    assert(style_after(base, i1) == s1 && shown(i1) == shown(items)) by {
        lemma_with_item(base, i0, style.fg is Some, ItemView::Foreground(style.fg->0));
    }
    let i2 = with_item(i1, style.bg is Some, ItemView::Background(style.bg->0));
    let s2 = StyleView { bg: style.bg, ..s1 };
    assert(style_after(base, i2) == s2 && shown(i2) == shown(items)) by {
        lemma_with_item(base, i1, style.bg is Some, ItemView::Background(style.bg->0));
    }
    let i3 = with_item(
        i2,
        style.intensity != Intensity::Normal,
        ItemView::Attribute(AttributeChange::Intensity(style.intensity)),
    );
    let s3 = StyleView { intensity: style.intensity, ..s2 };
    assert(style_after(base, i3) == s3 && shown(i3) == shown(items)) by {
        lemma_with_item(
            base,
            i2,
            style.intensity != Intensity::Normal,
            ItemView::Attribute(AttributeChange::Intensity(style.intensity)),
        );
    }
    let i4 = with_item(i3, style.italic, ItemView::Attribute(AttributeChange::Italic(true)));
    let s4 = StyleView { italic: style.italic, ..s3 };
    assert(style_after(base, i4) == s4 && shown(i4) == shown(items)) by {
        lemma_with_item(base, i3, style.italic, ItemView::Attribute(AttributeChange::Italic(true)));
    }
    let i5 = with_item(
        i4,
        style.underline != Underline::Off,
        ItemView::Attribute(AttributeChange::Underline(style.underline)),
    );
    let s5 = StyleView { underline: style.underline, ..s4 };
    assert(style_after(base, i5) == s5 && shown(i5) == shown(items)) by {
        lemma_with_item(
            base,
            i4,
            style.underline != Underline::Off,
            ItemView::Attribute(AttributeChange::Underline(style.underline)),
        );
    }
    let i6 = with_item(
        i5,
        style.blink != Blink::Off,
        ItemView::Attribute(AttributeChange::Blink(style.blink)),
    );
    let s6 = StyleView { blink: style.blink, ..s5 };
    assert(style_after(base, i6) == s6 && shown(i6) == shown(items)) by {
        lemma_with_item(
            base,
            i5,
            style.blink != Blink::Off,
            ItemView::Attribute(AttributeChange::Blink(style.blink)),
        );
    }
    let i7 = with_item(i6, style.reverse, ItemView::Attribute(AttributeChange::Reverse(true)));
    let s7 = StyleView { reverse: style.reverse, ..s6 };
    assert(style_after(base, i7) == s7 && shown(i7) == shown(items)) by {
        lemma_with_item(
            base,
            i6,
            style.reverse,
            ItemView::Attribute(AttributeChange::Reverse(true)),
        );
    }
    let i8 = with_item(i7, style.invisible, ItemView::Attribute(AttributeChange::Invisible(true)));
    let s8 = StyleView { invisible: style.invisible, ..s7 };
    assert(style_after(base, i8) == s8 && shown(i8) == shown(items)) by {
        lemma_with_item(
            base,
            i7,
            style.invisible,
            ItemView::Attribute(AttributeChange::Invisible(true)),
        );
    }
    let i9 = with_item(
        i8,
        style.strikethrough,
        ItemView::Attribute(AttributeChange::StrikeThrough(true)),
    );
    let s9 = StyleView { strikethrough: style.strikethrough, ..s8 };
    assert(style_after(base, i9) == s9 && shown(i9) == shown(items)) by {
        lemma_with_item(
            base,
            i8,
            style.strikethrough,
            ItemView::Attribute(AttributeChange::StrikeThrough(true)),
        );
    }
    assert(s9 == style);
    assert(with_style(i0, style) == i9);
}

} // verus!
