//! Colours and text styles, and the terminal escape codes that `ansi_term`
//! writes for them.

use vstd::prelude::*;

verus! {

/// `ansi_term::Colour`: only made here and handed on to `ansi_term`, never
/// looked into.
#[verifier::external_type_specification]
#[verifier::external_body]
pub struct ExAnsiColour(ansi_term::Colour);

/// `ansi_term::Style`: only made here and handed on to `ansi_term`, never
/// looked into.
#[verifier::external_type_specification]
#[verifier::external_body]
pub struct ExAnsiStyle(ansi_term::Style);

/// A colour of the terminal's palette.
#[derive(Clone, Copy, PartialEq, Eq, Debug, Structural)]
pub enum Tint {
    Black,
    Red,
    Green,
    Yellow,
    Blue,
    Purple,
    Cyan,
    White,
    /// A colour of the 256-colour palette, by its number.
    Fixed(u8),
    /// A 24-bit colour: red, green, blue.
    RGB(u8, u8, u8),
}

/// The properties a piece of text is displayed with.
#[derive(Clone, Copy, PartialEq, Eq, Debug, Structural)]
pub struct TextStyle {
    pub foreground: Option<Tint>,
    pub background: Option<Tint>,
    pub is_bold: bool,
    pub is_dimmed: bool,
    pub is_italic: bool,
    pub is_underline: bool,
    pub is_blink: bool,
    pub is_reverse: bool,
    pub is_hidden: bool,
    pub is_strikethrough: bool,
}

/// A piece of text and the style to display it in.
#[derive(Clone, Copy, Debug)]
pub struct Fragment<'a> {
    pub style: TextStyle,
    pub text: &'a str,
}

impl<'a> View for Fragment<'a> {
    type V = (TextStyle, Seq<char>);

    open spec fn view(&self) -> (TextStyle, Seq<char>) {
        (self.style, self.text@)
    }
}

/// The views of a run of fragments, in order.
pub open spec fn fragments(parts: Seq<Fragment>) -> Seq<(TextStyle, Seq<char>)> {
    parts.map_values(|f: Fragment| f@)
}

/// The string that `ansi_term` displays for `text` painted in `style`: the
/// text between the escape codes that switch the style on and off.
pub uninterp spec fn painted(style: TextStyle, text: Seq<char>) -> Seq<char>;

/// The string that `ansi_term` displays for a run of painted fragments, where
/// it writes only the codes that take one fragment's style to the next.
pub uninterp spec fn painted_run(parts: Seq<(TextStyle, Seq<char>)>) -> Seq<char>;

/// The number of terminal columns that `unicode-width` counts for `text`.
pub uninterp spec fn display_width(text: Seq<char>) -> nat;

/// Names the same colour in `ansi_term`'s own type. Nothing is claimed of
/// the result; it is only handed on to `ansi_term`.
#[verifier::external_body]
fn ansi_colour(colour: Tint) -> ansi_term::Colour {
    match colour {
        Tint::Black => ansi_term::Colour::Black,
        Tint::Red => ansi_term::Colour::Red,
        Tint::Green => ansi_term::Colour::Green,
        Tint::Yellow => ansi_term::Colour::Yellow,
        Tint::Blue => ansi_term::Colour::Blue,
        Tint::Purple => ansi_term::Colour::Purple,
        Tint::Cyan => ansi_term::Colour::Cyan,
        Tint::White => ansi_term::Colour::White,
        Tint::Fixed(n) => ansi_term::Colour::Fixed(n),
        Tint::RGB(r, g, b) => ansi_term::Colour::RGB(r, g, b),
    }
}

/// Builds `ansi_term`'s own `Style` with the same ten properties. Nothing is
/// claimed of the result; it is only handed on to `ansi_term`.
#[verifier::external_body]
fn ansi_style(style: TextStyle) -> ansi_term::Style {
    ansi_term::Style {
        foreground: style.foreground.map(ansi_colour),
        background: style.background.map(ansi_colour),
        is_bold: style.is_bold,
        is_dimmed: style.is_dimmed,
        is_italic: style.is_italic,
        is_underline: style.is_underline,
        is_blink: style.is_blink,
        is_reverse: style.is_reverse,
        is_hidden: style.is_hidden,
        is_strikethrough: style.is_strikethrough,
    }
}

/// Calls `ansi_term::Style::paint` and displays the result. The contract
/// claims only that the string is the one named `painted`: a function of the
/// style and the text alone.
#[verifier::external_body]
pub(crate) fn paint(style: TextStyle, text: &str) -> (out: String)
    ensures
        out@ == painted(style, text@),
{
    ansi_style(style).paint(text).to_string()
}

/// Paints each fragment with `ansi_term::Style::paint` and displays them
/// together through `ansi_term::ANSIStrings`. The contract claims only that
/// the string is the one named `painted_run`: a function of the styles and
/// texts, in their order, alone.
#[verifier::external_body]
pub(crate) fn paint_run(parts: &Vec<Fragment>) -> (out: String)
    ensures
        out@ == painted_run(fragments(parts@)),
{
    let strings: Vec<ansi_term::ANSIString> =
        parts.iter().map(|f| ansi_style(f.style).paint(f.text)).collect();
    ansi_term::ANSIStrings(&strings).to_string()
}

/// Calls `unicode_width::UnicodeWidthStr::width`. The contract claims only
/// that the count is the one named `display_width`: a function of the text
/// alone.
#[verifier::external_body]
pub(crate) fn measure(text: &str) -> (width: usize)
    ensures
        width == display_width(text@),
{
    unicode_width::UnicodeWidthStr::width(text)
}

impl TextStyle {
    /// The style with no property set.
    pub open spec fn plain() -> TextStyle {
        TextStyle {
            foreground: None,
            background: None,
            is_bold: false,
            is_dimmed: false,
            is_italic: false,
            is_underline: false,
            is_blink: false,
            is_reverse: false,
            is_hidden: false,
            is_strikethrough: false,
        }
    }

    pub fn new() -> (style: TextStyle)
        ensures
            style == TextStyle::plain(),
    {
        TextStyle {
            foreground: None,
            background: None,
            is_bold: false,
            is_dimmed: false,
            is_italic: false,
            is_underline: false,
            is_blink: false,
            is_reverse: false,
            is_hidden: false,
            is_strikethrough: false,
        }
    }

    pub fn bold(&self) -> (style: TextStyle)
        ensures
            style == (TextStyle { is_bold: true, ..*self }),
    {
        let mut style = *self;
        style.is_bold = true;
        style
    }

    pub fn underline(&self) -> (style: TextStyle)
        ensures
            style == (TextStyle { is_underline: true, ..*self }),
    {
        let mut style = *self;
        style.is_underline = true;
        style
    }

    pub fn fg(&self, foreground: Tint) -> (style: TextStyle)
        ensures
            style == (TextStyle { foreground: Some(foreground), ..*self }),
    {
        let mut style = *self;
        style.foreground = Some(foreground);
        style
    }

    pub fn on(&self, background: Tint) -> (style: TextStyle)
        ensures
            style == (TextStyle { background: Some(background), ..*self }),
    {
        let mut style = *self;
        style.background = Some(background);
        style
    }
}

impl Default for TextStyle {
    fn default() -> (style: TextStyle)
        ensures
            style == TextStyle::plain(),
    {
        TextStyle::new()
    }
}

impl Tint {
    /// The style that sets this colour as the foreground and nothing else.
    pub open spec fn plain(self) -> TextStyle {
        TextStyle { foreground: Some(self), ..TextStyle::plain() }
    }

    pub fn normal(self) -> (style: TextStyle)
        ensures
            style == self.plain(),
    {
        TextStyle::new().fg(self)
    }

    pub fn bold(self) -> (style: TextStyle)
        ensures
            style == (TextStyle { is_bold: true, ..self.plain() }),
    {
        self.normal().bold()
    }

    pub fn underline(self) -> (style: TextStyle)
        ensures
            style == (TextStyle { is_underline: true, ..self.plain() }),
    {
        self.normal().underline()
    }

    pub fn on(self, background: Tint) -> (style: TextStyle)
        ensures
            style == (TextStyle { background: Some(background), ..self.plain() }),
    {
        self.normal().on(background)
    }
}

} // verus!
