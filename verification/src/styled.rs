//! Styled text: what is written, and how it is to be painted.

use vstd::prelude::*;
use vstd::string::*;

verus! {

/// Whether animations may run.
#[derive(Clone, Copy, Debug, PartialEq, Eq, Structural)]
pub enum MotionMode {
    Animated,
    Reduced,
}

/// A foreground colour.
#[derive(Clone, Copy, Debug, PartialEq, Eq, Structural)]
pub enum Color {
    Cyan,
    Green,
    Magenta,
    Red,
}

/// A colour and modifiers.
#[derive(Clone, Copy, Debug, PartialEq, Eq, Structural)]
pub struct Style {
    pub fg: Option<Color>,
    pub bold: bool,
    pub dim: bool,
    pub italic: bool,
}

/// How a span is painted: in a fixed style, or with the host's shimmer.
#[derive(Clone, Copy, Debug, PartialEq, Eq, Structural)]
pub enum Paint {
    Styled(Style),
    Shimmer(MotionMode),
}

/// A piece of text with its paint.
#[derive(Debug, PartialEq, Eq)]
pub struct Span {
    pub content: String,
    pub paint: Paint,
}

/// A line of spans.
#[derive(Debug, PartialEq, Eq)]
pub struct Line {
    pub spans: Vec<Span>,
}

/// The view of a `Span`.
pub struct SpanView {
    pub text: Seq<char>,
    pub paint: Paint,
}

impl View for Span {
    type V = SpanView;

    open spec fn view(&self) -> SpanView {
        SpanView { text: self.content@, paint: self.paint }
    }
}

/// The views of `spans`.
pub open spec fn span_views(spans: Seq<Span>) -> Seq<SpanView> {
    spans.map_values(|span: Span| span@)
}

impl View for Line {
    type V = Seq<SpanView>;

    open spec fn view(&self) -> Seq<SpanView> {
        span_views(self.spans@)
    }
}

/// The views of `lines`.
pub open spec fn line_views(lines: Seq<Line>) -> Seq<Seq<SpanView>> {
    lines.map_values(|line: Line| line@)
}

/// The style of plain text.
#[verifier::allow_in_spec]
pub fn plain() -> Style
    returns
        (Style { fg: None, bold: false, dim: false, italic: false }),
{
    Style { fg: None, bold: false, dim: false, italic: false }
}

/// A style with nothing but a colour.
#[verifier::allow_in_spec]
pub fn colored(color: Color) -> Style
    returns
        (Style { fg: Some(color), bold: false, dim: false, italic: false }),
{
    Style { fg: Some(color), bold: false, dim: false, italic: false }
}

impl Style {
    /// The same style, bold.
    #[verifier::allow_in_spec]
    pub fn bold(self) -> Style
        returns
            (Style { fg: self.fg, bold: true, dim: self.dim, italic: self.italic }),
    {
        Style { fg: self.fg, bold: true, dim: self.dim, italic: self.italic }
    }

    /// The same style, dimmed.
    #[verifier::allow_in_spec]
    pub fn dim(self) -> Style
        returns
            (Style { fg: self.fg, bold: self.bold, dim: true, italic: self.italic }),
    {
        Style { fg: self.fg, bold: self.bold, dim: true, italic: self.italic }
    }

    /// The same style, italic.
    #[verifier::allow_in_spec]
    pub fn italic(self) -> Style
        returns
            (Style { fg: self.fg, bold: self.bold, dim: self.dim, italic: true }),
    {
        Style { fg: self.fg, bold: self.bold, dim: self.dim, italic: true }
    }
}

/// `text` in `style`.
pub open spec fn painted(text: Seq<char>, style: Style) -> SpanView {
    SpanView { text, paint: Paint::Styled(style) }
}

/// `text` in `style`.
pub fn span(text: &str, style: Style) -> (span: Span)
    ensures
        span@ == painted(text@, style),
{
    Span { content: text.to_owned(), paint: Paint::Styled(style) }
}

/// `left`, then `right`.
pub fn joined(left: &str, right: &str) -> (text: String)
    ensures
        text@ == left@ + right@,
{
    let mut text = left.to_owned();
    text.append(right);
    text
}

} // verus!
