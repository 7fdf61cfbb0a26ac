//! Styled lines of text for the terminal.

use ratatui::style::Stylize;
use ratatui::text::Line;
use vstd::prelude::*;

use crate::text::text_lines;

verus! {

/// A line of styled text, as the terminal library has it.
#[verifier::external_type_specification]
#[verifier::external_body]
pub struct ExLine<'a>(ratatui::text::Line<'a>);

/// How a text is set off.
pub enum TextStyle {
    Plain,
    Dim,
    Italic,
    Cyan,
}

/// A piece of a line: a text in one style.
pub struct SpanView {
    pub text: Seq<char>,
    pub style: TextStyle,
}

/// A line by its pieces.
pub struct LineView {
    /// The style of the line as a whole.
    pub base: Option<TextStyle>,
    pub spans: Seq<SpanView>,
}

/// The pieces that a line holds, in order. It says something of lines whose
/// pieces are all set in a [`TextStyle`].
pub uninterp spec fn line_spans(line: Line<'static>) -> Seq<SpanView>;

/// The style that a line has as a whole, beside that of its pieces. It is
/// `None` if the line has an alignment, or a style that is not among
/// [`TextStyle`].
pub uninterp spec fn line_base(line: Line<'static>) -> Option<TextStyle>;

/// A line by its pieces.
pub open spec fn line_view(line: Line<'static>) -> LineView {
    LineView { base: line_base(line), spans: line_spans(line) }
}

/// Lines by their pieces.
pub open spec fn line_views(lines: Seq<Line<'static>>) -> Seq<LineView> {
    lines.map_values(|line: Line<'static>| line_view(line))
}

/// A line of which nothing is set off as a whole.
pub open spec fn line_of(spans: Seq<SpanView>) -> LineView {
    LineView { base: Some(TextStyle::Plain), spans }
}

/// The pieces of a text that is not set off: one for each of its lines, so
/// none for an empty text.
pub open spec fn plain_spans(text: Seq<char>) -> Seq<SpanView> {
    text_lines(text).map_values(
        |line: Seq<char>| SpanView { text: line, style: TextStyle::Plain },
    )
}

/// Calls `Line::default` of the terminal library: a line without pieces.
#[verifier::external_body]
pub(crate) fn blank_line() -> (line: Line<'static>)
    ensures
        line_spans(line) == Seq::<SpanView>::empty(),
        line_base(line) == Some(TextStyle::Plain),
{
    Line::default()
}

/// Calls `Line::from` of the terminal library on a text: the line has a piece
/// for each line of the text, none of them set off.
#[verifier::external_body]
pub(crate) fn plain_line(text: String) -> (line: Line<'static>)
    ensures
        line_spans(line) == plain_spans(text@),
        line_base(line) == Some(TextStyle::Plain),
{
    Line::from(text)
}

/// Calls `Stylize::dim` of the terminal library on a line: its pieces stay as
/// they are, and a line that was not set off as a whole is now dim.
#[verifier::external_body]
pub(crate) fn dimmed_line(line: Line<'static>) -> (dimmed: Line<'static>)
    ensures
        line_spans(dimmed) == line_spans(line),
        line_base(line) == Some(TextStyle::Plain) ==> line_base(dimmed) == Some(TextStyle::Dim),
{
    line.dim()
}

/// Calls `Stylize::italic` of the terminal library on a text, and turns the
/// piece into a line: its one piece is the text in italics.
#[verifier::external_body]
pub(crate) fn italic_line(text: String) -> (line: Line<'static>)
    ensures
        line_spans(line) == seq![(SpanView { text: text@, style: TextStyle::Italic })],
        line_base(line) == Some(TextStyle::Plain),
{
    text.italic().into()
}

/// Calls `Stylize::dim` and `Stylize::cyan` of the terminal library on two
/// texts, and turns the pieces into a line: a dim label and a cyan value.
#[verifier::external_body]
pub(crate) fn labelled_line(label: String, value: String) -> (line: Line<'static>)
    ensures
        line_spans(line) == seq![
            (SpanView { text: label@, style: TextStyle::Dim }),
            (SpanView { text: value@, style: TextStyle::Cyan }),
        ],
        line_base(line) == Some(TextStyle::Plain),
{
    vec![label.dim(), value.cyan()].into()
}

} // verus!
