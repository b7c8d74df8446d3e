//! Styled terminal output values: spans, lines and their style descriptors.
use vstd::prelude::*;

verus! {

/// A terminal colour name.
#[derive(Debug, Clone, Copy, PartialEq, Eq)]
pub enum SpanColor {
    Black,
    White,
    Gray,
    DarkGray,
    Red,
    Green,
    Yellow,
    Blue,
    Magenta,
    Cyan,
}

/// The style of one run of text.
#[derive(Debug, Clone, Copy, PartialEq, Eq)]
pub struct SpanStyle {
    pub fg: Option<SpanColor>,
    pub bg: Option<SpanColor>,
    pub bold: bool,
    pub italic: bool,
    pub underlined: bool,
}

/// A run of text with one style.
#[derive(Debug, Clone, PartialEq)]
pub struct StyledSpan {
    pub text: String,
    pub style: SpanStyle,
}

/// One terminal row: an ordered sequence of styled spans.
#[derive(Debug, Clone, PartialEq)]
pub struct StyledLine {
    pub spans: Vec<StyledSpan>,
}

/// The mathematical value of a styled span.
#[verifier::ext_equal]
pub struct SpanView {
    pub text: Seq<char>,
    pub style: SpanStyle,
}

impl DeepView for StyledSpan {
    type V = SpanView;

    open spec fn deep_view(&self) -> SpanView {
        SpanView { text: self.text@, style: self.style }
    }
}

impl DeepView for StyledLine {
    type V = Seq<SpanView>;

    open spec fn deep_view(&self) -> Seq<SpanView> {
        self.spans.deep_view()
    }
}

/// A plain, unstyled run of text.
#[verifier::allow_in_spec]
pub fn style_plain() -> SpanStyle
    returns
        (SpanStyle { fg: None, bg: None, bold: false, italic: false, underlined: false }),
{
    SpanStyle { fg: None, bg: None, bold: false, italic: false, underlined: false }
}

/// Style of a whole-word bold span.
#[verifier::allow_in_spec]
pub fn style_bold_word() -> SpanStyle
    returns
        (SpanStyle { fg: None, bg: None, bold: true, italic: false, underlined: false }),
{
    SpanStyle { fg: None, bg: None, bold: true, italic: false, underlined: false }
}

/// Style of a whole-word italic span.
#[verifier::allow_in_spec]
pub fn style_italic_word() -> SpanStyle
    returns
        (SpanStyle { fg: None, bg: None, bold: false, italic: true, underlined: false }),
{
    SpanStyle { fg: None, bg: None, bold: false, italic: true, underlined: false }
}

/// Style of code text: green on black.
#[verifier::allow_in_spec]
pub fn style_code() -> SpanStyle
    returns
        (SpanStyle {
            fg: Some(SpanColor::Green),
            bg: Some(SpanColor::Black),
            bold: false,
            italic: false,
            underlined: false,
        }),
{
    SpanStyle {
        fg: Some(SpanColor::Green),
        bg: Some(SpanColor::Black),
        bold: false,
        italic: false,
        underlined: false,
    }
}

/// Style of the dark-gray frame glyphs (heading hashes, fences, rules).
#[verifier::allow_in_spec]
pub fn style_frame() -> SpanStyle
    returns
        (SpanStyle {
            fg: Some(SpanColor::DarkGray),
            bg: None,
            bold: false,
            italic: false,
            underlined: false,
        }),
{
    SpanStyle { fg: Some(SpanColor::DarkGray), bg: None, bold: false, italic: false, underlined: false }
}

/// Style of a code-fence language label.
#[verifier::allow_in_spec]
pub fn style_lang() -> SpanStyle
    returns
        (SpanStyle {
            fg: Some(SpanColor::Yellow),
            bg: None,
            bold: false,
            italic: false,
            underlined: false,
        }),
{
    SpanStyle { fg: Some(SpanColor::Yellow), bg: None, bold: false, italic: false, underlined: false }
}

/// Style of a rendered link: blue and underlined.
#[verifier::allow_in_spec]
pub fn style_link() -> SpanStyle
    returns
        (SpanStyle {
            fg: Some(SpanColor::Blue),
            bg: None,
            bold: false,
            italic: false,
            underlined: true,
        }),
{
    SpanStyle { fg: Some(SpanColor::Blue), bg: None, bold: false, italic: false, underlined: true }
}

/// Style of a list-item prefix.
#[verifier::allow_in_spec]
pub fn style_list_prefix() -> SpanStyle
    returns
        (SpanStyle {
            fg: Some(SpanColor::Yellow),
            bg: None,
            bold: false,
            italic: false,
            underlined: false,
        }),
{
    SpanStyle { fg: Some(SpanColor::Yellow), bg: None, bold: false, italic: false, underlined: false }
}

/// Style of the block-quote bar glyph.
#[verifier::allow_in_spec]
pub fn style_quote_bar() -> SpanStyle
    returns
        (SpanStyle {
            fg: Some(SpanColor::Blue),
            bg: None,
            bold: false,
            italic: false,
            underlined: false,
        }),
{
    SpanStyle { fg: Some(SpanColor::Blue), bg: None, bold: false, italic: false, underlined: false }
}

/// Style of block-quote text: gray italic.
#[verifier::allow_in_spec]
pub fn style_quote_text() -> SpanStyle
    returns
        (SpanStyle {
            fg: Some(SpanColor::Gray),
            bg: None,
            bold: false,
            italic: true,
            underlined: false,
        }),
{
    SpanStyle { fg: Some(SpanColor::Gray), bg: None, bold: false, italic: true, underlined: false }
}

/// Style of table border glyphs.
#[verifier::allow_in_spec]
pub fn style_table_border() -> SpanStyle
    returns
        (SpanStyle {
            fg: Some(SpanColor::Cyan),
            bg: None,
            bold: false,
            italic: false,
            underlined: false,
        }),
{
    SpanStyle { fg: Some(SpanColor::Cyan), bg: None, bold: false, italic: false, underlined: false }
}

/// Style of a table header cell: yellow bold.
#[verifier::allow_in_spec]
pub fn style_table_header() -> SpanStyle
    returns
        (SpanStyle {
            fg: Some(SpanColor::Yellow),
            bg: None,
            bold: true,
            italic: false,
            underlined: false,
        }),
{
    SpanStyle { fg: Some(SpanColor::Yellow), bg: None, bold: true, italic: false, underlined: false }
}

/// Style of a table data cell.
#[verifier::allow_in_spec]
pub fn style_table_cell() -> SpanStyle
    returns
        (SpanStyle {
            fg: Some(SpanColor::White),
            bg: None,
            bold: false,
            italic: false,
            underlined: false,
        }),
{
    SpanStyle { fg: Some(SpanColor::White), bg: None, bold: false, italic: false, underlined: false }
}

/// Style of a heading of the given level.
#[verifier::allow_in_spec]
pub fn style_heading(level: u8) -> SpanStyle
    returns
        (SpanStyle {
            fg: Some(
                if level == 1 {
                    SpanColor::Red
                } else if level == 2 {
                    SpanColor::Yellow
                } else if level == 3 {
                    SpanColor::Green
                } else if level == 4 {
                    SpanColor::Blue
                } else if level == 5 {
                    SpanColor::Magenta
                } else {
                    SpanColor::Cyan
                },
            ),
            bg: None,
            bold: true,
            italic: false,
            underlined: (level == 1),
        }),
{
    SpanStyle {
        fg: Some(
            if level == 1 {
                SpanColor::Red
            } else if level == 2 {
                SpanColor::Yellow
            } else if level == 3 {
                SpanColor::Green
            } else if level == 4 {
                SpanColor::Blue
            } else if level == 5 {
                SpanColor::Magenta
            } else {
                SpanColor::Cyan
            },
        ),
        bg: None,
        bold: true,
        italic: false,
        underlined: (level == 1),
    }
}


} // verus!
