//! What is to be drawn on the screen: styled text, frames and cells.

use vstd::prelude::*;

use crate::geometry::Rect;
use crate::lines;

verus! {

/// A terminal colour.
#[derive(Debug, Clone, Copy, PartialEq, Eq, Structural)]
pub enum Color {
    Reset,
    Black,
    Red,
    Green,
    Yellow,
    Blue,
    Magenta,
    Cyan,
    Gray,
    DarkGray,
    LightRed,
    LightGreen,
    LightYellow,
    LightBlue,
    LightMagenta,
    LightCyan,
    White,
    Rgb(u8, u8, u8),
    Indexed(u8),
}

/// The colours of a theme.
#[derive(Debug, Clone, Copy, PartialEq, Eq, Structural)]
pub struct Palette {
    pub accent: Color,
    pub panel_bg: Color,
    pub surface0: Color,
    pub surface1: Color,
    pub surface_dim: Color,
    pub overlay0: Color,
    pub overlay1: Color,
    pub text: Color,
    pub subtext0: Color,
    pub mauve: Color,
    pub green: Color,
    pub yellow: Color,
    pub red: Color,
    pub blue: Color,
    pub teal: Color,
}

/// How cells are drawn; what is not given stays as it is.
#[derive(Debug, Clone, Copy, PartialEq, Eq, Structural)]
pub struct Style {
    pub fg: Option<Color>,
    pub bg: Option<Color>,
    pub bold: bool,
    pub dim: bool,
}

/// Nothing special.
#[verifier::allow_in_spec]
pub fn plain() -> Style
    returns
        (Style { fg: None, bg: None, bold: false, dim: false }),
{
    Style { fg: None, bg: None, bold: false, dim: false }
}

/// In a colour.
#[verifier::allow_in_spec]
pub fn ink(fg: Color) -> Style
    returns
        (Style { fg: Some(fg), bg: None, bold: false, dim: false }),
{
    Style { fg: Some(fg), bg: None, bold: false, dim: false }
}

/// On a colour.
#[verifier::allow_in_spec]
pub fn paper(bg: Color) -> Style
    returns
        (Style { fg: None, bg: Some(bg), bold: false, dim: false }),
{
    Style { fg: None, bg: Some(bg), bold: false, dim: false }
}

/// In a colour on another.
#[verifier::allow_in_spec]
pub fn ink_on(fg: Color, bg: Color) -> Style
    returns
        (Style { fg: Some(fg), bg: Some(bg), bold: false, dim: false }),
{
    Style { fg: Some(fg), bg: Some(bg), bold: false, dim: false }
}

/// In bold.
#[verifier::allow_in_spec]
pub fn bold(style: Style) -> Style
    returns
        (Style { fg: style.fg, bg: style.bg, bold: true, dim: style.dim }),
{
    Style { fg: style.fg, bg: style.bg, bold: true, dim: style.dim }
}

/// Dimmed.
#[verifier::allow_in_spec]
pub fn dim(style: Style) -> Style
    returns
        (Style { fg: style.fg, bg: style.bg, bold: style.bold, dim: true }),
{
    Style { fg: style.fg, bg: style.bg, bold: style.bold, dim: true }
}

/// Text of one style.
#[derive(Debug)]
pub struct Span {
    pub text: String,
    pub style: Style,
}

/// Text of one style, for contracts.
pub struct SpanView {
    pub text: Seq<char>,
    pub style: Style,
}

/// Text of one style.
pub open spec fn span(text: Seq<char>, style: Style) -> SpanView {
    SpanView { text, style }
}

impl Span {
    pub open spec fn view(&self) -> SpanView {
        SpanView { text: self.text@, style: self.style }
    }
}

/// A line of text.
#[derive(Debug)]
pub struct Line {
    pub spans: Vec<Span>,
}

/// An empty line.
pub open spec fn blank() -> Seq<SpanView> {
    Seq::empty()
}

impl Line {
    pub open spec fn view(&self) -> Seq<SpanView> {
        self.spans@.map_values(|span: Span| span@)
    }

    /// An empty line.
    pub fn new() -> (line: Line)
        ensures
            line@ == blank(),
    {
        let line = Line { spans: Vec::new() };
        assert(line@ =~= blank());
        line
    }

    /// A line of one style.
    pub fn of(text: &str, style: Style) -> (line: Line)
        ensures
            line@ == blank().push(span(text@, style)),
    {
        Line::new().with(text, style)
    }

    /// The line with more text.
    pub fn with(self, text: &str, style: Style) -> (line: Line)
        ensures
            line@ == self@.push(span(text@, style)),
    {
        let ghost before = self@;
        let mut spans = self.spans;
        spans.push(Span { text: text.to_owned(), style });
        let line = Line { spans };
        assert(line@ =~= before.push(span(text@, style)));
        line
    }

    /// The line with another behind it.
    pub fn then_line(self, other: Line) -> (line: Line)
        ensures
            line@ == self@ + other@,
    {
        let ghost before = self@;
        let ghost behind = other@;
        let mut spans = self.spans;
        let mut more = other.spans;
        spans.append(&mut more);
        let line = Line { spans };
        assert(line@ =~= before + behind);
        line
    }
}

/// The lines of a text, for contracts.
pub open spec fn lines_view(lines: Seq<Line>) -> Seq<Seq<SpanView>> {
    lines.map_values(|line: Line| line@)
}

/// A text of one line.
pub fn single(line: Line) -> (lines: Vec<Line>)
    ensures
        lines_view(lines@) == seq![line@],
{
    let ghost only = line@;
    let mut lines: Vec<Line> = Vec::new();
    lines.push(line);
    assert(lines_view(lines@) =~= seq![only]);
    lines
}

/// A line of a text without styles of its own; an empty one has no spans.
pub open spec fn unstyled(text: Seq<char>) -> Seq<SpanView> {
    if text.len() == 0 {
        blank()
    } else {
        blank().push(span(text, plain()))
    }
}

/// A text without styles of its own: a line for each of its lines, and an empty
/// line for an empty text.
pub open spec fn paragraph_lines(text: Seq<char>) -> Seq<Seq<SpanView>> {
    if text.len() == 0 {
        seq![blank()]
    } else {
        lines::lines_of(text).map_values(|line: Seq<char>| unstyled(line))
    }
}

fn unstyled_line(text: &str) -> (line: Line)
    ensures
        line@ == unstyled(text@),
{
    if text.unicode_len() == 0 {
        Line::new()
    } else {
        Line::of(text, plain())
    }
}

/// A text without styles of its own, line by line.
pub fn paragraph(text: &str) -> (shown: Vec<Line>)
    ensures
        lines_view(shown@) == paragraph_lines(text@),
{
    if text.unicode_len() == 0 {
        return single(Line::new());
    }
    let split = lines::split_lines(text);
    let ghost all = lines::lines_of(text@);
    let mut shown: Vec<Line> = Vec::new();
    let mut i: usize = 0;
    assert(lines_view(shown@) =~= paragraph_lines(text@).take(0));
    while i < split.len()
        invariant
            text@.len() > 0,
            all == lines::lines_of(text@),
            lines::texts(split@) == all,
            i <= split@.len(),
            lines_view(shown@) == paragraph_lines(text@).take(i as int),
        decreases split@.len() - i,
    {
        assert(lines::texts(split@)[i as int] == split@[i as int]@);
        let ghost before = lines_view(shown@);
        let line = unstyled_line(split[i].as_str());
        let ghost next = line@;
        shown.push(line);
        i = i + 1;
        assert(lines_view(shown@) =~= before.push(next));
        assert(lines_view(shown@) =~= paragraph_lines(text@).take(i as int));
    }
    assert(lines_view(shown@) =~= paragraph_lines(text@));
    shown
}

/// Where text stands in its rectangle.
#[derive(Debug, Clone, Copy, PartialEq, Eq, Structural)]
pub enum Align {
    Left,
    Center,
    Right,
}

/// A step of drawing.
#[derive(Debug)]
pub enum Op {
    /// Blank the cells.
    Clear(Rect),
    /// Write lines.
    Text { rect: Rect, lines: Vec<Line>, style: Style, align: Align, wrap: bool, scroll: u16 },
    /// Draw a frame along the edge, and fill it.
    Frame { rect: Rect, ink: Color, thick: bool, paper: Option<Color> },
    /// Set the style of the cells.
    Restyle { rect: Rect, style: Style },
    /// Dim the cells.
    Dim(Rect),
    /// Darken the text of the cells by [`dim_color`].
    Darken(Rect),
    /// Put a symbol into each cell.
    Fill { rect: Rect, symbol: String, style: Style },
    /// A list with a selected item.
    List {
        rect: Rect,
        items: Vec<Line>,
        selected: usize,
        style: Style,
        highlight: Style,
        symbol: String,
    },
    /// A row of titles with a selected one.
    Tabs { rect: Rect, titles: Vec<Line>, selected: usize, style: Style, highlight: Style },
    /// What the program in a pane shows.
    Terminal { pane_id: u64, rect: Rect, cursor: bool },
    /// Set the style of the selected cells of a pane.
    Highlight { pane_id: u64, rect: Rect, style: Style },
}

/// A step of drawing, for contracts.
pub enum OpView {
    Clear(Rect),
    Text {
        rect: Rect,
        lines: Seq<Seq<SpanView>>,
        style: Style,
        align: Align,
        wrap: bool,
        scroll: u16,
    },
    Frame { rect: Rect, ink: Color, thick: bool, paper: Option<Color> },
    Restyle { rect: Rect, style: Style },
    Dim(Rect),
    Darken(Rect),
    Fill { rect: Rect, symbol: Seq<char>, style: Style },
    List {
        rect: Rect,
        items: Seq<Seq<SpanView>>,
        selected: usize,
        style: Style,
        highlight: Style,
        symbol: Seq<char>,
    },
    Tabs {
        rect: Rect,
        titles: Seq<Seq<SpanView>>,
        selected: usize,
        style: Style,
        highlight: Style,
    },
    Terminal { pane_id: u64, rect: Rect, cursor: bool },
    Highlight { pane_id: u64, rect: Rect, style: Style },
}

impl Op {
    pub open spec fn view(&self) -> OpView {
        match *self {
            Op::Clear(rect) => OpView::Clear(rect),
            Op::Text { rect, lines, style, align, wrap, scroll } => OpView::Text {
                rect,
                lines: lines_view(lines@),
                style,
                align,
                wrap,
                scroll,
            },
            Op::Frame { rect, ink, thick, paper } => OpView::Frame { rect, ink, thick, paper },
            Op::Restyle { rect, style } => OpView::Restyle { rect, style },
            Op::Dim(rect) => OpView::Dim(rect),
            Op::Darken(rect) => OpView::Darken(rect),
            Op::Fill { rect, symbol, style } => OpView::Fill { rect, symbol: symbol@, style },
            Op::List { rect, items, selected, style, highlight, symbol } => OpView::List {
                rect,
                items: lines_view(items@),
                selected,
                style,
                highlight,
                symbol: symbol@,
            },
            Op::Tabs { rect, titles, selected, style, highlight } => OpView::Tabs {
                rect,
                titles: lines_view(titles@),
                selected,
                style,
                highlight,
            },
            Op::Terminal { pane_id, rect, cursor } => OpView::Terminal { pane_id, rect, cursor },
            Op::Highlight { pane_id, rect, style } => OpView::Highlight { pane_id, rect, style },
        }
    }
}

/// One line at the left of a rectangle.
pub open spec fn line_at(rect: Rect, line: Seq<SpanView>) -> OpView {
    OpView::Text {
        rect,
        lines: seq![line],
        style: plain(),
        align: Align::Left,
        wrap: false,
        scroll: 0,
    }
}

/// A text of one style at the left of a rectangle.
pub open spec fn text_at(rect: Rect, text: Seq<char>, style: Style) -> OpView {
    OpView::Text {
        rect,
        lines: paragraph_lines(text),
        style,
        align: Align::Left,
        wrap: false,
        scroll: 0,
    }
}

/// What is to be drawn, step by step.
#[derive(Debug)]
pub struct Plan {
    pub ops: Vec<Op>,
}

/// Nothing to draw.
pub open spec fn idle() -> Seq<OpView> {
    Seq::empty()
}

impl Plan {
    pub open spec fn view(&self) -> Seq<OpView> {
        self.ops@.map_values(|op: Op| op@)
    }

    /// Nothing to draw.
    pub fn new() -> (plan: Plan)
        ensures
            plan@ == idle(),
    {
        let plan = Plan { ops: Vec::new() };
        assert(plan@ =~= idle());
        plan
    }

    pub fn push(&mut self, op: Op)
        ensures
            final(self)@ == old(self)@.push(op@),
    {
        let ghost before = self@;
        let ghost step = op@;
        self.ops.push(op);
        assert(self@ =~= before.push(step));
    }

    /// Draw all of another plan.
    pub fn append(&mut self, other: Plan)
        ensures
            final(self)@ == old(self)@ + other@,
    {
        let ghost before = self@;
        let ghost behind = other@;
        let mut ops = other.ops;
        self.ops.append(&mut ops);
        assert(self@ =~= before + behind);
    }

    /// Write a line at the left of a rectangle.
    pub fn line(&mut self, rect: Rect, line: Line)
        ensures
            final(self)@ == old(self)@.push(line_at(rect, line@)),
    {
        self.push(
            Op::Text {
                rect,
                lines: single(line),
                style: plain(),
                align: Align::Left,
                wrap: false,
                scroll: 0,
            },
        );
    }

    /// Write a text of one style at the left of a rectangle.
    pub fn text(&mut self, rect: Rect, text: &str, style: Style)
        ensures
            final(self)@ == old(self)@.push(text_at(rect, text@, style)),
    {
        self.push(
            Op::Text {
                rect,
                lines: paragraph(text),
                style,
                align: Align::Left,
                wrap: false,
                scroll: 0,
            },
        );
    }

    /// Put a symbol into each cell of a rectangle.
    pub fn fill(&mut self, rect: Rect, symbol: &str, style: Style)
        ensures
            final(self)@ == old(self)@.push(OpView::Fill { rect, symbol: symbol@, style }),
    {
        self.push(Op::Fill { rect, symbol: symbol.to_owned(), style });
    }
}

/// A darker colour, for text in the background.
pub open spec fn dimmed(color: Color) -> Color {
    match color {
        Color::Rgb(r, g, b) => Color::Rgb(r / 3, g / 3, b / 3),
        Color::DarkGray => Color::Rgb(30, 30, 30),
        Color::Red => Color::Rgb(60, 0, 0),
        Color::Green => Color::Rgb(0, 60, 0),
        Color::Yellow => Color::Rgb(60, 60, 0),
        Color::Blue => Color::Rgb(0, 0, 60),
        Color::Magenta => Color::Rgb(60, 0, 60),
        Color::Cyan => Color::Rgb(0, 60, 60),
        Color::LightRed => Color::Rgb(80, 30, 30),
        Color::LightGreen => Color::Rgb(30, 80, 30),
        Color::LightYellow => Color::Rgb(80, 80, 30),
        Color::LightBlue => Color::Rgb(30, 30, 80),
        Color::LightMagenta => Color::Rgb(80, 30, 80),
        Color::LightCyan => Color::Rgb(30, 80, 80),
        _ => Color::DarkGray,
    }
}

/// A darker colour, for text in the background.
pub fn dim_color(color: Color) -> (darker: Color)
    ensures
        darker == dimmed(color),
{
    match color {
        Color::Rgb(r, g, b) => Color::Rgb(r / 3, g / 3, b / 3),
        Color::White | Color::Gray => Color::DarkGray,
        Color::DarkGray => Color::Rgb(30, 30, 30),
        Color::Red => Color::Rgb(60, 0, 0),
        Color::Green => Color::Rgb(0, 60, 0),
        Color::Yellow => Color::Rgb(60, 60, 0),
        Color::Blue => Color::Rgb(0, 0, 60),
        Color::Magenta => Color::Rgb(60, 0, 60),
        Color::Cyan => Color::Rgb(0, 60, 60),
        Color::LightRed => Color::Rgb(80, 30, 30),
        Color::LightGreen => Color::Rgb(30, 80, 30),
        Color::LightYellow => Color::Rgb(80, 80, 30),
        Color::LightBlue => Color::Rgb(30, 30, 80),
        Color::LightMagenta => Color::Rgb(80, 30, 80),
        Color::LightCyan => Color::Rgb(30, 80, 80),
        Color::Reset | Color::Black | Color::Indexed(_) => Color::DarkGray,
    }
}

/// A colour of three shares is a third as bright in the background, and every
/// named colour stays of its kind.
pub proof fn law_background_colours_are_darker(r: u8, g: u8, b: u8)
    ensures
        dimmed(Color::Rgb(r, g, b)) matches Color::Rgb(dr, dg, db) && 3 * dr <= r && r < 3 * dr + 3
            && 3 * dg <= g && g < 3 * dg + 3 && 3 * db <= b && b < 3 * db + 3,
        dimmed(Color::White) == Color::DarkGray,
        dimmed(Color::Gray) == Color::DarkGray,
        dimmed(Color::DarkGray) == Color::Rgb(30, 30, 30),
        dimmed(Color::Red) == Color::Rgb(60, 0, 0),
        dimmed(Color::Green) == Color::Rgb(0, 60, 0),
        dimmed(Color::Blue) == Color::Rgb(0, 0, 60),
        dimmed(Color::Yellow) == Color::Rgb(60, 60, 0),
        dimmed(Color::Magenta) == Color::Rgb(60, 0, 60),
        dimmed(Color::Cyan) == Color::Rgb(0, 60, 60),
{
}

/// A text of one line is drawn as that line, and nothing of it is lost.
pub proof fn law_single_lines_are_drawn_whole(text: Seq<char>)
    requires
        text.len() > 0,
        forall|i: int| 0 <= i < text.len() ==> text[i] != '\n' && text[i] != '\r',
    ensures
        paragraph_lines(text).len() == 1,
        paragraph_lines(text)[0].len() == 1,
        paragraph_lines(text)[0][0].text == text,
        paragraph_lines(text)[0][0].style == plain(),
{
    lines::law_a_text_without_breaks_is_one_line(text);
}

/// A line and a text stand at the left of their place, from their beginning, and
/// are cut off rather than wrapped.
pub proof fn law_lines_stand_at_the_left(
    rect: Rect,
    line: Seq<SpanView>,
    text: Seq<char>,
    style: Style,
)
    ensures
        line_at(rect, line) == (OpView::Text {
            rect,
            lines: seq![line],
            style: Style { fg: None, bg: None, bold: false, dim: false },
            align: Align::Left,
            wrap: false,
            scroll: 0,
        }),
        text_at(rect, text, style) == (OpView::Text {
            rect,
            lines: paragraph_lines(text),
            style,
            align: Align::Left,
            wrap: false,
            scroll: 0,
        }),
{
}

/// A step that is drawn comes after those before it, and so does what another plan
/// draws, in its order.
pub proof fn law_steps_are_drawn_in_order(
    pushed: &mut Plan,
    op: Op,
    joined: &mut Plan,
    other: Plan,
)
    ensures
        call_ensures(Plan::push, (pushed, op), ()) ==> {
            &&& final(pushed)@.len() == old(pushed)@.len() + 1
            &&& final(pushed)@.last() == op@
            &&& forall|i: int|
                0 <= i < old(pushed)@.len() ==> #[trigger] final(pushed)@[i] == old(pushed)@[i]
        },
        call_ensures(Plan::append, (joined, other), ()) ==> {
            &&& final(joined)@.len() == old(joined)@.len() + other@.len()
            &&& forall|i: int|
                0 <= i < old(joined)@.len() ==> #[trigger] final(joined)@[i] == old(joined)@[i]
            &&& forall|i: int|
                0 <= i < other@.len() ==> #[trigger] other@[i] == final(joined)@[old(
                    joined,
                )@.len() + i]
        },
{
}

} // verus!
