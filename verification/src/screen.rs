//! What is to be shown on the terminal, as plain values.

use vstd::prelude::*;
use vstd::string::*;

verus! {

/// A colour of the terminal.
#[derive(Clone, Copy, Debug, PartialEq, Eq, Structural)]
pub enum Colour {
    White,
    Cyan,
    Green,
    Red,
    DarkGray,
    LightMagenta,
}

/// The colour in which the border of the selected pane is drawn.
pub const SELECTION_COLOUR: Colour = Colour::LightMagenta;

/// A rectangle of the terminal.
#[derive(Clone, Copy, Debug, PartialEq, Eq, Structural)]
pub struct Area {
    pub x: u16,
    pub y: u16,
    pub width: u16,
    pub height: u16,
}

/// A line of text, in one colour or in the terminal's own.
#[derive(Debug, PartialEq, Eq)]
pub struct StyledLine {
    pub text: String,
    pub colour: Option<Colour>,
}

/// The contents of a `StyledLine`.
#[verifier::ext_equal]
pub struct LineModel {
    pub text: Seq<char>,
    pub colour: Option<Colour>,
}

impl View for StyledLine {
    type V = LineModel;

    open spec fn view(&self) -> LineModel {
        LineModel { text: self.text@, colour: self.colour }
    }
}

/// The contents of a list of lines.
pub open spec fn line_models(lines: Seq<StyledLine>) -> Seq<LineModel> {
    lines.map_values(|line: StyledLine| line@)
}

/// A frame round a text: borders on all sides, and a title in white.
#[derive(Debug, PartialEq, Eq)]
pub struct Panel {
    pub title: String,
    pub border: Colour,
    pub background: Option<Colour>,
}

/// The contents of a `Panel`.
#[verifier::ext_equal]
pub struct PanelModel {
    pub title: Seq<char>,
    pub border: Colour,
    pub background: Option<Colour>,
}

impl View for Panel {
    type V = PanelModel;

    open spec fn view(&self) -> PanelModel {
        PanelModel { title: self.title@, border: self.border, background: self.background }
    }
}

/// A text at its place on the terminal.
#[derive(Debug, PartialEq, Eq)]
pub struct Widget {
    pub area: Area,
    /// The frame round the text, where it has one.
    pub panel: Option<Panel>,
    pub lines: Vec<StyledLine>,
    /// Whether lines that are too long go on in the next, without blanks at their beginning.
    pub wrap: bool,
}

/// The contents of a `Widget`.
#[verifier::ext_equal]
pub struct WidgetModel {
    pub area: Area,
    pub panel: Option<PanelModel>,
    pub lines: Seq<LineModel>,
    pub wrap: bool,
}

impl View for Widget {
    type V = WidgetModel;

    open spec fn view(&self) -> WidgetModel {
        WidgetModel {
            area: self.area,
            panel: match self.panel {
                Some(panel) => Some(panel@),
                None => None,
            },
            lines: line_models(self.lines@),
            wrap: self.wrap,
        }
    }
}

/// The contents of a list of widgets.
pub open spec fn widget_models(widgets: Seq<Widget>) -> Seq<WidgetModel> {
    widgets.map_values(|widget: Widget| widget@)
}

/// The colour of a pane's border.
pub open spec fn border_of(selected: bool) -> Colour {
    if selected {
        SELECTION_COLOUR
    } else {
        Colour::White
    }
}

/// The colour of a pane's border: that of the selected pane stands out.
pub fn border_colour(selected: bool) -> (colour: Colour)
    ensures
        colour == border_of(selected),
{
    if selected {
        SELECTION_COLOUR
    } else {
        Colour::White
    }
}

/// A line in the terminal's own colours.
pub open spec fn plain_line(text: Seq<char>) -> LineModel {
    LineModel { text, colour: None }
}

/// A pane of the screen.
pub open spec fn pane(
    area: Area,
    title: Seq<char>,
    border: Colour,
    lines: Seq<LineModel>,
    wrap: bool,
) -> WidgetModel {
    WidgetModel { area, panel: Some(PanelModel { title, border, background: None }), lines, wrap }
}

/// The whole terminal.
pub open spec fn terminal(width: u16, height: u16) -> Area {
    Area { x: 0, y: 0, width, height }
}

/// A list of one line.
pub(crate) fn one_line(text: &str, colour: Option<Colour>) -> (lines: Vec<StyledLine>)
    ensures
        line_models(lines@) == seq![LineModel { text: text@, colour }],
{
    let lines: Vec<StyledLine> = vec![StyledLine { text: text.to_owned(), colour }];
    assert(line_models(lines@) =~= seq![LineModel { text: text@, colour }]);
    lines
}

/// A pane of the screen.
pub(crate) fn make_pane(
    area: Area,
    title: &str,
    border: Colour,
    lines: Vec<StyledLine>,
    wrap: bool,
) -> (widget: Widget)
    ensures
        widget@ == pane(area, title@, border, line_models(lines@), wrap),
{
    Widget {
        area,
        panel: Some(Panel { title: title.to_owned(), border, background: None }),
        lines,
        wrap,
    }
}

} // verus!
