//! The screen of a search: tips at the top; below them the roots, the search terms over the run
//! control, and the results; and over all of it, at times, a box in the middle.

use vstd::prelude::*;
use vstd::string::*;

use crate::layout::{
    column_limits, ends_within, inside, is_split, left_over, lemma_can_split, ratatui_can_give,
    ratatui_split, shares_length_and_rest, Direction, Limit,
};
use crate::screen::{
    border_colour, border_of, line_models, make_pane, one_line, pane, plain_line, terminal,
    widget_models, Area, Colour, LineModel, Panel, PanelModel, StyledLine, Widget, WidgetModel,
};
use crate::static_selection::StaticSelection;

verus! {

/// What the keyboard acts on.
#[derive(Debug, PartialEq, Eq)]
pub enum Focus {
    Main,
    ConfirmClose,
    Help,
    /// A search term is being edited; these are the lines of the editor.
    SearchMod(Vec<StyledLine>),
}

/// The lines of the search terms, as they look in either state of their pane.
#[derive(Debug, PartialEq, Eq)]
pub struct TermLines {
    /// While the pane is selected.
    pub selected: Vec<StyledLine>,
    /// While it is not.
    pub unselected: Vec<StyledLine>,
}

impl TermLines {
    /// The lines to be shown, where `selected` says whether the pane is selected.
    pub open spec fn shown(self, selected: bool) -> Seq<LineModel> {
        if selected {
            line_models(self.selected@)
        } else {
            line_models(self.unselected@)
        }
    }
}

/// What the screen shows beside the menu.
#[derive(Debug, PartialEq, Eq)]
pub struct ScreenContents {
    /// Whether a search runs.
    pub running: bool,
    /// Whether the run control does not answer for the time being.
    pub run_control_disabled: bool,
    /// The lines of the search terms.
    pub search_terms: TermLines,
    /// The lines of the results.
    pub results: Vec<StyledLine>,
    pub focus: Focus,
}

/// Where on the terminal the parts of the screen stand.
#[derive(Clone, Copy, Debug, PartialEq, Eq)]
pub struct ScreenAreas {
    pub tips: Area,
    pub roots: Area,
    pub search_terms: Area,
    pub controls: Area,
    pub results: Area,
    /// The middle of the screen, where a box is shown there.
    pub overlay: Option<Area>,
}

/// The tips at the top of the screen.
pub open spec fn tips() -> Seq<Seq<char>> {
    seq![
        "H for the Help menu"@,
        "Arrow keys for navigation"@,
        "Enter to select/toggle"@,
        "Page up/down for first/last element"@,
        "F5 Start/Stop"@,
    ]
}

/// Tips in one line, each in brackets and with a blank behind it.
pub open spec fn bracketed(tips: Seq<Seq<char>>) -> Seq<char>
    decreases tips.len(),
{
    if tips.len() == 0 {
        Seq::empty()
    } else {
        bracketed(tips.drop_last()) + "["@ + tips.last() + "] "@
    }
}

/// What the run control is called: what it would do, or that it is at it.
pub open spec fn run_label(running: bool, disabled: bool) -> Seq<char> {
    if !running {
        "Start"@
    } else if disabled {
        "Stopping"@
    } else {
        "Stop"@
    }
}

/// The colour of the run control.
pub open spec fn run_colour(running: bool, disabled: bool) -> Colour {
    if !running {
        Colour::White
    } else if disabled {
        Colour::Red
    } else {
        Colour::Green
    }
}

/// A box over the screen.
pub open spec fn overlay_box(area: Area, title: Seq<char>, lines: Seq<LineModel>) -> WidgetModel {
    WidgetModel {
        area,
        panel: Some(
            PanelModel { title, border: Colour::White, background: Some(Colour::DarkGray) },
        ),
        lines,
        wrap: false,
    }
}

/// The parts of the screen that are always there, in the order in which they are drawn.
pub open spec fn base_screen(
    selection: StaticSelection,
    contents: ScreenContents,
    areas: ScreenAreas,
) -> Seq<WidgetModel> {
    seq![
        WidgetModel {
            area: areas.tips,
            panel: None,
            lines: seq![plain_line(bracketed(tips()))],
            wrap: true,
        },
        pane(
            areas.roots,
            "Root Selection"@,
            border_of(selection.pane_selected == 0),
            selection.root_lines(),
            false,
        ),
        pane(
            areas.search_terms,
            "Search Terms"@,
            border_of(selection.has_search_terms_selected()),
            contents.search_terms.shown(selection.has_search_terms_selected()),
            true,
        ),
        pane(
            areas.controls,
            "Controls"@,
            Colour::White,
            seq![
                LineModel {
                    text: run_label(contents.running, contents.run_control_disabled),
                    colour: Some(run_colour(contents.running, contents.run_control_disabled)),
                },
            ],
            true,
        ),
        pane(
            areas.results,
            "Results"@,
            border_of(selection.pane_selected == 2),
            line_models(contents.results@),
            false,
        ),
    ]
}

/// The box over the screen, where there is one.
pub open spec fn overlay_screen(focus: Focus, area: Area) -> Seq<WidgetModel> {
    match focus {
        Focus::Main => Seq::empty(),
        Focus::ConfirmClose => seq![
            overlay_box(area, "Confirm Close"@, seq![plain_line("Y/N"@)]),
        ],
        Focus::Help => seq![
            overlay_box(area, "Help/Controls"@, seq![plain_line("Placeholder"@)]),
        ],
        Focus::SearchMod(lines) => seq![
            overlay_box(area, "Search Modify"@, line_models(lines@)),
        ],
    }
}

/// The whole screen, in the order in which it is drawn.
pub open spec fn screen_of(
    selection: StaticSelection,
    contents: ScreenContents,
    areas: ScreenAreas,
) -> Seq<WidgetModel> {
    base_screen(selection, contents, areas) + match areas.overlay {
        Some(area) => overlay_screen(contents.focus, area),
        None => Seq::empty(),
    }
}

/// The tips in one line.
fn tips_line() -> (line: String)
    ensures
        line@ == bracketed(tips()),
{
    let list: Vec<&str> = vec![
        "H for the Help menu",
        "Arrow keys for navigation",
        "Enter to select/toggle",
        "Page up/down for first/last element",
        "F5 Start/Stop",
    ];
    let mut line = String::new();
    let mut i: usize = 0;
    assert(tips().take(0) =~= Seq::empty());
    while i < list.len()
        invariant
            i <= list.len(),
            list.len() == tips().len(),
            forall|k: int| 0 <= k < list.len() ==> (#[trigger] list[k])@ == tips()[k],
            line@ == bracketed(tips().take(i as int)),
        decreases list.len() - i,
    {
        line.append("[");
        line.append(list[i]);
        line.append("] ");
        i = i + 1;
        assert(tips().take(i as int).drop_last() =~= tips().take(i - 1));
        assert(tips().take(i as int).last() == list[i - 1]@);
    }
    assert(tips().take(i as int) =~= tips());
    line
}

/// A box over the screen.
fn make_overlay(area: Area, title: &str, lines: Vec<StyledLine>) -> (widget: Widget)
    ensures
        widget@ == overlay_box(area, title@, line_models(lines@)),
{
    Widget {
        area,
        panel: Some(
            Panel {
                title: title.to_owned(),
                border: Colour::White,
                background: Some(Colour::DarkGray),
            },
        ),
        lines,
        wrap: false,
    }
}

/// The screen, with its parts where `areas` says, in the order in which they are to be drawn.
pub fn compose(
    selection: &StaticSelection,
    contents: ScreenContents,
    areas: &ScreenAreas,
) -> (widgets: Vec<Widget>)
    ensures
        widget_models(widgets@) == screen_of(*selection, contents, *areas),
{
    let ScreenContents { running, run_control_disabled, search_terms, results, focus } = contents;
    let pane_selected = selection.pane_selected;
    let terms_selected = selection.search_terms_selected();
    let term_lines = if terms_selected {
        search_terms.selected
    } else {
        search_terms.unselected
    };
    let mut widgets: Vec<Widget> = Vec::new();
    widgets.push(
        Widget {
            area: areas.tips,
            panel: None,
            lines: one_line(tips_line().as_str(), None),
            wrap: true,
        },
    );
    widgets.push(
        make_pane(
            areas.roots,
            "Root Selection",
            border_colour(pane_selected == 0),
            selection.generate_root_list(),
            false,
        ),
    );
    widgets.push(
        make_pane(
            areas.search_terms,
            "Search Terms",
            border_colour(terms_selected),
            term_lines,
            true,
        ),
    );
    let label = if running {
        if running && run_control_disabled {
            "Stopping"
        } else {
            "Stop"
        }
    } else {
        "Start"
    };
    let colour = if running && !run_control_disabled {
        Colour::Green
    } else if running && run_control_disabled {
        Colour::Red
    } else {
        Colour::White
    };
    widgets.push(
        make_pane(areas.controls, "Controls", Colour::White, one_line(label, Some(colour)), true),
    );
    widgets.push(
        make_pane(
            areas.results,
            "Results",
            border_colour(pane_selected == 2),
            results,
            false,
        ),
    );
    assert(widget_models(widgets@) =~= base_screen(*selection, contents, *areas));
    if let Some(area) = areas.overlay {
        match focus {
            Focus::Main => {},
            Focus::ConfirmClose => {
                widgets.push(make_overlay(area, "Confirm Close", one_line("Y/N", None)));
            },
            Focus::Help => {
                widgets.push(make_overlay(area, "Help/Controls", one_line("Placeholder", None)));
            },
            Focus::SearchMod(lines) => {
                widgets.push(make_overlay(area, "Search Modify", lines));
            },
        }
    }
    assert(widget_models(widgets@) =~= screen_of(*selection, contents, *areas));
    widgets
}

/// The tips above the rest.
pub open spec fn row_limits() -> Seq<Limit> {
    seq![Limit::Length(1), Limit::Max(100)]
}

/// The search terms above the run control.
pub open spec fn middle_limits() -> Seq<Limit> {
    seq![Limit::Percentage(92), Limit::Percentage(8)]
}

/// Three equal parts.
pub open spec fn thirds() -> Seq<Limit> {
    seq![Limit::Ratio(1, 3), Limit::Ratio(1, 3), Limit::Ratio(1, 3)]
}

/// Whether the parts of the screen stand where these successive splits of the terminal put them:
/// into rows, of the second row into columns, and of the second column into two parts.
pub open spec fn base_split(
    width: u16,
    height: u16,
    areas: ScreenAreas,
    rows: Seq<Area>,
    columns: Seq<Area>,
    middle: Seq<Area>,
) -> bool {
    let whole = terminal(width, height);
    &&& ratatui_can_give(Direction::Vertical, 0, row_limits(), whole, rows)
    &&& ratatui_can_give(Direction::Horizontal, 1, column_limits(), rows[1], columns)
    &&& ratatui_can_give(Direction::Vertical, 0, middle_limits(), columns[1], middle)
    &&& is_split(Direction::Vertical, 0, row_limits(), whole, rows)
    &&& is_split(Direction::Horizontal, 1, column_limits(), rows[1], columns)
    &&& is_split(Direction::Vertical, 0, middle_limits(), columns[1], middle)
    &&& shares_length_and_rest(Direction::Vertical, 0, row_limits(), whole, rows)
    &&& areas.tips == rows[0]
    &&& areas.roots == columns[0]
    &&& areas.search_terms == middle[0]
    &&& areas.controls == middle[1]
    &&& areas.results == columns[2]
}

/// Whether the parts of the screen stand where successive splits of the terminal put them.
pub open spec fn base_laid_out(width: u16, height: u16, areas: ScreenAreas) -> bool {
    exists|rows: Seq<Area>, columns: Seq<Area>, middle: Seq<Area>| #[trigger]
        base_split(width, height, areas, rows, columns, middle)
}

/// Whether an area is the middle one where the terminal is split into three rows, and the second
/// row into three columns.
pub open spec fn overlay_split(
    width: u16,
    height: u16,
    area: Area,
    rows: Seq<Area>,
    columns: Seq<Area>,
) -> bool {
    let whole = terminal(width, height);
    &&& ratatui_can_give(Direction::Vertical, 0, thirds(), whole, rows)
    &&& ratatui_can_give(Direction::Horizontal, 0, thirds(), rows[1], columns)
    &&& is_split(Direction::Vertical, 0, thirds(), whole, rows)
    &&& is_split(Direction::Horizontal, 0, thirds(), rows[1], columns)
    &&& area == columns[1]
}

/// Whether an area is the middle third, both ways, of the terminal.
pub open spec fn overlay_laid_out(width: u16, height: u16, area: Area) -> bool {
    exists|rows: Seq<Area>, columns: Seq<Area>| #[trigger]
        overlay_split(width, height, area, rows, columns)
}

/// Whether the screen is laid out on a terminal of this size, with room for a box where one is
/// to be shown. No part reaches beyond the terminal.
pub open spec fn laid_out(width: u16, height: u16, overlay: bool, areas: ScreenAreas) -> bool {
    &&& base_laid_out(width, height, areas)
    &&& areas.overlay is Some == overlay
    &&& areas.overlay is Some ==> overlay_laid_out(width, height, areas.overlay->0)
    &&& forall|area: Area|
        #[trigger] areas.has(area) ==> area.x + area.width <= width && area.y + area.height
            <= height
}

impl ScreenAreas {
    /// Whether `area` is that of some part of the screen.
    pub open spec fn has(self, area: Area) -> bool {
        ||| area == self.tips
        ||| area == self.roots
        ||| area == self.search_terms
        ||| area == self.controls
        ||| area == self.results
        ||| self.overlay == Some(area)
    }
}

/// The widest terminal of which the layout can take its percentages. On one that leaves no room
/// below the tips it takes none.
pub const MAX_WIDTH: u16 = 1094;

/// The highest terminal that leaves no room below the tips.
pub const NO_ROOM_HEIGHT: u16 = 2;

/// Lays the screen out on a terminal of this size.
pub fn lay_out(width: u16, height: u16, overlay: bool) -> (areas: ScreenAreas)
    requires
        width <= MAX_WIDTH || height <= NO_ROOM_HEIGHT,
    ensures
        laid_out(width, height, overlay, areas),
{
    let whole = Area { x: 0, y: 0, width, height };
    let row_wishes: Vec<Limit> = vec![Limit::Length(1), Limit::Max(100)];
    let column_wishes: Vec<Limit> = vec![
        Limit::Percentage(20),
        Limit::Percentage(20),
        Limit::Percentage(60),
    ];
    let middle_wishes: Vec<Limit> = vec![Limit::Percentage(92), Limit::Percentage(8)];
    assert(row_wishes@ =~= row_limits());
    assert(column_wishes@ =~= column_limits());
    assert(middle_wishes@ =~= middle_limits());

    let rows = ratatui_split(Direction::Vertical, 0, &row_wishes, whole);
    assert(ends_within(rows[0], whole));
    assert(ends_within(rows[1], whole));
    assert(rows[1].height == left_over(height, 1, 100));
    proof {
        lemma_can_split(Direction::Horizontal, 1, column_limits(), rows[1], 60, 1092);
    }
    let columns = ratatui_split(Direction::Horizontal, 1, &column_wishes, rows[1]);
    assert(ends_within(columns[0], inside(rows[1], 1)));
    assert(ends_within(columns[1], inside(rows[1], 1)));
    assert(ends_within(columns[2], inside(rows[1], 1)));
    proof {
        lemma_can_split(Direction::Vertical, 0, middle_limits(), columns[1], 92, 98);
    }
    let middle = ratatui_split(Direction::Vertical, 0, &middle_wishes, columns[1]);
    assert(ends_within(middle[0], columns[1]));
    assert(ends_within(middle[1], columns[1]));

    let middle_pane = if overlay {
        let third_wishes: Vec<Limit> = vec![
            Limit::Ratio(1, 3),
            Limit::Ratio(1, 3),
            Limit::Ratio(1, 3),
        ];
        assert(third_wishes@ =~= thirds());
        let vertical_split = ratatui_split(Direction::Vertical, 0, &third_wishes, whole);
        assert(ends_within(vertical_split[1], whole));
        let horizontal_split = ratatui_split(
            Direction::Horizontal,
            0,
            &third_wishes,
            vertical_split[1],
        );
        assert(ends_within(horizontal_split[1], vertical_split[1]));
        assert(overlay_split(
            width,
            height,
            horizontal_split[1],
            vertical_split@,
            horizontal_split@,
        ));
        Some(horizontal_split[1])
    } else {
        None
    };
    let areas = ScreenAreas {
        tips: rows[0],
        roots: columns[0],
        search_terms: middle[0],
        controls: middle[1],
        results: columns[2],
        overlay: middle_pane,
    };
    assert(base_split(width, height, areas, rows@, columns@, middle@));
    areas
}

/// The screen for a terminal of this size, in the order in which its parts are to be drawn.
pub fn renderer(
    selection: &StaticSelection,
    contents: ScreenContents,
    width: u16,
    height: u16,
) -> (widgets: Vec<Widget>)
    requires
        width <= MAX_WIDTH || height <= NO_ROOM_HEIGHT,
    ensures
        exists|areas: ScreenAreas|
            {
                &&& laid_out(width, height, !(contents.focus is Main), areas)
                &&& widget_models(widgets@) == #[trigger] screen_of(*selection, contents, areas)
            },
{
    let overlay = match &contents.focus {
        Focus::Main => false,
        _ => true,
    };
    let areas = lay_out(width, height, overlay);
    compose(selection, contents, &areas)
}

} // verus!
