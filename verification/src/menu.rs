//! The screen of the menu: the roots, the controls and the results side by side.

use vstd::prelude::*;
use vstd::string::*;

use crate::layout::{
    column_limits, is_split, lemma_can_split, tui_can_give, tui_split, Direction, Limit,
};
use crate::screen::{
    border_colour, border_of, line_models, make_pane, one_line, pane, plain_line, terminal,
    widget_models, Area, Colour, LineModel, StyledLine, Widget, WidgetModel,
};
use crate::static_selection::StaticSelection;

verus! {

/// Where on the terminal the panes of the menu stand.
#[derive(Clone, Copy, Debug, PartialEq, Eq)]
pub struct MenuAreas {
    pub selection: Area,
    pub controls: Area,
    pub results: Area,
}

/// The controls.
pub open spec fn control_lines() -> Seq<LineModel> {
    seq![
        LineModel { text: "Start"@, colour: Some(Colour::White) },
        LineModel { text: "Stop"@, colour: Some(Colour::White) },
        LineModel { text: "Pause"@, colour: Some(Colour::White) },
    ]
}

/// The panes of the menu, in the order in which they are drawn.
pub open spec fn menu_of(selection: StaticSelection, areas: MenuAreas) -> Seq<WidgetModel> {
    seq![
        pane(
            areas.selection,
            "Selection"@,
            border_of(selection.pane_selected == 0),
            selection.root_lines(),
            false,
        ),
        pane(
            areas.controls,
            "Controls"@,
            border_of(selection.pane_selected == 1),
            control_lines(),
            true,
        ),
        pane(
            areas.results,
            "Results"@,
            border_of(selection.pane_selected == 2),
            seq![plain_line("Results will be shown here."@)],
            false,
        ),
    ]
}

/// The menu, with its panes where `areas` says, in the order in which they are to be drawn.
pub fn compose_menu(selection: &StaticSelection, areas: &MenuAreas) -> (widgets: Vec<Widget>)
    ensures
        widget_models(widgets@) == menu_of(*selection, *areas),
{
    let pane_selected = selection.pane_selected;
    let mut widgets: Vec<Widget> = Vec::new();
    widgets.push(
        make_pane(
            areas.selection,
            "Selection",
            border_colour(pane_selected == 0),
            selection.generate_root_list(),
            false,
        ),
    );
    let controls: Vec<StyledLine> = vec![
        StyledLine { text: "Start".to_owned(), colour: Some(Colour::White) },
        StyledLine { text: "Stop".to_owned(), colour: Some(Colour::White) },
        StyledLine { text: "Pause".to_owned(), colour: Some(Colour::White) },
    ];
    assert(line_models(controls@) =~= control_lines());
    widgets.push(
        make_pane(areas.controls, "Controls", border_colour(pane_selected == 1), controls, true),
    );
    widgets.push(
        make_pane(
            areas.results,
            "Results",
            border_colour(pane_selected == 2),
            one_line("Results will be shown here.", None),
            false,
        ),
    );
    assert(widget_models(widgets@) =~= menu_of(*selection, *areas));
    widgets
}

/// Whether the panes stand where this split of the terminal puts them.
pub open spec fn menu_split(
    width: u16,
    height: u16,
    areas: MenuAreas,
    columns: Seq<Area>,
) -> bool {
    let whole = terminal(width, height);
    &&& tui_can_give(Direction::Horizontal, 1, column_limits(), whole, columns)
    &&& is_split(Direction::Horizontal, 1, column_limits(), whole, columns)
    &&& areas.selection == columns[0]
    &&& areas.controls == columns[1]
    &&& areas.results == columns[2]
}

/// Whether the panes stand where a split of the terminal puts them.
pub open spec fn menu_laid_out(width: u16, height: u16, areas: MenuAreas) -> bool {
    exists|columns: Seq<Area>| #[trigger] menu_split(width, height, areas, columns)
}

/// The widest terminal of which the layout can take its percentages. On one that its margin fills
/// up it takes none.
pub const MAX_MENU_WIDTH: u16 = 1094;

/// The highest terminal that the margin fills up.
pub const NO_ROOM_MENU_HEIGHT: u16 = 1;

/// Lays the menu out on a terminal of this size.
pub fn lay_out_menu(width: u16, height: u16) -> (areas: MenuAreas)
    requires
        width <= MAX_MENU_WIDTH || height <= NO_ROOM_MENU_HEIGHT,
    ensures
        menu_laid_out(width, height, areas),
{
    let whole = Area { x: 0, y: 0, width, height };
    let wishes: Vec<Limit> = vec![
        Limit::Percentage(20),
        Limit::Percentage(20),
        Limit::Percentage(60),
    ];
    assert(wishes@ =~= column_limits());
    proof {
        lemma_can_split(Direction::Horizontal, 1, column_limits(), whole, 60, 1092);
    }
    let columns = tui_split(Direction::Horizontal, 1, &wishes, whole);
    let areas = MenuAreas { selection: columns[0], controls: columns[1], results: columns[2] };
    assert(menu_split(width, height, areas, columns@));
    areas
}

/// The menu for a terminal of this size, in the order in which its panes are to be drawn.
pub fn menu_screen(selection: &StaticSelection, width: u16, height: u16) -> (widgets: Vec<Widget>)
    requires
        width <= MAX_MENU_WIDTH || height <= NO_ROOM_MENU_HEIGHT,
    ensures
        exists|areas: MenuAreas|
            {
                &&& menu_laid_out(width, height, areas)
                &&& widget_models(widgets@) == #[trigger] menu_of(*selection, areas)
            },
{
    let areas = lay_out_menu(width, height);
    compose_menu(selection, &areas)
}

} // verus!
